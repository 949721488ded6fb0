//! The cell grid: one `Cell` per character position, a `Buffer` holding a full
//! frame of cells in row-major order, and the change-detection (`diff`) that
//! turns two frames into the minimal set of positional updates.

use crate::style::{Color, Style};
use vstd::prelude::*;
use vstd::string::StrSliceExecFns;

verus! {

/// Marker symbol held only by sentinel cells.  A freshly initialized
/// "previous" frame is seeded with it so that the first diff emits every
/// cell; drawable cells never carry it.
pub const SENTINEL_SYMBOL: char = '\u{10FFFF}';

/// One character-sized visual unit: a symbol plus its style.
/// Equality is structural.
#[derive(Clone, Copy, PartialEq, Eq, Structural, Debug)]
pub struct Cell {
    pub symbol: char,
    pub fg: Color,
    pub bg: Color,
    pub modifier: u16,
}

impl Cell {
    /// A blank, reset-colored cell.
    pub open spec fn spec_blank() -> Cell {
        Cell { symbol: ' ', fg: Color::Reset, bg: Color::Reset, modifier: 0 }
    }

    /// A cell no drawable content ever equals.
    pub open spec fn spec_sentinel() -> Cell {
        Cell { symbol: SENTINEL_SYMBOL, fg: Color::Reset, bg: Color::Reset, modifier: 0 }
    }

    /// Whether this cell is the seeding sentinel.
    pub open spec fn is_sentinel(self) -> bool {
        self.symbol == SENTINEL_SYMBOL
    }

    pub fn blank() -> (r: Cell)
        ensures
            r == Cell::spec_blank(),
    {
        Cell { symbol: ' ', fg: Color::Reset, bg: Color::Reset, modifier: 0 }
    }

    pub fn sentinel() -> (r: Cell)
        ensures
            r == Cell::spec_sentinel(),
    {
        Cell { symbol: SENTINEL_SYMBOL, fg: Color::Reset, bg: Color::Reset, modifier: 0 }
    }
}

impl Default for Cell {
    /// The default cell is blank and reset-colored.
    fn default() -> (r: Cell)
        ensures
            r == Cell::spec_blank(),
    {
        Cell::blank()
    }
}

/// One positional change between two frames: the cell now at `(x, y)`.
#[derive(Clone, Copy, PartialEq, Eq, Structural, Debug)]
pub struct DiffRecord {
    pub x: u16,
    pub y: u16,
    pub cell: Cell,
}

impl DiffRecord {
    /// Row-major index of the record's position.
    pub open spec fn pos(self, w: int) -> int {
        self.y * w + self.x
    }
}

/// The sequence of change records for positions `i ..`, in row-major order:
/// exactly the positions where the two frames disagree, carrying the cell of
/// the current frame.
pub open spec fn spec_diff(prev: Seq<Cell>, cur: Seq<Cell>, w: int, i: int) -> Seq<DiffRecord>
    decreases cur.len() - i,
{
    if i < 0 || i >= cur.len() {
        Seq::empty()
    } else {
        let rest = spec_diff(prev, cur, w, i + 1);
        if prev[i] != cur[i] {
            seq![DiffRecord { x: (i % w) as u16, y: (i / w) as u16, cell: cur[i] }] + rest
        } else {
            rest
        }
    }
}

/// A full grid snapshot for one frame.  `cells` holds `width * height` cells
/// in row-major order (`index = y * width + x`).
#[derive(Debug)]
pub struct Buffer {
    pub width: u16,
    pub height: u16,
    pub cells: Vec<Cell>,
}

impl Buffer {
    /// The structural invariant: the cell count matches the dimensions.
    pub open spec fn wf(self) -> bool {
        self.cells@.len() == self.width * self.height
    }

    /// Row-major index of `(x, y)`.
    pub open spec fn spec_index(self, x: int, y: int) -> int {
        y * self.width + x
    }

    /// The cell at `(x, y)`.
    pub open spec fn cell_at(self, x: int, y: int) -> Cell {
        self.cells@[y * self.width + x]
    }

    /// A blank buffer of the given dimensions.
    pub fn new(width: u16, height: u16) -> (r: Buffer)
        ensures
            r.wf(),
            r.width == width,
            r.height == height,
            forall|p: int| 0 <= p < r.cells@.len() ==> r.cells@[p] == Cell::spec_blank(),
    {
        proof {
            lemma_dims_fit(width as int, height as int);
        }
        let n: usize = (width as usize) * (height as usize);
        Buffer { width, height, cells: filled(n, Cell::blank()) }
    }

    /// A buffer of the given dimensions filled with the sentinel cell, for
    /// seeding a "previous" frame so that the first diff emits everything.
    pub fn new_sentinel(width: u16, height: u16) -> (r: Buffer)
        ensures
            r.wf(),
            r.width == width,
            r.height == height,
            forall|p: int| 0 <= p < r.cells@.len() ==> r.cells@[p] == Cell::spec_sentinel(),
    {
        proof {
            lemma_dims_fit(width as int, height as int);
        }
        let n: usize = (width as usize) * (height as usize);
        Buffer { width, height, cells: filled(n, Cell::sentinel()) }
    }

    /// Read the cell at `(x, y)`.
    pub fn get(&self, x: u16, y: u16) -> (r: Cell)
        requires
            self.wf(),
            x < self.width,
            y < self.height,
        ensures
            r == self.cell_at(x as int, y as int),
    {
        proof {
            lemma_rowmajor_bound(x as int, y as int, self.width as int, self.height as int);
        }
        self.cells[(y as usize) * (self.width as usize) + (x as usize)]
    }

    /// Overwrite the cell at `(x, y)`.
    pub fn set(&mut self, x: u16, y: u16, cell: Cell)
        requires
            old(self).wf(),
            x < old(self).width,
            y < old(self).height,
        ensures
            final(self).wf(),
            final(self).width == old(self).width,
            final(self).height == old(self).height,
            final(self).cells@ == old(self).cells@.update(
                old(self).spec_index(x as int, y as int),
                cell,
            ),
    {
        proof {
            lemma_rowmajor_bound(x as int, y as int, self.width as int, self.height as int);
        }
        let i: usize = (y as usize) * (self.width as usize) + (x as usize);
        self.cells.set(i, cell);
    }

    /// Make this buffer an exact copy of `src`.
    pub fn copy_from(&mut self, src: &Buffer)
        requires
            src.wf(),
        ensures
            final(self).wf(),
            final(self).width == src.width,
            final(self).height == src.height,
            final(self).cells@ == src.cells@,
    {
        self.width = src.width;
        self.height = src.height;
        self.cells.clear();
        let n = src.cells.len();
        let mut i: usize = 0;
        while i < n
            invariant
                n == src.cells@.len(),
                i <= n,
                self.width == src.width,
                self.height == src.height,
                src.wf(),
                self.cells@ == src.cells@.take(i as int),
            decreases n - i,
        {
            self.cells.push(src.cells[i]);
            proof {
                assert(self.cells@ =~= src.cells@.take(i + 1 as int));
            }
            i = i + 1;
        }
        proof {
            assert(self.cells@ =~= src.cells@);
        }
    }

    /// The changes from `self` (the previous frame) to `cur` (the current
    /// frame): exactly the positions whose cells differ, each once, in
    /// row-major ascending order, carrying the current cell.
    pub fn diff(&self, cur: &Buffer) -> (r: Vec<DiffRecord>)
        requires
            self.wf(),
            cur.wf(),
            self.width == cur.width,
            self.height == cur.height,
        ensures
            r@ == spec_diff(self.cells@, cur.cells@, self.width as int, 0),
    {
        let mut r: Vec<DiffRecord> = Vec::new();
        let n = cur.cells.len();
        if n == 0 {
            proof {
                assert(r@ =~= spec_diff(self.cells@, cur.cells@, self.width as int, 0));
            }
            return r;
        }
        let w = self.width as usize;
        assert(w > 0) by {
            assert((self.width as int) * (self.height as int) != 0);
            assert(self.width as int != 0) by (nonlinear_arith)
                requires
                    (self.width as int) * (self.height as int) != 0,
            ;
        }
        let mut i: usize = 0;
        while i < n
            invariant
                n == cur.cells@.len(),
                n == self.cells@.len(),
                n == self.width * self.height,
                w == self.width,
                w > 0,
                i <= n,
                spec_diff(self.cells@, cur.cells@, self.width as int, 0) == r@ + spec_diff(
                    self.cells@,
                    cur.cells@,
                    self.width as int,
                    i as int,
                ),
            decreases n - i,
        {
            let ghost prevs = self.cells@;
            let ghost curs = cur.cells@;
            let ghost wi = self.width as int;
            let ghost r0 = r@;
            let ghost ii = i as int;
            proof {
                let head = DiffRecord { x: (ii % wi) as u16, y: (ii / wi) as u16, cell: curs[ii] };
                assert(spec_diff(prevs, curs, wi, ii) == if prevs[ii] != curs[ii] {
                    seq![head] + spec_diff(prevs, curs, wi, ii + 1)
                } else {
                    spec_diff(prevs, curs, wi, ii + 1)
                });
            }
            if self.cells[i] != cur.cells[i] {
                proof {
                    assert(i as int / wi < self.height as int) by (nonlinear_arith)
                        requires
                            wi > 0,
                            (i as int) < (self.width as int) * (self.height as int),
                            wi == self.width as int,
                    ;
                }
                let x: u16 = (i % w) as u16;
                let y: u16 = (i / w) as u16;
                let rec = DiffRecord { x, y, cell: cur.cells[i] };
                r.push(rec);
                proof {
                    assert(r@ =~= r0 + seq![rec]);
                    assert(r0 + (seq![rec] + spec_diff(prevs, curs, wi, i as int + 1)) =~= (r0
                        + seq![rec]) + spec_diff(prevs, curs, wi, i as int + 1));
                }
            }
            proof {
                assert(spec_diff(prevs, curs, wi, 0) == r@ + spec_diff(prevs, curs, wi, i as int
                    + 1));
            }
            i = i + 1;
        }
        proof {
            assert(spec_diff(self.cells@, cur.cells@, self.width as int, n as int)
                =~= Seq::<DiffRecord>::empty());
            assert(r@ =~= r@ + Seq::<DiffRecord>::empty());
        }
        r
    }
}

/// The result of writing symbol `ch` over cell `c` under the style patch
/// `st`: the symbol is replaced, each `Some` attribute of the patch
/// overwrites, each `None` attribute is kept.
pub open spec fn spec_apply(c: Cell, ch: char, st: Style) -> Cell {
    Cell {
        symbol: ch,
        fg: match st.fg {
            Some(f) => f,
            None => c.fg,
        },
        bg: match st.bg {
            Some(b) => b,
            None => c.bg,
        },
        modifier: match st.modifier {
            Some(m) => m,
            None => c.modifier,
        },
    }
}

/// Whether position `p` lies in the row segment written by `set_str(x, y, s)`
/// on a grid `w` cells wide: row `y`, columns `x .. x + len`, clipped at the
/// right edge.
pub open spec fn spec_in_write_span(w: int, x: int, y: int, len: int, p: int) -> bool {
    y * w + x <= p < y * w + x + len && p < y * w + w
}

impl Buffer {
    /// Write the characters of `s` at `(x, y)`, one cell per character,
    /// patching each written cell with `style`; writes past the right edge
    /// are clipped, every other cell is untouched.
    pub fn set_str(&mut self, x: u16, y: u16, s: &str, style: Style)
        requires
            old(self).wf(),
            y < old(self).height,
        ensures
            final(self).wf(),
            final(self).width == old(self).width,
            final(self).height == old(self).height,
            forall|k: int|
                0 <= k < s@.len() && x + k < old(self).width ==> final(self).cells@[old(
                    self,
                ).spec_index(x + k, y as int)] == spec_apply(
                    old(self).cells@[old(self).spec_index(x + k, y as int)],
                    s@[k],
                    style,
                ),
            forall|p: int|
                0 <= p < old(self).cells@.len() && !spec_in_write_span(
                    old(self).width as int,
                    x as int,
                    y as int,
                    s@.len() as int,
                    p,
                ) ==> final(self).cells@[p] == old(self).cells@[p],
    {
        let len = s.unicode_len();
        let w = self.width as usize;
        let mut k: usize = 0;
        while k < len
            invariant
                len == s@.len(),
                w == self.width,
                k <= len,
                self.wf(),
                old(self).wf(),
                self.width == old(self).width,
                self.height == old(self).height,
                self.cells@.len() == old(self).cells@.len(),
                y < self.height,
                forall|k2: int|
                    0 <= k2 < k && x + k2 < self.width ==> self.cells@[old(self).spec_index(
                        x + k2,
                        y as int,
                    )] == spec_apply(
                        old(self).cells@[old(self).spec_index(x + k2, y as int)],
                        s@[k2],
                        style,
                    ),
                forall|p: int|
                    0 <= p < old(self).cells@.len() && !spec_in_write_span(
                        old(self).width as int,
                        x as int,
                        y as int,
                        k as int,
                        p,
                    ) ==> self.cells@[p] == old(self).cells@[p],
            decreases len - k,
        {
            if k < w && (x as usize) + k < w {
                let ch = s.get_char(k);
                let cx: u16 = x + (k as u16);
                proof {
                    lemma_rowmajor_bound(
                        cx as int,
                        y as int,
                        self.width as int,
                        self.height as int,
                    );
                }
                let i: usize = (y as usize) * w + (x as usize) + k;
                proof {
                    assert(i as int == old(self).spec_index(x + k as int, y as int));
                    assert(!spec_in_write_span(
                        old(self).width as int,
                        x as int,
                        y as int,
                        k as int,
                        i as int,
                    ));
                    assert(self.cells@[i as int] == old(self).cells@[i as int]);
                }
                let c = self.cells[i];
                let patched = Cell {
                    symbol: ch,
                    fg: match style.fg {
                        Some(f) => f,
                        None => c.fg,
                    },
                    bg: match style.bg {
                        Some(b) => b,
                        None => c.bg,
                    },
                    modifier: match style.modifier {
                        Some(m) => m,
                        None => c.modifier,
                    },
                };
                self.cells.set(i, patched);
            }
            k = k + 1;
        }
    }
}

/// The cells of `dst` (width `w`) after a source grid of `sw x sh` cells is
/// laid over it with its top-left corner at `(ax, ay)`, clipped at the
/// edges.
pub open spec fn spec_blit_cells(
    dst: Seq<Cell>,
    w: int,
    sp: Seq<Cell>,
    sw: int,
    sh: int,
    ax: int,
    ay: int,
) -> Seq<Cell> {
    Seq::new(
        dst.len(),
        |p: int|
            {
                let x = p % w;
                let y = p / w;
                if ax <= x < ax + sw && ay <= y < ay + sh {
                    sp[(y - ay) * sw + (x - ax)]
                } else {
                    dst[p]
                }
            },
    )
}

impl Buffer {
    /// Lay the cells of `src` over this buffer with `src`'s top-left corner
    /// at `(ax, ay)`, clipping whatever falls outside.
    pub fn blit_from(&mut self, src: &Buffer, ax: u16, ay: u16)
        requires
            old(self).wf(),
            src.wf(),
        ensures
            final(self).wf(),
            final(self).width == old(self).width,
            final(self).height == old(self).height,
            final(self).cells@ == spec_blit_cells(
                old(self).cells@,
                old(self).width as int,
                src.cells@,
                src.width as int,
                src.height as int,
                ax as int,
                ay as int,
            ),
    {
        let w = self.width as usize;
        let n = self.cells.len();
        let ghost target = spec_blit_cells(
            old(self).cells@,
            old(self).width as int,
            src.cells@,
            src.width as int,
            src.height as int,
            ax as int,
            ay as int,
        );
        if n == 0 {
            proof {
                assert(self.cells@ =~= target);
            }
            return ;
        }
        assert(w > 0) by {
            assert((self.width as int) * (self.height as int) != 0);
            assert(self.width as int != 0) by (nonlinear_arith)
                requires
                    (self.width as int) * (self.height as int) != 0,
            ;
        }
        let mut p: usize = 0;
        while p < n
            invariant
                n == self.cells@.len(),
                n == old(self).cells@.len(),
                n == self.width * self.height,
                src.wf(),
                w == self.width,
                w > 0,
                p <= n,
                self.width == old(self).width,
                self.height == old(self).height,
                target == spec_blit_cells(
                    old(self).cells@,
                    old(self).width as int,
                    src.cells@,
                    src.width as int,
                    src.height as int,
                    ax as int,
                    ay as int,
                ),
                target.len() == n,
                forall|q: int| 0 <= q < p ==> self.cells@[q] == target[q],
                forall|q: int| p <= q < n ==> self.cells@[q] == old(self).cells@[q],
            decreases n - p,
        {
            proof {
                lemma_index_split(p as int, w as int, self.height as int);
            }
            let x = p % w;
            let y = p / w;
            let in_x = x >= ax as usize && x < (ax as usize) + (src.width as usize);
            let in_y = y >= ay as usize && y < (ay as usize) + (src.height as usize);
            if in_x && in_y {
                proof {
                    lemma_rowmajor_bound(
                        x as int - ax as int,
                        y as int - ay as int,
                        src.width as int,
                        src.height as int,
                    );
                }
                let si: usize = (y - (ay as usize)) * (src.width as usize) + (x - (ax as usize));
                let c = src.cells[si];
                self.cells.set(p, c);
            }
            proof {
                assert(self.cells@[p as int] == target[p as int]);
            }
            p = p + 1;
        }
        proof {
            assert(self.cells@ =~= target);
        }
    }
}

/// A vector of `n` copies of one cell.
fn filled(n: usize, cell: Cell) -> (v: Vec<Cell>)
    ensures
        v@.len() == n,
        forall|p: int| 0 <= p < n ==> v@[p] == cell,
{
    let mut v: Vec<Cell> = Vec::new();
    let mut i: usize = 0;
    while i < n
        invariant
            i <= n,
            v@.len() == i,
            forall|p: int| 0 <= p < i ==> v@[p] == cell,
        decreases n - i,
    {
        v.push(cell);
        i = i + 1;
    }
    v
}

/// Facts about the row/column split of a row-major index.
proof fn lemma_index_split(i: int, w: int, h: int)
    requires
        0 < w,
        0 <= h,
        0 <= i < w * h,
    ensures
        0 <= i % w < w,
        0 <= i / w < h,
        (i / w) * w + (i % w) == i,
{
    vstd::arithmetic::div_mod::lemma_fundamental_div_mod(i, w);
    vstd::arithmetic::div_mod::lemma_mod_bound(i, w);
    assert((i / w) * w + (i % w) == i) by (nonlinear_arith)
        requires
            i == w * (i / w) + (i % w),
    ;
    assert(0 <= i / w && i / w < h) by (nonlinear_arith)
        requires
            0 < w,
            0 <= i,
            i < w * h,
            i == w * (i / w) + (i % w),
            0 <= i % w < w,
    ;
}

/// What soundness of the diff says of one record: its position is in range
/// at or after `i`, the two frames differ there, and it carries the current
/// frame's cell.
pub open spec fn diff_rec_ok(
    prev: Seq<Cell>,
    cur: Seq<Cell>,
    w: int,
    h: int,
    i: int,
    rec: DiffRecord,
) -> bool {
    &&& rec.x < w
    &&& rec.y < h
    &&& i <= rec.pos(w) < cur.len()
    &&& prev[rec.pos(w)] != cur[rec.pos(w)]
    &&& rec.cell == cur[rec.pos(w)]
}

/// Soundness and ordering of the diff: every record points at a position at
/// or after `i` whose cells differ, carries the current frame's cell, and the
/// records are in strictly increasing row-major order (so each position
/// appears at most once).
pub proof fn lemma_diff_exact(prev: Seq<Cell>, cur: Seq<Cell>, w: int, h: int, i: int)
    requires
        prev.len() == cur.len(),
        cur.len() == w * h,
        0 < w <= 0xFFFF,
        0 <= h <= 0xFFFF,
        0 <= i,
    ensures
        forall|k: int|
            0 <= k < spec_diff(prev, cur, w, i).len() ==> diff_rec_ok(
                prev,
                cur,
                w,
                h,
                i,
                #[trigger] spec_diff(prev, cur, w, i)[k],
            ),
        forall|k1: int, k2: int|
            0 <= k1 < k2 < spec_diff(prev, cur, w, i).len() ==> spec_diff(prev, cur, w, i)[k1].pos(
                w,
            ) < spec_diff(prev, cur, w, i)[k2].pos(w),
    decreases cur.len() - i,
{
    if i >= cur.len() {
        // no records
    } else {
        lemma_diff_exact(prev, cur, w, h, i + 1);
        lemma_index_split(i, w, h);
        let rest = spec_diff(prev, cur, w, i + 1);
        if prev[i] != cur[i] {
            let head = DiffRecord { x: (i % w) as u16, y: (i / w) as u16, cell: cur[i] };
            assert(head.pos(w) == i);
            assert(spec_diff(prev, cur, w, i) == seq![head] + rest);
            assert forall|k: int| 0 <= k < spec_diff(prev, cur, w, i).len() implies diff_rec_ok(
                prev,
                cur,
                w,
                h,
                i,
                #[trigger] spec_diff(prev, cur, w, i)[k],
            ) by {
                if k == 0 {
                    assert(spec_diff(prev, cur, w, i)[0] == head);
                } else {
                    assert(spec_diff(prev, cur, w, i)[k] == rest[k - 1]);
                }
            }
        } else {
            assert(spec_diff(prev, cur, w, i) == rest);
        }
    }
}

/// Completeness of the diff: every position at or after `i` whose cells
/// differ is covered by some record.
pub proof fn lemma_diff_complete(prev: Seq<Cell>, cur: Seq<Cell>, w: int, h: int, i: int, j: int)
    requires
        prev.len() == cur.len(),
        cur.len() == w * h,
        0 < w <= 0xFFFF,
        0 <= h <= 0xFFFF,
        0 <= i <= j < cur.len(),
        prev[j] != cur[j],
    ensures
        exists|k: int|
            0 <= k < spec_diff(prev, cur, w, i).len() && spec_diff(prev, cur, w, i)[k].pos(w) == j,
    decreases j - i,
{
    lemma_index_split(i, w, h);
    let rest = spec_diff(prev, cur, w, i + 1);
    if i == j {
        let head = DiffRecord { x: (i % w) as u16, y: (i / w) as u16, cell: cur[i] };
        assert(spec_diff(prev, cur, w, i) == seq![head] + rest);
        assert(spec_diff(prev, cur, w, i)[0] == head);
        assert(head.pos(w) == j);
    } else {
        lemma_diff_complete(prev, cur, w, h, i + 1, j);
        let k0 = choose|k0: int| 0 <= k0 < rest.len() && rest[k0].pos(w) == j;
        if prev[i] != cur[i] {
            let head = DiffRecord { x: (i % w) as u16, y: (i / w) as u16, cell: cur[i] };
            assert(spec_diff(prev, cur, w, i) == seq![head] + rest);
            assert(spec_diff(prev, cur, w, i)[k0 + 1] == rest[k0]);
        } else {
            assert(spec_diff(prev, cur, w, i) == rest);
        }
    }
}

/// A frame diffed against itself yields no change records.
pub proof fn lemma_diff_identical_empty(s: Seq<Cell>, w: int, i: int)
    ensures
        spec_diff(s, s, w, i).len() == 0,
    decreases s.len() - i,
{
    if 0 <= i < s.len() {
        lemma_diff_identical_empty(s, w, i + 1);
    }
}

/// When every position at or after `i` differs, the diff covers them all.
pub proof fn lemma_diff_all_positions(prev: Seq<Cell>, cur: Seq<Cell>, w: int, i: int)
    requires
        prev.len() == cur.len(),
        0 <= i <= cur.len(),
        forall|j: int| i <= j < cur.len() ==> prev[j] != cur[j],
    ensures
        spec_diff(prev, cur, w, i).len() == cur.len() - i,
    decreases cur.len() - i,
{
    if i < cur.len() {
        lemma_diff_all_positions(prev, cur, w, i + 1);
    }
}

/// First-frame full emission: a previous frame holding only sentinel cells
/// differs from a sentinel-free current frame at every position, so the
/// first diff after initialization emits every cell.
pub proof fn lemma_first_frame_full_emission(prev: Seq<Cell>, cur: Seq<Cell>, w: int, h: int)
    requires
        prev.len() == cur.len(),
        cur.len() == w * h,
        forall|j: int| 0 <= j < prev.len() ==> prev[j].is_sentinel(),
        forall|j: int| 0 <= j < cur.len() ==> !cur[j].is_sentinel(),
    ensures
        spec_diff(prev, cur, w, 0).len() == cur.len(),
{
    assert forall|j: int| 0 <= j < cur.len() implies prev[j] != cur[j] by {
        assert(prev[j].symbol == SENTINEL_SYMBOL);
        assert(cur[j].symbol != SENTINEL_SYMBOL);
    }
    lemma_diff_all_positions(prev, cur, w, 0);
}

/// Row-major indices stay inside the cell vector, and grid sizes with
/// 16-bit dimensions fit comfortably in machine arithmetic.
#[verifier::nonlinear]
proof fn lemma_rowmajor_bound(x: int, y: int, w: int, h: int)
    requires
        0 <= x < w,
        0 <= y < h,
        w <= 0xFFFF,
        h <= 0xFFFF,
    ensures
        0 <= y * w + x < w * h,
        w * h <= 0xFFFF * 0xFFFF,
{
}

/// The product of two 16-bit dimensions stays below `2^32 - 1`.
#[verifier::nonlinear]
proof fn lemma_dims_fit(w: int, h: int)
    requires
        0 <= w <= 0xFFFF,
        0 <= h <= 0xFFFF,
    ensures
        0 <= w * h <= 0xFFFF * 0xFFFF,
{
}

} // verus!
