//! The pacman game's simulation: a snake-like body chasing a seed on a
//! fixed grid, driven by key input and an autonomous move timer.

use crate::context::Context;
use crate::event::{Event, KeyCode};
use crate::game::Model;
use crate::util::{rand_in_range, Dir, Point};
use vstd::prelude::*;

verus! {

pub const PACMANW: usize = 60;

pub const PACMANH: usize = 36;

/// Values of the app-defined context state byte.
pub const PACMAN_STATE_NORMAL: u8 = 0;

pub const PACMAN_STATE_OVER_SELF: u8 = 1;

pub const PACMAN_STATE_OVER_BORDER: u8 = 2;

/// Grid marker of the seed cell.
pub const SEED_MARK: i16 = 10000;

/// Milliseconds between autonomous moves.
pub const AUTO_MOVE_MS: u32 = 400;

/// The opposite of a direction; moving there would reverse into the body.
pub open spec fn spec_opposite(d: Dir) -> Dir {
    match d {
        Dir::Up => Dir::Down,
        Dir::Down => Dir::Up,
        Dir::Left => Dir::Right,
        Dir::Right => Dir::Left,
    }
}

/// The grid value body segments paint: the one-based index of the last
/// segment written at `p` among the first `upto`, or zero.
pub open spec fn spec_body_val(body: Seq<Point>, upto: int, p: int) -> i16
    decreases upto,
{
    if upto <= 0 || upto > body.len() {
        0
    } else if PacmanModel::spec_idx(body[upto - 1]) == p {
        upto as i16
    } else {
        spec_body_val(body, upto - 1, p)
    }
}

/// The grid cell value at `p` for a given body and seed: the seed marker
/// wins, body segments hold their index, all else is zero.
pub open spec fn spec_grid_of(body: Seq<Point>, seed: Point, p: int) -> i16 {
    if p == PacmanModel::spec_idx(seed) {
        SEED_MARK
    } else {
        spec_body_val(body, body.len() as int, p)
    }
}

/// What one movement step in direction `d` guarantees, relating the model
/// and the context before and after the step.  A reversal changes nothing.
/// Otherwise the head advances one cell: off the grid reports a border hit,
/// onto the body a self hit (model untouched in both); onto the seed the
/// body grows and the seed moves to a cell that was free (kept in place
/// when none was drawn); onto a free cell the body moves.  Every
/// non-reversal outcome marks the grid-redraw event pending; nothing of
/// the context but the state byte and the bus changes, and the clock and
/// every other model field follow the case.
pub open spec fn spec_act_post(
    pre: PacmanModel,
    post: PacmanModel,
    pre_ctx: Context,
    post_ctx: Context,
    d: Dir,
) -> bool {
    &&& post.wf()
    &&& post_ctx.wf()
    &&& post.body@.len() >= 1
    &&& post.timeout_auto == pre.timeout_auto
    &&& post_ctx == (Context { state: post_ctx.state, bus: post_ctx.bus, ..pre_ctx })
    &&& if d == spec_opposite(pre.dir) {
        post == pre && post_ctx == pre_ctx
    } else {
        let hx = pre.body@[0].x + spec_dx(d);
        let hy = pre.body@[0].y + spec_dy(d);
        &&& post_ctx.bus.tms() == pre_ctx.bus.tms()
        &&& post_ctx.bus.evts() == crate::event::spec_emit(
            pre_ctx.bus.evts(),
            "Pacman.RedrawGrid"@,
        )
        &&& if !(0 <= hx < PACMANW && 0 <= hy < PACMANH) {
            post == pre && post_ctx.state == PACMAN_STATE_OVER_BORDER
        } else {
            let head = Point { x: hx as u16, y: hy as u16 };
            let hi = PacmanModel::spec_idx(head);
            &&& (pre.grid@[hi] == SEED_MARK ==> {
                &&& post.body@ == seq![head] + pre.body@
                &&& post.dir == d
                &&& post.grid_ok()
                &&& (post.seed == pre.seed || pre.grid@[PacmanModel::spec_idx(post.seed)] == 0)
                &&& post_ctx.state == pre_ctx.state
            })
            &&& ((pre.grid@[hi] != SEED_MARK && pre.grid@[hi] != 0) ==> post == pre
                && post_ctx.state == PACMAN_STATE_OVER_SELF)
            &&& (pre.grid@[hi] == 0 ==> {
                &&& post.body@ == seq![head] + pre.body@.drop_last()
                &&& post.dir == d
                &&& post.grid_ok()
                &&& post.seed == pre.seed
                &&& post_ctx.state == pre_ctx.state
            })
        }
    }
}

/// Whether the model is fit to take a movement step.
pub open spec fn spec_fit(m: PacmanModel) -> bool {
    m.wf() && 1 <= m.body@.len() < 0x7FFE
}

/// One step of the input fold: a fit model takes the movement step, an
/// unfit one is left alone.
pub open spec fn spec_step_rel(
    m0: PacmanModel,
    c0: Context,
    m1: PacmanModel,
    c1: Context,
    d: Dir,
) -> bool {
    if spec_fit(m0) {
        spec_act_post(m0, m1, c0, c1, d)
    } else {
        m1 == m0 && c1 == c0
    }
}

/// The model and context after the first `j` of the parsed movement steps
/// have run in order.
pub open spec fn spec_acts_upto(
    m0: PacmanModel,
    c0: Context,
    m1: PacmanModel,
    c1: Context,
    dirs: Seq<Dir>,
    j: int,
) -> bool
    decreases j,
{
    if j <= 0 {
        m1 == m0 && c1 == c0
    } else {
        exists|mm: PacmanModel, cc: Context|
            spec_acts_upto(m0, c0, mm, cc, dirs, j - 1) && #[trigger] spec_step_rel(
                mm,
                cc,
                m1,
                c1,
                dirs[j - 1],
            )
    }
}

/// The movement directions an input queue drives, in order: the w/a/s/d
/// keys map to Up/Left/Down/Right, every other event drives none.
pub open spec fn spec_parse_dirs(es: Seq<Event>) -> Seq<Dir>
    decreases es.len(),
{
    if es.len() == 0 {
        Seq::empty()
    } else {
        let head: Seq<Dir> = match es[0] {
            Event::Key(k) => match k.code {
                KeyCode::Char(c) => if c == 'w' {
                    seq![Dir::Up]
                } else if c == 'a' {
                    seq![Dir::Left]
                } else if c == 's' {
                    seq![Dir::Down]
                } else if c == 'd' {
                    seq![Dir::Right]
                } else {
                    Seq::empty()
                },
            },
            _ => Seq::empty(),
        };
        head + spec_parse_dirs(es.drop_first())
    }
}

/// The simulation state: the grid cache, the seed, the body (head first),
/// the current direction, and the autonomous-move clock.
pub struct PacmanModel {
    pub grid: Vec<i16>,
    pub seed: Point,
    pub body: Vec<Point>,
    pub dir: Dir,
    pub timeout_auto: u32,
}

impl PacmanModel {
    /// Row-major grid index of a point.
    pub open spec fn spec_idx(p: Point) -> int {
        p.y * PACMANW + p.x
    }

    pub open spec fn spec_in_bounds(p: Point) -> bool {
        p.x < PACMANW && p.y < PACMANH
    }

    /// The model invariant: the grid has one cell per position, the seed
    /// and every body segment are on the grid, and the body is short
    /// enough for its indices to fit the grid's cell type.
    pub open spec fn wf(self) -> bool {
        &&& self.grid@.len() == PACMANW * PACMANH
        &&& Self::spec_in_bounds(self.seed)
        &&& forall|k: int| 0 <= k < self.body@.len() ==> Self::spec_in_bounds(#[trigger] self.body@[k])
        &&& self.body@.len() <= 0x7FFE
    }

    /// Whether the grid cache matches the body and seed.
    pub open spec fn grid_ok(self) -> bool {
        forall|p: int|
            0 <= p < self.grid@.len() ==> self.grid@[p] == spec_grid_of(
                self.body@,
                self.seed,
                p,
            )
    }

    pub fn new() -> (r: PacmanModel)
        ensures
            r.wf(),
            r.body@.len() == 0,
            r.dir == Dir::Down,
            r.timeout_auto == 0,
            forall|p: int| 0 <= p < r.grid@.len() ==> r.grid@[p] == 0,
    {
        PacmanModel {
            grid: zero_grid(),
            seed: Point { x: 0, y: 0 },
            body: Vec::new(),
            dir: Dir::Down,
            timeout_auto: 0,
        }
    }

    /// Runtime check of the model invariant, complete in both directions,
    /// so that hooks whose interface promises nothing of the model can
    /// still reach the verified drawing logic.
    pub fn check_wf(&self) -> (r: bool)
        ensures
            r == self.wf(),
    {
        if self.grid.len() != PACMANW * PACMANH {
            return false;
        }
        if !(self.seed.x < PACMANW as u16 && self.seed.y < PACMANH as u16) {
            return false;
        }
        let n = self.body.len();
        if n > 0x7FFE {
            return false;
        }
        let mut k: usize = 0;
        while k < n
            invariant
                n == self.body@.len(),
                self.grid@.len() == PACMANW * PACMANH,
                Self::spec_in_bounds(self.seed),
                n <= 0x7FFE,
                k <= n,
                forall|j: int| 0 <= j < k ==> Self::spec_in_bounds(#[trigger] self.body@[j]),
            decreases n - k,
        {
            let p = self.body[k];
            if !(p.x < PACMANW as u16 && p.y < PACMANH as u16) {
                proof {
                    assert(!Self::spec_in_bounds(self.body@[k as int]));
                }
                return false;
            }
            k = k + 1;
        }
        true
    }

    /// Runtime check that the model is fit to take a movement step,
    /// complete in both directions.
    pub fn ready(&self) -> (r: bool)
        ensures
            r == spec_fit(*self),
    {
        let n = self.body.len();
        if n < 1 || n >= 0x7FFE {
            return false;
        }
        self.check_wf()
    }

    /// Rebuild the grid cache from the body and the seed.
    pub fn make_grid(&mut self)
        requires
            old(self).wf(),
        ensures
            final(self).wf(),
            final(self).seed == old(self).seed,
            final(self).body == old(self).body,
            final(self).dir == old(self).dir,
            final(self).timeout_auto == old(self).timeout_auto,
            final(self).grid_ok(),
    {
        self.grid = zero_grid();
        let n = self.body.len();
        let mut k: usize = 0;
        while k < n
            invariant
                n == self.body@.len(),
                k <= n,
                self.wf(),
                self.seed == old(self).seed,
                self.body == old(self).body,
                self.dir == old(self).dir,
                self.timeout_auto == old(self).timeout_auto,
                self.grid@.len() == PACMANW * PACMANH,
                forall|p: int|
                    0 <= p < self.grid@.len() ==> self.grid@[p] == spec_body_val(
                        self.body@,
                        k as int,
                        p,
                    ),
            decreases n - k,
        {
            let pt = self.body[k];
            let i: usize = (pt.y as usize) * PACMANW + (pt.x as usize);
            proof {
                assert(Self::spec_in_bounds(self.body@[k as int]));
                crate::pacman_model::lemma_grid_index(pt.x as int, pt.y as int);
            }
            self.grid.set(i, (k + 1) as i16);
            proof {
                assert forall|p: int| 0 <= p < self.grid@.len() implies self.grid@[p]
                    == spec_body_val(self.body@, k as int + 1, p) by {
                    assert(spec_body_val(self.body@, k as int + 1, p) == if Self::spec_idx(
                        self.body@[k as int],
                    ) == p {
                        (k + 1) as i16
                    } else {
                        spec_body_val(self.body@, k as int, p)
                    });
                }
            }
            k = k + 1;
        }
        let si: usize = (self.seed.y as usize) * PACMANW + (self.seed.x as usize);
        proof {
            crate::pacman_model::lemma_grid_index(self.seed.x as int, self.seed.y as int);
        }
        self.grid.set(si, SEED_MARK);
    }

    /// One movement step in direction `d`.  Reversing into the body is
    /// ignored.  Otherwise the head advances one cell: off the grid, the
    /// context state reports a border hit and the model is unchanged; onto
    /// the body, a self hit and the model is unchanged; onto the seed, the
    /// body grows and the seed moves to a randomly drawn free cell (kept in
    /// place when none was found); onto a free cell, the body moves.  Every
    /// outcome but the ignored reversal asks the Render for a grid redraw.
    #[verifier::rlimit(100)]
    pub fn act(&mut self, d: Dir, context: &mut Context)
        requires
            old(self).wf(),
            old(context).wf(),
            1 <= old(self).body@.len() < 0x7FFE,
        ensures
            final(self).wf(),
            final(context).wf(),
            1 <= final(self).body@.len(),
            spec_act_post(*old(self), *final(self), *old(context), *final(context), d),
    {
        let dx: i32;
        let dy: i32;
        match d {
            Dir::Up => {
                if matches!(self.dir, Dir::Down) {
                    return ;
                }
                dx = 0;
                dy = -1;
            },
            Dir::Down => {
                if matches!(self.dir, Dir::Up) {
                    return ;
                }
                dx = 0;
                dy = 1;
            },
            Dir::Left => {
                if matches!(self.dir, Dir::Right) {
                    return ;
                }
                dx = -1;
                dy = 0;
            },
            Dir::Right => {
                if matches!(self.dir, Dir::Left) {
                    return ;
                }
                dx = 1;
                dy = 0;
            },
        }
        let head0 = self.body[0];
        let cx: i32 = head0.x as i32 + dx;
        let cy: i32 = head0.y as i32 + dy;
        if cx >= PACMANW as i32 || cy >= PACMANH as i32 || cx < 0 || cy < 0 {
            context.state = PACMAN_STATE_OVER_BORDER;
            context.bus.event_emit("Pacman.RedrawGrid");
            return ;
        }
        let head = Point { x: cx as u16, y: cy as u16 };
        let hi: usize = (head.y as usize) * PACMANW + (head.x as usize);
        proof {
            lemma_grid_index(head.x as int, head.y as int);
        }
        let hv = self.grid[hi];
        if hv == SEED_MARK {
            let mut found = false;
            let mut fx: u16 = 0;
            let mut fy: u16 = 0;
            let mut tries2: u32 = 0;
            while tries2 < 888 && !found
                invariant
                    self == old(self),
                    old(self).wf(),
                    found ==> fx < PACMANW && fy < PACMANH && old(self).grid@[(
                        fy as int) * PACMANW + fx as int] == 0,
                    !found ==> fx == 0 && fy == 0,
                decreases 888 - tries2,
            {
                let nx = rand_in_range(PACMANW as u32) as u16;
                let ny = rand_in_range(PACMANH as u32) as u16;
                let ni: usize = (ny as usize) * PACMANW + (nx as usize);
                proof {
                    lemma_grid_index(nx as int, ny as int);
                }
                if self.grid[ni] == 0 {
                    found = true;
                    fx = nx;
                    fy = ny;
                }
                tries2 = tries2 + 1;
            }
            if found {
                self.seed = Point { x: fx, y: fy };
            }
            self.body.insert(0, head);
            proof {
                assert(self.body@ =~= seq![head] + old(self).body@);
            }
            self.dir = d;
            self.make_grid();
            context.bus.event_emit("Pacman.RedrawGrid");
        } else if hv != 0 {
            context.state = PACMAN_STATE_OVER_SELF;
            context.bus.event_emit("Pacman.RedrawGrid");
        } else {
            self.body.pop();
            self.body.insert(0, head);
            proof {
                assert(self.body@ =~= seq![head] + old(self).body@.drop_last());
            }
            self.dir = d;
            self.make_grid();
            context.bus.event_emit("Pacman.RedrawGrid");
        }
    }
}

/// Horizontal step of a direction.
pub open spec fn spec_dx(d: Dir) -> int {
    match d {
        Dir::Left => -1,
        Dir::Right => 1,
        _ => 0,
    }
}

/// Vertical step of a direction.
pub open spec fn spec_dy(d: Dir) -> int {
    match d {
        Dir::Up => -1,
        Dir::Down => 1,
        _ => 0,
    }
}

/// A grid of zeros, one cell per position.
fn zero_grid() -> (v: Vec<i16>)
    ensures
        v@.len() == PACMANW * PACMANH,
        forall|p: int| 0 <= p < v@.len() ==> v@[p] == 0,
{
    let n: usize = PACMANW * PACMANH;
    let mut v: Vec<i16> = Vec::new();
    let mut i: usize = 0;
    while i < n
        invariant
            i <= n,
            v@.len() == i,
            forall|p: int| 0 <= p < i ==> v@[p] == 0,
        decreases n - i,
    {
        v.push(0);
        i = i + 1;
    }
    v
}

/// In-bounds coordinates index inside the grid vector.
#[verifier::nonlinear]
pub proof fn lemma_grid_index(x: int, y: int)
    requires
        0 <= x < PACMANW,
        0 <= y < PACMANH,
    ensures
        0 <= y * PACMANW + x < PACMANW * PACMANH,
{
}


impl Model for PacmanModel {
    fn init(&mut self, ctx: &mut Context)
        ensures
            final(self).wf(),
            final(self).grid_ok(),
            final(self).body@.len() == 1,
            final(self).body@[0] == (Point {
                x: (PACMANW as u16) / 2,
                y: (PACMANH as u16) / 2,
            }),
            final(self).dir == Dir::Down,
            final(ctx).input_events@.len() == 0,
            final(ctx).state == PACMAN_STATE_NORMAL,
            final(ctx).bus.evts() == crate::event::spec_emit(
                old(ctx).bus.evts(),
                "Pacman.RedrawGrid"@,
            ),
            final(ctx).bus.tms() == old(ctx).bus.tms(),
    {
        self.grid = zero_grid();
        self.body.clear();
        self.body.push(Point { x: (PACMANW as u16) / 2, y: (PACMANH as u16) / 2 });
        let sx = rand_in_range(PACMANW as u32) as u16;
        let sy = rand_in_range(PACMANH as u32) as u16;
        self.seed = Point { x: sx, y: sy };
        self.make_grid();
        self.dir = Dir::Down;
        ctx.input_events.clear();
        ctx.state = PACMAN_STATE_NORMAL;
        ctx.bus.event_emit("Pacman.RedrawGrid");
    }

    fn handle_input(&mut self, ctx: &mut Context, dt: u32)
        ensures
            final(ctx).input_events@.len() == 0,
            exists|c_end: Context|
                #![trigger spec_acts_upto(
                    *old(self),
                    *old(ctx),
                    *final(self),
                    c_end,
                    spec_parse_dirs(old(ctx).input_events@),
                    spec_parse_dirs(old(ctx).input_events@).len() as int,
                )]
                spec_acts_upto(
                    *old(self),
                    *old(ctx),
                    *final(self),
                    c_end,
                    spec_parse_dirs(old(ctx).input_events@),
                    spec_parse_dirs(old(ctx).input_events@).len() as int,
                ) && *final(ctx) == (Context { input_events: final(ctx).input_events, ..c_end }),
    {
        let n = ctx.input_events.len();
        let ghost es = ctx.input_events@;
        let mut dirs: Vec<Dir> = Vec::new();
        proof {
            assert(es.skip(0) =~= es);
            assert(dirs@ + spec_parse_dirs(es) =~= spec_parse_dirs(es));
        }
        let mut i: usize = 0;
        while i < n
            invariant
                i <= n,
                n == es.len(),
                ctx.input_events@ == es,
                ctx.wf(),
                spec_parse_dirs(es) == dirs@ + spec_parse_dirs(es.skip(i as int)),
            decreases n - i,
        {
            let ghost d0 = dirs@;
            proof {
                assert(es.skip(i as int)[0] == es[i as int]);
                assert(es.skip(i as int).drop_first() =~= es.skip(i as int + 1));
            }
            match &ctx.input_events[i] {
                Event::Key(key) => {
                    match key.code {
                        KeyCode::Char(c) => {
                            if c == 'w' {
                                dirs.push(Dir::Up);
                            } else if c == 'a' {
                                dirs.push(Dir::Left);
                            } else if c == 's' {
                                dirs.push(Dir::Down);
                            } else if c == 'd' {
                                dirs.push(Dir::Right);
                            }
                        },
                    }
                },
                _ => {},
            }
            proof {
                assert(dirs@ + spec_parse_dirs(es.skip(i as int + 1)) =~= d0 + spec_parse_dirs(
                    es.skip(i as int),
                ));
            }
            i = i + 1;
        }
        proof {
            assert(es.skip(n as int) =~= Seq::<Event>::empty());
            assert(spec_parse_dirs(es) =~= dirs@);
        }
        let m = dirs.len();
        let mut j: usize = 0;
        while j < m
            invariant
                j <= m,
                m == dirs@.len(),
                dirs@ == spec_parse_dirs(es),
                ctx.wf(),
                ctx.stage == old(ctx).stage,
                ctx.game_name == old(ctx).game_name,
                ctx.input_events@ == es,
                spec_acts_upto(*old(self), *old(ctx), *self, *ctx, dirs@, j as int),
            decreases m - j,
        {
            let ghost pm = *self;
            let ghost pc = *ctx;
            let fit = self.ready();
            if fit {
                let d = dirs[j];
                self.act(d, ctx);
            }
            proof {
                assert(spec_acts_upto(*old(self), *old(ctx), *self, *ctx, dirs@, j as int + 1))
                    by {
                    let jj = j as int + 1;
                    assert(spec_acts_upto(*old(self), *old(ctx), pm, pc, dirs@, jj - 1));
                    assert(spec_step_rel(pm, pc, *self, *ctx, dirs@[jj - 1]));
                }
            }
            j = j + 1;
        }
        let ghost c_end = *ctx;
        ctx.input_events.clear();
        proof {
            assert(*ctx == (Context { input_events: ctx.input_events, ..c_end }));
        }
    }

    fn handle_auto(&mut self, ctx: &mut Context, dt: u32)
        ensures
            old(self).timeout_auto > AUTO_MOVE_MS ==> {
                let armed = (PacmanModel { timeout_auto: 0, ..*old(self) });
                &&& (spec_fit(armed) ==> spec_act_post(
                    armed,
                    *final(self),
                    *old(ctx),
                    *final(ctx),
                    old(self).dir,
                ))
                &&& (!spec_fit(armed) ==> *final(self) == armed && *final(ctx) == *old(ctx))
            },
            old(self).timeout_auto <= AUTO_MOVE_MS ==> {
                &&& *final(ctx) == *old(ctx)
                &&& *final(self) == (PacmanModel {
                    timeout_auto: final(self).timeout_auto,
                    ..*old(self)
                })
                &&& (old(self).timeout_auto + dt <= 0xFFFFFFFF ==> final(self).timeout_auto
                    == old(self).timeout_auto + dt)
                &&& (old(self).timeout_auto + dt > 0xFFFFFFFF ==> final(self).timeout_auto
                    == 0xFFFFFFFF)
            },
    {
        if self.timeout_auto > AUTO_MOVE_MS {
            self.timeout_auto = 0;
            if self.ready() {
                let d = self.dir;
                self.act(d, ctx);
            }
        } else {
            let t = self.timeout_auto;
            if dt > 0xFFFFFFFFu32 - t {
                self.timeout_auto = 0xFFFFFFFF;
            } else {
                self.timeout_auto = t + dt;
            }
        }
    }

    fn handle_event(&mut self, ctx: &mut Context, dt: u32) {
    }

    fn handle_timer(&mut self, ctx: &mut Context, dt: u32) {
    }
}

} // verus!\n