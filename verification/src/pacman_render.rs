//! The pacman game's presentation: a bordered scene of sprites, redrawn
//! from the model's grid whenever the simulation asks for it.  The border
//! carries a static title; asset-driven border animation is asset decoding,
//! which lies outside the engine core and stays with the host's asset
//! pipeline.

use crate::buffer::{spec_apply, spec_in_write_span, Buffer, Cell};
use crate::context::Context;
use crate::event::EventBus;
use crate::game::Render;
use crate::pacman_model::{PacmanModel, PACMANH, PACMANW, SEED_MARK};
use crate::panel::Panel;
use crate::sprite::{spec_first_tag, Sprite, Sprites};
use crate::style::{Color, Style};
use vstd::prelude::*;

verus! {

/// The rotating palette used for the seed and the body.
pub open spec fn spec_palette(i: u32) -> Color {
    let m = i % 14;
    if m == 0 {
        Color::Red
    } else if m == 1 {
        Color::Green
    } else if m == 2 {
        Color::Yellow
    } else if m == 3 {
        Color::Blue
    } else if m == 4 {
        Color::Magenta
    } else if m == 5 {
        Color::Cyan
    } else if m == 6 {
        Color::Gray
    } else if m == 7 {
        Color::DarkGray
    } else if m == 8 {
        Color::LightRed
    } else if m == 9 {
        Color::LightGreen
    } else if m == 10 {
        Color::LightBlue
    } else if m == 11 {
        Color::LightYellow
    } else if m == 12 {
        Color::LightMagenta
    } else {
        Color::LightCyan
    }
}

/// Pick the palette color for an index.
pub fn palette(i: u32) -> (r: Color)
    ensures
        r == spec_palette(i),
{
    let m = i % 14;
    if m == 0 {
        Color::Red
    } else if m == 1 {
        Color::Green
    } else if m == 2 {
        Color::Yellow
    } else if m == 3 {
        Color::Blue
    } else if m == 4 {
        Color::Magenta
    } else if m == 5 {
        Color::Cyan
    } else if m == 6 {
        Color::Gray
    } else if m == 7 {
        Color::DarkGray
    } else if m == 8 {
        Color::LightRed
    } else if m == 9 {
        Color::LightGreen
    } else if m == 10 {
        Color::LightBlue
    } else if m == 11 {
        Color::LightYellow
    } else if m == 12 {
        Color::LightMagenta
    } else {
        Color::LightCyan
    }
}

/// The cell one grid value paints: blank for an empty cell, a full block
/// for the head, a dot in a stage-rotated color for the seed, shade blocks
/// in an index-rotated color for the rest of the body.
pub open spec fn spec_cell_for(gv: i16, stage: u32) -> Cell {
    if gv == 0 {
        Cell { symbol: ' ', fg: Color::Reset, bg: Color::Reset, modifier: 0 }
    } else if gv == 1 {
        Cell { symbol: '\u{2587}', fg: Color::LightGreen, bg: Color::Reset, modifier: 0 }
    } else if gv == SEED_MARK {
        Cell { symbol: '\u{2219}', fg: spec_palette(stage / 5), bg: Color::Reset, modifier: 0 }
    } else {
        Cell {
            symbol: '\u{2592}',
            fg: spec_palette(if gv >= 0 {
                gv as u32
            } else {
                0
            }),
            bg: Color::Reset,
            modifier: 0,
        }
    }
}

fn cell_for(gv: i16, stage: u32) -> (c: Cell)
    ensures
        c == spec_cell_for(gv, stage),
{
    if gv == 0 {
        Cell { symbol: ' ', fg: Color::Reset, bg: Color::Reset, modifier: 0 }
    } else if gv == 1 {
        Cell { symbol: '\u{2587}', fg: Color::LightGreen, bg: Color::Reset, modifier: 0 }
    } else if gv == SEED_MARK {
        Cell { symbol: '\u{2219}', fg: palette(stage / 5), bg: Color::Reset, modifier: 0 }
    } else {
        let v: u32 = if gv >= 0 {
            gv as u32
        } else {
            0
        };
        Cell { symbol: '\u{2592}', fg: palette(v), bg: Color::Reset, modifier: 0 }
    }
}

/// Repaint a grid sprite's cells from the model's grid, one cell per grid
/// position.
fn fill_grid_sprite(content: &mut Buffer, grid: &Vec<i16>, stage: u32)
    requires
        old(content).wf(),
        old(content).width == PACMANW,
        old(content).height == PACMANH,
        grid@.len() == PACMANW * PACMANH,
    ensures
        final(content).wf(),
        final(content).width == old(content).width,
        final(content).height == old(content).height,
        forall|p: int|
            0 <= p < final(content).cells@.len() ==> final(content).cells@[p] == spec_cell_for(
                grid@[p],
                stage,
            ),
{
    let n: usize = PACMANW * PACMANH;
    let mut p: usize = 0;
    while p < n
        invariant
            n == PACMANW * PACMANH,
            p <= n,
            content.wf(),
            content.width == PACMANW,
            content.height == PACMANH,
            content.cells@.len() == n,
            grid@.len() == n,
            forall|q: int|
                0 <= q < p ==> content.cells@[q] == spec_cell_for(grid@[q], stage),
            forall|q: int| p <= q < n ==> content.cells@[q] == old(content).cells@[q],
        decreases n - p,
    {
        let x: usize = p % PACMANW;
        let y: usize = p / PACMANW;
        proof {
            vstd::arithmetic::div_mod::lemma_fundamental_div_mod(p as int, PACMANW as int);
            vstd::arithmetic::div_mod::lemma_mod_bound(p as int, PACMANW as int);
            crate::pacman_model::lemma_grid_index(x as int, y as int);
            assert(y < PACMANH) by (nonlinear_arith)
                requires
                    (p as int) < (PACMANW as int) * (PACMANH as int),
                    p as int == (PACMANW as int) * (y as int) + (x as int),
                    0 <= (x as int) < (PACMANW as int),
                    0 <= (y as int),
            ;
        }
        let c = cell_for(grid[p], stage);
        content.set(x as u16, y as u16, c);
        proof {
            assert((y as int) * (content.width as int) + (x as int) == p as int);
        }
        p = p + 1;
    }
}

/// The first grid-layer sprite of `post` holds the rendered grid: one
/// cell per grid position, painted by `spec_cell_for`; position and size
/// are kept.
pub open spec fn spec_grid_repainted(
    pre: Sprites,
    post: Sprites,
    grid: Seq<i16>,
    stage: u32,
) -> bool {
    forall|gi: int|
        spec_first_tag(pre.tags@, "PACMAN"@, gi) && pre.sprites@[gi].content.width == PACMANW
            && pre.sprites@[gi].content.height == PACMANH ==> {
            &&& post.sprites@[gi].x == pre.sprites@[gi].x
            &&& post.sprites@[gi].y == pre.sprites@[gi].y
            &&& post.sprites@[gi].content.width == pre.sprites@[gi].content.width
            &&& post.sprites@[gi].content.height == pre.sprites@[gi].content.height
            &&& post.sprites@[gi].content.cells@.len() == grid.len()
            &&& forall|p: int|
                0 <= p < grid.len() ==> post.sprites@[gi].content.cells@[p] == spec_cell_for(
                    grid[p],
                    stage,
                )
        }
}

/// The first message-line sprite of `post` holds `pacman` written at
/// column `col` of its top row under the style patch `st`, clipped at the
/// right edge; everything else of the line is kept.
pub open spec fn spec_msg_written(pre: Sprites, post: Sprites, col: int, st: Style) -> bool {
    forall|mi: int|
        spec_first_tag(pre.tags@, "PACMAN-MSG"@, mi) && pre.sprites@[mi].content.height > 0 ==> {
            let c0 = pre.sprites@[mi].content;
            let c1 = post.sprites@[mi].content;
            &&& post.sprites@[mi].x == pre.sprites@[mi].x
            &&& post.sprites@[mi].y == pre.sprites@[mi].y
            &&& c1.width == c0.width
            &&& c1.height == c0.height
            &&& forall|k: int|
                0 <= k < "pacman"@.len() && col + k < c0.width ==> c1.cells@[c0.spec_index(
                    col + k,
                    0,
                )] == spec_apply(c0.cells@[c0.spec_index(col + k, 0)], "pacman"@[k], st)
            &&& forall|p: int|
                0 <= p < c0.cells@.len() && !spec_in_write_span(
                    c0.width as int,
                    col,
                    0,
                    "pacman"@.len() as int,
                    p,
                ) ==> c1.cells@[p] == c0.cells@[p]
        }
}

/// The pacman presentation: the compositor and the named scene.
pub struct PacmanRender {
    pub panel: Panel,
    pub main_scene: Sprites,
}

impl PacmanRender {
    /// Build the scene — a titled border, the grid layer and a message
    /// line — and register this game's redraw event and test timer on the
    /// bus, arming the timer.
    pub fn new(bus: &mut EventBus) -> (r: PacmanRender)
        requires
            old(bus).wf(),
        ensures
            final(bus).wf(),
            r.panel.frames_drawn == 0,
            r.main_scene.wf(),
            r.main_scene.spec_has_tag("PACMAN-BORDER"@),
            r.main_scene.spec_has_tag("PACMAN"@),
            r.main_scene.spec_has_tag("PACMAN-MSG"@),
            r.main_scene.tags@.len() == 3,
            r.main_scene.sprites@.len() == 3,
            r.main_scene.tags@[0]@ == "PACMAN-BORDER"@,
            r.main_scene.tags@[1]@ == "PACMAN"@,
            r.main_scene.tags@[2]@ == "PACMAN-MSG"@,
            r.main_scene.sprites@[0].x == 0 && r.main_scene.sprites@[0].y == 0,
            r.main_scene.sprites@[0].content.width == PACMANW + 2,
            r.main_scene.sprites@[0].content.height == PACMANH + 2,
            r.main_scene.sprites@[1].x == 1 && r.main_scene.sprites@[1].y == 1,
            r.main_scene.sprites@[1].content.width == PACMANW,
            r.main_scene.sprites@[1].content.height == PACMANH,
            r.main_scene.sprites@[2].x == 0 && r.main_scene.sprites@[2].y == PACMANH + 3,
            r.main_scene.sprites@[2].content.width == PACMANW,
            r.main_scene.sprites@[2].content.height == 1,
            forall|k: int|
                0 <= k < "PACMAN [RustPixel]"@.len() && 18 + k < PACMANW + 2 ==> r.main_scene.sprites@[0].content.cells@[18
                    + k] == crate::buffer::spec_apply(
                    Cell::spec_blank(),
                    "PACMAN [RustPixel]"@[k],
                    (Style { fg: Some(Color::Indexed(222)), bg: None, modifier: None }),
                ),
            forall|p: int|
                0 <= p < r.main_scene.sprites@[1].content.cells@.len() ==> r.main_scene.sprites@[1].content.cells@[p]
                    == Cell::spec_blank(),
            crate::event::spec_evt_registered(
                final(bus).evts(),
                "Pacman.RedrawGrid"@,
                "draw_grid"@,
            ),
            !crate::event::spec_evt_registered(
                old(bus).evts(),
                "Pacman.RedrawGrid"@,
                "draw_grid"@,
            ) ==> final(bus).evts() == old(bus).evts().push(
                crate::event::EventSlot {
                    name: "Pacman.RedrawGrid"@,
                    tag: "draw_grid"@,
                    pending: false,
                },
            ),
            crate::event::spec_evt_registered(
                old(bus).evts(),
                "Pacman.RedrawGrid"@,
                "draw_grid"@,
            ) ==> final(bus).evts() == old(bus).evts(),
            crate::event::spec_timer_registered(final(bus).tms(), "Pacman.TestTimer"@),
            !crate::event::spec_timer_registered(old(bus).tms(), "Pacman.TestTimer"@) ==> {
                &&& final(bus).tms().len() == old(bus).tms().len() + 1
                &&& (forall|j: int|
                    0 <= j < old(bus).tms().len() ==> final(bus).tms()[j] == old(bus).tms()[j])
                &&& final(bus).tms().last() == (crate::event::TimerSlot {
                    name: "Pacman.TestTimer"@,
                    tag: "test_timer"@,
                    interval: 100,
                    remaining: 8,
                    elapsed: 0,
                })
            },
    {
        let t = Panel::new();
        let mut s = Sprites::new("main");
        let mut l = Sprite::new(0, 0, (PACMANW as u16) + 2, (PACMANH as u16) + 2);
        l.content.set_str(
            18,
            0,
            "PACMAN [RustPixel]",
            Style::default().fg(Color::Indexed(222)),
        );
        let ghost border = l;
        proof {
            assert forall|k: int|
                0 <= k < "PACMAN [RustPixel]"@.len() && 18 + k < PACMANW + 2 implies
                border.content.cells@[18 + k] == crate::buffer::spec_apply(
                Cell::spec_blank(),
                "PACMAN [RustPixel]"@[k],
                (Style { fg: Some(Color::Indexed(222)), bg: None, modifier: None }),
            ) by {
                assert(border.content.spec_index(18 + k, 0) == 18 + k);
            }
        }
        s.add_by_tag(l, "PACMAN-BORDER");
        s.add_by_tag(Sprite::new(1, 1, PACMANW as u16, PACMANH as u16), "PACMAN");
        s.add_by_tag(
            Sprite::new(0, (PACMANH as u16) + 3, PACMANW as u16, 1),
            "PACMAN-MSG",
        );
        proof {
            assert(s.sprites@.len() == 3);
            assert(s.sprites@[0] == border);
        }
        bus.event_register("Pacman.RedrawGrid", "draw_grid");
        let ghost tms0 = bus.tms();
        bus.timer_register("Pacman.TestTimer", 100, "test_timer");
        let ghost tms1 = bus.tms();
        proof {
            if !crate::event::spec_timer_registered(tms0, "Pacman.TestTimer"@) {
                assert(tms1 == tms0.push(
                    crate::event::TimerSlot {
                        name: "Pacman.TestTimer"@,
                        tag: "test_timer"@,
                        interval: 100,
                        remaining: 0,
                        elapsed: 0,
                    },
                ));
                assert(tms1[tms1.len() - 1].name == "Pacman.TestTimer"@);
            }
            assert(crate::event::spec_timer_registered(tms1, "Pacman.TestTimer"@));
        }
        bus.timer_fire("Pacman.TestTimer", 8);
        proof {
            let i = choose|i: int| 0 <= i < tms1.len() && tms1[i].name == "Pacman.TestTimer"@;
            assert(bus.tms()[i] == crate::event::spec_fire(tms1[i], "Pacman.TestTimer"@, 8));
            assert(bus.tms()[i].name == "Pacman.TestTimer"@);
            if !crate::event::spec_timer_registered(tms0, "Pacman.TestTimer"@) {
                assert forall|j: int| 0 <= j < tms0.len() implies bus.tms()[j] == tms0[j] by {
                    assert(tms1[j] == tms0[j]);
                    assert(tms0[j].name != "Pacman.TestTimer"@);
                    assert(bus.tms()[j] == crate::event::spec_fire(
                        tms1[j],
                        "Pacman.TestTimer"@,
                        8,
                    ));
                }
                let k = tms1.len() - 1;
                assert(bus.tms()[k] == crate::event::spec_fire(tms1[k], "Pacman.TestTimer"@, 8));
            }
        }
        PacmanRender { panel: t, main_scene: s }
    }

    /// Repaint the message line and the grid layer from the model's grid:
    /// `pacman` is written at the head of the message line, and the grid
    /// layer's cells mirror the grid value for value; sprites under other
    /// tags are untouched.
    pub fn draw_grid(&mut self, ctx: &Context, model: &PacmanModel)
        requires
            old(self).main_scene.wf(),
            model.wf(),
        ensures
            final(self).main_scene.wf(),
            final(self).main_scene.tags@ == old(self).main_scene.tags@,
            final(self).main_scene.sprites@.len() == old(self).main_scene.sprites@.len(),
            final(self).panel == old(self).panel,
            spec_msg_written(
                old(self).main_scene,
                final(self).main_scene,
                0,
                (Style { fg: None, bg: None, modifier: None }),
            ),
            spec_grid_repainted(
                old(self).main_scene,
                final(self).main_scene,
                model.grid@,
                ctx.stage,
            ),
            forall|k: int|
                0 <= k < old(self).main_scene.sprites@.len() && !spec_first_tag(
                    old(self).main_scene.tags@,
                    "PACMAN-MSG"@,
                    k,
                ) && !spec_first_tag(old(self).main_scene.tags@, "PACMAN"@, k) ==> final(self).main_scene.sprites@[k] == old(self).main_scene.sprites@[k],
    {
        proof {
            reveal_strlit("PACMAN");
            reveal_strlit("PACMAN-MSG");
            assert("PACMAN"@.len() == 6);
            assert("PACMAN-MSG"@.len() == 10);
            assert("PACMAN"@ != "PACMAN-MSG"@);
        }
        let ghost s0 = self.main_scene;
        let ghost st0 = (Style { fg: None, bg: None, modifier: None });
        match self.main_scene.index_of("PACMAN-MSG") {
            Some(mi) => {
                let mut msp = self.main_scene.take(mi);
                if msp.content.height > 0 {
                    msp.content.set_str(0, 0, "pacman", Style::default());
                }
                self.main_scene.put(mi, msp);
                proof {
                    assert forall|k: int|
                        0 <= k < s0.sprites@.len() && k != mi as int implies self.main_scene.sprites@[k]
                        == s0.sprites@[k] by {}
                    assert forall|m2: int| spec_first_tag(s0.tags@, "PACMAN-MSG"@, m2)
                        && s0.sprites@[m2].content.height > 0 implies m2 == mi as int by {
                        if m2 < mi as int {
                            assert(s0.tags@[m2]@ != "PACMAN-MSG"@);
                        } else if m2 > mi as int {
                            assert(s0.tags@[mi as int]@ != "PACMAN-MSG"@);
                        }
                    }
                    assert(spec_msg_written(s0, self.main_scene, 0, st0));
                    assert forall|k: int|
                        0 <= k < s0.sprites@.len() && s0.tags@[k]@ != "PACMAN-MSG"@ implies
                        self.main_scene.sprites@[k] == s0.sprites@[k] by {
                        assert(s0.tags@[mi as int]@ == "PACMAN-MSG"@);
                    }
                }
            },
            None => {
                proof {
                    assert(spec_msg_written(s0, self.main_scene, 0, st0));
                }
            },
        }
        let ghost s1 = self.main_scene;
        proof {
            assert(spec_msg_written(s0, s1, 0, st0));
            assert(forall|k: int|
                0 <= k < s0.sprites@.len() && s0.tags@[k]@ != "PACMAN-MSG"@ ==> s1.sprites@[k]
                    == s0.sprites@[k]);
        }
        match self.main_scene.index_of("PACMAN") {
            Some(gi) => {
                let mut sp = self.main_scene.take(gi);
                if sp.content.width as usize == PACMANW && sp.content.height as usize == PACMANH
                    && model.grid.len() == PACMANW * PACMANH {
                    fill_grid_sprite(&mut sp.content, &model.grid, ctx.stage);
                }
                self.main_scene.put(gi, sp);
                proof {
                    assert forall|k: int|
                        0 <= k < s1.sprites@.len() && k != gi as int implies self.main_scene.sprites@[k]
                        == s1.sprites@[k] by {}
                    assert forall|g2: int| spec_first_tag(s0.tags@, "PACMAN"@, g2) implies g2
                        == gi as int by {
                        if g2 < gi as int {
                            assert(s0.tags@[g2]@ != "PACMAN"@);
                        } else if g2 > gi as int {
                            assert(s0.tags@[gi as int]@ != "PACMAN"@);
                        }
                    }
                    assert(s0.tags@[gi as int]@ != "PACMAN-MSG"@);
                    assert(s1.sprites@[gi as int] == s0.sprites@[gi as int]);
                }
            },
            None => {},
        }
        proof {
            assert(spec_grid_repainted(s0, self.main_scene, model.grid@, ctx.stage));
            assert forall|m2: int|
                spec_first_tag(s0.tags@, "PACMAN-MSG"@, m2) && s0.sprites@[m2].content.height > 0
                implies self.main_scene.sprites@[m2] == s1.sprites@[m2] by {
                assert(s0.tags@[m2]@ != "PACMAN"@);
            }
            assert(spec_msg_written(s0, self.main_scene, 0, st0));
        }
    }
}

impl Render<PacmanModel> for PacmanRender {
    fn init(&mut self, ctx: &mut Context, m: &PacmanModel)
        ensures
            *final(ctx) == (Context { adapter: final(ctx).adapter, ..*old(ctx) }),
            *final(self) == *old(self),
            old(ctx).adapter.cross().base.state != crate::adapter::AdapterState::Uninitialized
                ==> final(ctx).adapter == old(ctx).adapter,
            old(ctx).adapter.cross().base.state == crate::adapter::AdapterState::Uninitialized
                && (PACMANW as u16) + 2 <= old(ctx).adapter.cross().term_width && (
            PACMANH as u16) + 4 <= old(ctx).adapter.cross().term_height ==> {
                &&& final(ctx).adapter.cross().base.state
                    == crate::adapter::AdapterState::Initialized
                &&& final(ctx).adapter.cross().base.cell_w == (PACMANW as u16) + 2
                &&& final(ctx).adapter.cross().base.cell_h == (PACMANH as u16) + 4
            },
            old(ctx).adapter.cross().base.state == crate::adapter::AdapterState::Uninitialized
                && !((PACMANW as u16) + 2 <= old(ctx).adapter.cross().term_width && (
            PACMANH as u16) + 4 <= old(ctx).adapter.cross().term_height) ==> final(ctx).adapter
                == old(ctx).adapter,
    {
        let state_ok = matches!(
            ctx.adapter.cross_state(),
            crate::adapter::AdapterState::Uninitialized
        );
        if state_ok {
            let _ = ctx.adapter.init(
                (PACMANW as u16) + 2,
                (PACMANH as u16) + 4,
                "pacman",
            );
        }
        self.panel.init(ctx);
    }

    fn handle_event(&mut self, ctx: &mut Context, m: &PacmanModel, dt: u32)
        ensures
            *final(ctx) == (Context { bus: final(ctx).bus, ..*old(ctx) }),
            final(ctx).bus.evts() == crate::event::spec_consume(
                old(ctx).bus.evts(),
                "Pacman.RedrawGrid"@,
                "draw_grid"@,
            ),
            final(ctx).bus.tms() == old(ctx).bus.tms(),
            final(self).panel == old(self).panel,
            !(crate::event::spec_evt_pending(
                old(ctx).bus.evts(),
                "Pacman.RedrawGrid"@,
                "draw_grid"@,
            ) && old(self).main_scene.wf() && m.wf()) ==> *final(self) == *old(self),
            crate::event::spec_evt_pending(
                old(ctx).bus.evts(),
                "Pacman.RedrawGrid"@,
                "draw_grid"@,
            ) && old(self).main_scene.wf() && m.wf() ==> {
                &&& final(self).main_scene.wf()
                &&& final(self).main_scene.tags@ == old(self).main_scene.tags@
                &&& spec_grid_repainted(
                    old(self).main_scene,
                    final(self).main_scene,
                    m.grid@,
                    old(ctx).stage,
                )
                &&& spec_msg_written(
                    old(self).main_scene,
                    final(self).main_scene,
                    0,
                    (Style { fg: None, bg: None, modifier: None }),
                )
            },
    {
        if ctx.bus.event_check("Pacman.RedrawGrid", "draw_grid") {
            if self.main_scene.check_wf() && m.check_wf() {
                self.draw_grid(ctx, m);
            }
        }
    }

    fn handle_timer(&mut self, ctx: &mut Context, m: &PacmanModel, dt: u32)
        ensures
            *final(ctx) == (Context { bus: final(ctx).bus, ..*old(ctx) }),
            final(ctx).bus.evts() == crate::event::spec_consume(
                old(ctx).bus.evts(),
                "Pacman.TestTimer"@,
                "test_timer"@,
            ),
            final(self).panel == old(self).panel,
            !crate::event::spec_evt_pending(
                old(ctx).bus.evts(),
                "Pacman.TestTimer"@,
                "test_timer"@,
            ) ==> *final(self) == *old(self) && final(ctx).bus.tms() == old(ctx).bus.tms(),
            crate::event::spec_evt_pending(
                old(ctx).bus.evts(),
                "Pacman.TestTimer"@,
                "test_timer"@,
            ) ==> {
                &&& final(ctx).bus.tms() == old(ctx).bus.tms().map(
                    |i: int, t: crate::event::TimerSlot| crate::event::spec_fire(
                        t,
                        "Pacman.TestTimer"@,
                        8,
                    ),
                )
                &&& (old(self).main_scene.wf() ==> final(self).main_scene.wf() && final(self).main_scene.tags@ == old(self).main_scene.tags@ && spec_msg_written(
                    old(self).main_scene,
                    final(self).main_scene,
                    ((old(ctx).stage / 6) % (PACMANW as u32)) as int,
                    (Style { fg: Some(Color::Yellow), bg: None, modifier: None }),
                ))
                &&& (!old(self).main_scene.wf() ==> *final(self) == *old(self))
            },
    {
        if ctx.bus.event_check("Pacman.TestTimer", "test_timer") {
            if self.main_scene.check_wf() {
                match self.main_scene.index_of("PACMAN-MSG") {
                    Some(mi) => {
                        let mut msp = self.main_scene.take(mi);
                        if msp.content.height > 0 {
                            let col: u16 = ((ctx.stage / 6) % (PACMANW as u32)) as u16;
                            msp.content.set_str(
                                col,
                                0,
                                "pacman",
                                Style::default().fg(Color::Yellow),
                            );
                        }
                        self.main_scene.put(mi, msp);
                    },
                    None => {},
                }
            }
            ctx.bus.timer_fire("Pacman.TestTimer", 8);
        }
    }

    fn draw(&mut self, ctx: &mut Context, m: &PacmanModel, dt: u32)
        ensures
            final(self).main_scene == old(self).main_scene,
            *final(ctx) == (Context { adapter: final(ctx).adapter, ..*old(ctx) }),
            !old(self).main_scene.wf() ==> *final(ctx) == *old(ctx),
            old(self).main_scene.wf() && !crate::panel::spec_backend_up(
                old(ctx).adapter.cross(),
            ) ==> final(ctx).adapter == old(ctx).adapter,
            old(self).main_scene.wf() && crate::panel::spec_backend_up(
                old(ctx).adapter.cross(),
            ) ==> {
                let a0 = old(ctx).adapter.cross();
                let a1 = final(ctx).adapter.cross();
                let composed = crate::panel::spec_compose(
                    a0.base.current.cells@,
                    a0.base.current.width as int,
                    old(self).main_scene.sprites@,
                    0,
                );
                &&& a1.base.state == crate::adapter::AdapterState::Running
                &&& a1.base.current.cells@ == composed
                &&& (old(ctx).stage > crate::LOGO_FRAME ==> a1.pending@ == a0.pending@
                    + crate::adapter::spec_render_cmds(
                    crate::buffer::spec_diff(
                        a0.base.previous.cells@,
                        composed,
                        a0.base.cell_w as int,
                        0,
                    ),
                    0,
                    Color::Reset,
                    Color::Reset,
                    0,
                    None::<(u16, u16)>,
                ) && a1.base.previous.cells@ == composed)
            },
    {
        if self.main_scene.check_wf() {
            let _ = self.panel.draw(ctx, &self.main_scene);
        }
    }
}

} // verus!
