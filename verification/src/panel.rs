//! The frame compositor: it lays a scene's sprites onto the adapter's
//! current frame in insertion order and has the adapter render the result.

use crate::adapter::{spec_logo_cmds, spec_render_cmds, Adapter, AdapterBase, AdapterState, CrosstermAdapter};
use crate::buffer::{spec_blit_cells, spec_diff, Cell};
use crate::context::Context;
use crate::sprite::{Sprite, Sprites};
use crate::style::Color;
use crate::LOGO_FRAME;
use vstd::prelude::*;

verus! {

/// The frame cells after the sprites `sps[i..]` are laid over a `w`-wide
/// grid in order (later sprites paint over earlier ones).
pub open spec fn spec_compose(cells: Seq<Cell>, w: int, sps: Seq<Sprite>, i: int) -> Seq<Cell>
    decreases sps.len() - i,
{
    if i < 0 || i >= sps.len() {
        cells
    } else {
        spec_compose(
            spec_blit_cells(
                cells,
                w,
                sps[i].content.cells@,
                sps[i].content.width as int,
                sps[i].content.height as int,
                sps[i].x as int,
                sps[i].y as int,
            ),
            w,
            sps,
            i + 1,
        )
    }
}

/// Whether the backend is up: initialized or running, with a real grid.
pub open spec fn spec_backend_up(a: crate::adapter::CrosstermAdapter) -> bool {
    (a.base.state == AdapterState::Initialized || a.base.state == AdapterState::Running)
        && a.base.cell_w > 0 && a.base.cell_h > 0
}

/// The compositor; it keeps no drawing state of its own, the frame pair
/// lives in the adapter.
pub struct Panel {
    pub frames_drawn: u32,
}

impl Panel {
    pub fn new() -> (r: Panel)
        ensures
            r.frames_drawn == 0,
    {
        Panel { frames_drawn: 0 }
    }

    /// One-time setup hook; the backend itself is brought up by
    /// `Adapter::init`.
    pub fn init(&mut self, ctx: &mut Context)
        requires
            old(ctx).wf(),
        ensures
            final(ctx).wf(),
            *final(self) == *old(self),
            *final(ctx) == *old(ctx),
    {
    }

    /// Compose the scene onto the adapter's current frame — each sprite
    /// laid over in insertion order — and render the result: the exact
    /// command stream for the frame is queued and the current frame is
    /// retired into the previous one.  Drawing is skipped while the
    /// backend is not up (before a successful `init`, or after `reset`),
    /// and nothing of the context but the adapter changes.
    pub fn draw(&mut self, ctx: &mut Context, scene: &Sprites) -> (r: Result<(), String>)
        requires
            old(ctx).wf(),
            scene.wf(),
        ensures
            r is Ok,
            final(ctx).wf(),
            *final(ctx) == (Context { adapter: final(ctx).adapter, ..*old(ctx) }),
            !spec_backend_up(old(ctx).adapter.cross()) ==> final(ctx).adapter == old(ctx).adapter,
            spec_backend_up(old(ctx).adapter.cross()) ==> {
                let a0 = old(ctx).adapter.cross();
                let a1 = final(ctx).adapter.cross();
                let composed = spec_compose(
                    a0.base.current.cells@,
                    a0.base.current.width as int,
                    scene.sprites@,
                    0,
                );
                &&& a1.base.state == AdapterState::Running
                &&& a1.base.cell_w == a0.base.cell_w
                &&& a1.base.cell_h == a0.base.cell_h
                &&& a1.base.current.width == a0.base.current.width
                &&& a1.base.current.height == a0.base.current.height
                &&& a1.base.current.cells@ == composed
                &&& (old(ctx).stage <= LOGO_FRAME ==> a1.pending@ == a0.pending@ + spec_logo_cmds(
                    a0.rd.seed,
                    a0.base.cell_w,
                    a0.base.cell_h,
                    old(ctx).stage,
                ) && a1.base.previous == a0.base.previous)
                &&& (old(ctx).stage > LOGO_FRAME ==> a1.pending@ == a0.pending@ + spec_render_cmds(
                    spec_diff(a0.base.previous.cells@, composed, a0.base.cell_w as int, 0),
                    0,
                    Color::Reset,
                    Color::Reset,
                    0,
                    None::<(u16, u16)>,
                ) && a1.base.previous.cells@ == composed && a1.rd == a0.rd)
            },
    {
        let stage = ctx.stage;
        match &mut ctx.adapter {
            Adapter::Cross(a) => {
                let ghost a0 = *a;
                let up = (matches!(a.base.state, AdapterState::Initialized) || matches!(
                    a.base.state,
                    AdapterState::Running,
                )) && a.base.cell_w > 0 && a.base.cell_h > 0;
                if up {
                    let ghost composed = spec_compose(
                        a0.base.current.cells@,
                        a0.base.current.width as int,
                        scene.sprites@,
                        0,
                    );
                    let n = scene.sprites.len();
                    let mut i: usize = 0;
                    while i < n
                        invariant
                            n == scene.sprites@.len(),
                            i <= n,
                            scene.wf(),
                            a.wf(),
                            *a == (CrosstermAdapter {
                                base: (AdapterBase {
                                    current: a.base.current,
                                    ..a0.base
                                }),
                                ..a0
                            }),
                            a.base.current.width == a0.base.current.width,
                            a.base.current.height == a0.base.current.height,
                            composed == spec_compose(
                                a0.base.current.cells@,
                                a0.base.current.width as int,
                                scene.sprites@,
                                0,
                            ),
                            spec_compose(
                                a.base.current.cells@,
                                a0.base.current.width as int,
                                scene.sprites@,
                                i as int,
                            ) == composed,
                        decreases n - i,
                    {
                        a.blit_sprite(&scene.sprites[i]);
                        i = i + 1;
                    }
                    proof {
                        assert(a.base.current.cells@ == composed);
                    }
                    let _ = a.render_buffer(stage);
                }
                if self.frames_drawn < 0xFFFFFFFF {
                    self.frames_drawn = self.frames_drawn + 1;
                }
                Ok(())
            },
        }
    }

    /// Tear the backend down; safe to call repeatedly.
    pub fn reset(&mut self, ctx: &mut Context)
        requires
            old(ctx).wf(),
        ensures
            final(ctx).wf(),
            final(ctx).adapter.cross().base.state == AdapterState::Reset,
    {
        ctx.adapter.reset();
    }
}

} // verus!
