//! The game driver: the Model and Render interfaces and the `Game` value
//! that sequences them — one `Model::update` then one `Render::update` per
//! tick, after the frame counter advances.

use crate::context::Context;
use crate::event::MAX_TICK_MS;
use crate::LOGO_FRAME;
use vstd::prelude::*;

verus! {

/// Milliseconds per tick of the fixed-timestep loop, rounded up so the
/// loop never runs faster than the frame rate.
pub const TICK_MS: u32 = (1000 + crate::GAME_FRAME - 1) / crate::GAME_FRAME;

/// The Model interface: the simulation owns its state and exposes lifecycle
/// hooks invoked once per frame.
pub trait Model: Sized {
    /// One-time setup, before the loop starts.  The frame counter and the
    /// game's name belong to the driver: no hook may change them.
    fn init(&mut self, ctx: &mut Context)
        requires
            old(ctx).wf(),
        ensures
            final(ctx).wf(),
            final(ctx).stage == old(ctx).stage,
            final(ctx).game_name == old(ctx).game_name,
    ;

    /// Per-frame dispatch.  During the splash phase (frame counter at or
    /// below `LOGO_FRAME`) no game logic runs and nothing changes;
    /// afterwards the fixed order is: timer advance, then event handling,
    /// then input handling, then autonomous advance.
    fn update(&mut self, ctx: &mut Context, dt: u32)
        requires
            old(ctx).wf(),
            dt <= MAX_TICK_MS,
        ensures
            final(ctx).wf(),
            final(ctx).stage == old(ctx).stage,
            final(ctx).game_name == old(ctx).game_name,
            old(ctx).stage <= LOGO_FRAME ==> *final(self) == *old(self) && *final(ctx) == *old(
                ctx,
            ),
    {
        if ctx.stage <= LOGO_FRAME {
            return ;
        }
        ctx.bus.timer_update(dt);
        self.handle_event(ctx, dt);
        self.handle_timer(ctx, dt);
        self.handle_input(ctx, dt);
        self.handle_auto(ctx, dt);
    }

    fn handle_timer(&mut self, ctx: &mut Context, dt: u32)
        requires
            old(ctx).wf(),
        ensures
            final(ctx).wf(),
            final(ctx).stage == old(ctx).stage,
            final(ctx).game_name == old(ctx).game_name,
    ;

    fn handle_event(&mut self, ctx: &mut Context, dt: u32)
        requires
            old(ctx).wf(),
        ensures
            final(ctx).wf(),
            final(ctx).stage == old(ctx).stage,
            final(ctx).game_name == old(ctx).game_name,
    ;

    fn handle_input(&mut self, ctx: &mut Context, dt: u32)
        requires
            old(ctx).wf(),
        ensures
            final(ctx).wf(),
            final(ctx).stage == old(ctx).stage,
            final(ctx).game_name == old(ctx).game_name,
    ;

    fn handle_auto(&mut self, ctx: &mut Context, dt: u32)
        requires
            old(ctx).wf(),
        ensures
            final(ctx).wf(),
            final(ctx).stage == old(ctx).stage,
            final(ctx).game_name == old(ctx).game_name,
    ;
}

/// The Render interface: the presentation owns its state, reads the Model
/// through a narrow read-only reference, and draws once per frame in the
/// fixed order: event handling, then timer handling, then draw — so
/// input-driven state changes are visible to the same frame's draw call.
pub trait Render<M: Model>: Sized {
    /// One-time setup: bring the backend up for this game's grid.
    fn init(&mut self, ctx: &mut Context, m: &M)
        requires
            old(ctx).wf(),
        ensures
            final(ctx).wf(),
            final(ctx).stage == old(ctx).stage,
            final(ctx).game_name == old(ctx).game_name,
    ;

    /// Per-frame dispatch, in the contract order.
    fn update(&mut self, ctx: &mut Context, m: &M, dt: u32)
        requires
            old(ctx).wf(),
        ensures
            final(ctx).wf(),
            final(ctx).stage == old(ctx).stage,
            final(ctx).game_name == old(ctx).game_name,
    {
        self.handle_event(ctx, m, dt);
        self.handle_timer(ctx, m, dt);
        self.draw(ctx, m, dt);
    }

    fn handle_event(&mut self, ctx: &mut Context, m: &M, dt: u32)
        requires
            old(ctx).wf(),
        ensures
            final(ctx).wf(),
            final(ctx).stage == old(ctx).stage,
            final(ctx).game_name == old(ctx).game_name,
    ;

    fn handle_timer(&mut self, ctx: &mut Context, m: &M, dt: u32)
        requires
            old(ctx).wf(),
        ensures
            final(ctx).wf(),
            final(ctx).stage == old(ctx).stage,
            final(ctx).game_name == old(ctx).game_name,
    ;

    fn draw(&mut self, ctx: &mut Context, m: &M, dt: u32)
        requires
            old(ctx).wf(),
        ensures
            final(ctx).wf(),
            final(ctx).stage == old(ctx).stage,
            final(ctx).game_name == old(ctx).game_name,
    ;
}

/// A composed game: one Context, one Model, one Render, constructed once
/// and alive for the whole run.
pub struct Game<M: Model, R: Render<M>> {
    pub context: Context,
    pub model: M,
    pub render: R,
}

impl<M: Model, R: Render<M>> Game<M, R> {
    /// Compose a game.  The bus carries whatever registrations the Model
    /// and Render made while they were constructed.
    pub fn new(m: M, r: R, name: &str, bus: crate::event::EventBus) -> (g: Game<M, R>)
        requires
            bus.wf(),
        ensures
            g.context.wf(),
            g.context.stage == 0,
            g.context.game_name@ == name@,
            g.model == m,
            g.render == r,
            g.context.bus == bus,
    {
        let mut context = Context::new(name);
        context.bus = bus;
        Game { context, model: m, render: r }
    }

    /// One-time setup: Model first, then Render — the Render may query the
    /// Model's state during its own setup.
    pub fn init(&mut self)
        requires
            old(self).context.wf(),
        ensures
            final(self).context.wf(),
            final(self).context.stage == old(self).context.stage,
            final(self).context.game_name == old(self).context.game_name,
    {
        self.model.init(&mut self.context);
        self.render.init(&mut self.context, &self.model);
    }

    /// One tick: advance the frame counter, then Model::update, then
    /// Render::update — input-driven changes are visible to this frame's
    /// draw.  During the splash phase the Model is left untouched.
    pub fn on_tick(&mut self, dt: u32)
        requires
            old(self).context.wf(),
            old(self).context.stage < 0xFFFFFFFF,
            dt <= MAX_TICK_MS,
        ensures
            final(self).context.wf(),
            final(self).context.stage == old(self).context.stage + 1,
            final(self).context.game_name == old(self).context.game_name,
            old(self).context.stage + 1 <= LOGO_FRAME ==> final(self).model == old(self).model,
    {
        self.context.stage = self.context.stage + 1;
        self.model.update(&mut self.context, dt);
        self.render.update(&mut self.context, &self.model, dt);
    }
}

/// The wait the loop should allow for input before the next tick is due.
pub fn tick_timeout_ms(tick_rate_ms: u32, elapsed_ms: u32) -> (r: u32)
    ensures
        elapsed_ms < tick_rate_ms ==> r == tick_rate_ms - elapsed_ms,
        elapsed_ms >= tick_rate_ms ==> r == 0,
{
    if elapsed_ms < tick_rate_ms {
        tick_rate_ms - elapsed_ms
    } else {
        0
    }
}

} // verus!
