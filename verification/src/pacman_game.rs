//! The composed pacman game: one Context, one PacmanModel, one
//! PacmanRender, behind a single fixed type for hosts to drive.

use crate::event::{spec_evt_pending, EventBus, MAX_TICK_MS};
use crate::game::{Game, Model, Render};
use crate::pacman_model::{PacmanModel, PACMANH, PACMANW, PACMAN_STATE_NORMAL};
use crate::pacman_render::PacmanRender;
use crate::util::{Dir, Point};
use vstd::prelude::*;

verus! {

/// The pacman game as one value a host can construct and tick.
pub struct PacmanGame {
    pub g: Game<PacmanModel, PacmanRender>,
}

/// Build and initialize the game: model and render are constructed, the
/// render's bus registrations are carried into the context, and both get
/// their one-time setup — Model first, then Render.  The result stands at
/// frame zero with a freshly centered model and the grid redraw already
/// pending for the render to consume.
pub fn init_game() -> (r: PacmanGame)
    ensures
        r.g.context.wf(),
        r.g.context.stage == 0,
        r.g.context.game_name@ == "pacman"@,
        r.g.context.state == PACMAN_STATE_NORMAL,
        r.g.context.input_events@.len() == 0,
        r.g.model.wf(),
        r.g.model.grid_ok(),
        r.g.model.body@.len() == 1,
        r.g.model.body@[0] == (Point { x: (PACMANW as u16) / 2, y: (PACMANH as u16) / 2 }),
        r.g.model.dir == Dir::Down,
        spec_evt_pending(r.g.context.bus.evts(), "Pacman.RedrawGrid"@, "draw_grid"@),
{
    let mut bus = EventBus::new();
    let m = PacmanModel::new();
    let r = PacmanRender::new(&mut bus);
    let mut g = Game::new(m, r, "pacman", bus);
    let ghost evts0 = g.context.bus.evts();
    g.model.init(&mut g.context);
    proof {
        crate::event::lemma_event_consume_once(evts0, "Pacman.RedrawGrid"@, "draw_grid"@);
    }
    g.render.init(&mut g.context, &g.model);
    PacmanGame { g }
}

impl PacmanGame {
    pub fn new() -> (r: PacmanGame)
        ensures
            r.g.context.wf(),
            r.g.context.stage == 0,
            r.g.context.game_name@ == "pacman"@,
            r.g.model.body@.len() == 1,
            r.g.model.dir == Dir::Down,
            spec_evt_pending(r.g.context.bus.evts(), "Pacman.RedrawGrid"@, "draw_grid"@),
    {
        init_game()
    }

    /// Advance the game by one tick of `dt` milliseconds: the frame
    /// counter moves up by exactly one, then the Model and the Render
    /// update in that order.
    pub fn tick(&mut self, dt: u32)
        requires
            old(self).g.context.wf(),
            old(self).g.context.stage < 0xFFFFFFFF,
            dt <= MAX_TICK_MS,
        ensures
            final(self).g.context.wf(),
            final(self).g.context.stage == old(self).g.context.stage + 1,
    {
        self.g.on_tick(dt);
    }
}

} // verus!
