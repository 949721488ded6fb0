//! The game driver: frame ordering, the splash-phase dispatch boundary and
//! the loop-timing helper.

use rust_pixel::context::Context;
use rust_pixel::event::{Event, EventBus, KeyCode, KeyEvent, KEY_MODIFIERS_NONE};
use rust_pixel::game::{tick_timeout_ms, Game, Model, Render};
use rust_pixel::LOGO_FRAME;

struct FlagModel {
    flag: bool,
    handled: u32,
}

impl Model for FlagModel {
    fn init(&mut self, _ctx: &mut Context) {}

    fn handle_timer(&mut self, _ctx: &mut Context, _dt: u32) {
        self.handled += 1;
    }

    fn handle_event(&mut self, _ctx: &mut Context, _dt: u32) {
        self.handled += 1;
    }

    fn handle_input(&mut self, ctx: &mut Context, _dt: u32) {
        self.handled += 1;
        for e in ctx.input_events.iter() {
            if let Event::Key(k) = e {
                let KeyCode::Char(c) = k.code;
                if c == 'x' {
                    self.flag = true;
                }
            }
        }
        ctx.input_events.clear();
    }

    fn handle_auto(&mut self, _ctx: &mut Context, _dt: u32) {
        self.handled += 1;
    }
}

struct FlagRender {
    seen_flag_in_draw: Option<bool>,
    draws: u32,
}

impl Render<FlagModel> for FlagRender {
    fn init(&mut self, _ctx: &mut Context, _m: &FlagModel) {}

    fn handle_event(&mut self, _ctx: &mut Context, _m: &FlagModel, _dt: u32) {}

    fn handle_timer(&mut self, _ctx: &mut Context, _m: &FlagModel, _dt: u32) {}

    fn draw(&mut self, _ctx: &mut Context, m: &FlagModel, _dt: u32) {
        self.draws += 1;
        self.seen_flag_in_draw = Some(m.flag);
    }
}

fn key_event(c: char) -> Event {
    Event::Key(KeyEvent::new(KeyCode::Char(c), KEY_MODIFIERS_NONE))
}

#[test]
fn draw_observes_input_driven_state_in_the_same_tick() {
    let m = FlagModel { flag: false, handled: 0 };
    let r = FlagRender { seen_flag_in_draw: None, draws: 0 };
    let mut g = Game::new(m, r, "ordering", EventBus::new());
    g.init();
    // skip past the splash phase so game logic dispatches
    g.context.stage = LOGO_FRAME;
    g.context.input_events.push(key_event('x'));
    g.on_tick(16);
    assert!(g.model.flag);
    assert_eq!(g.render.seen_flag_in_draw, Some(true));
    assert_eq!(g.render.draws, 1);
}

#[test]
fn no_game_logic_dispatch_during_the_splash_phase() {
    let m = FlagModel { flag: false, handled: 0 };
    let r = FlagRender { seen_flag_in_draw: None, draws: 0 };
    let mut g = Game::new(m, r, "logo", EventBus::new());
    g.init();
    for _ in 0..LOGO_FRAME {
        g.on_tick(16);
    }
    // stages 1 ..= LOGO_FRAME: handlers never invoked, draw still runs
    assert_eq!(g.model.handled, 0);
    assert_eq!(g.render.draws, LOGO_FRAME);
    // the first frame past the boundary dispatches all four hooks
    g.on_tick(16);
    assert_eq!(g.context.stage, LOGO_FRAME + 1);
    assert_eq!(g.model.handled, 4);
}

#[test]
fn input_during_splash_is_not_consumed() {
    let m = FlagModel { flag: false, handled: 0 };
    let r = FlagRender { seen_flag_in_draw: None, draws: 0 };
    let mut g = Game::new(m, r, "logoinput", EventBus::new());
    g.init();
    g.context.input_events.push(key_event('x'));
    g.on_tick(16);
    assert!(!g.model.flag);
    assert_eq!(g.context.input_events.len(), 1);
}

#[test]
fn tick_timeout_is_the_remaining_budget() {
    assert_eq!(tick_timeout_ms(16, 0), 16);
    assert_eq!(tick_timeout_ms(16, 10), 6);
    assert_eq!(tick_timeout_ms(16, 16), 0);
    assert_eq!(tick_timeout_ms(16, 100), 0);
}
