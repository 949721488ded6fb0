//! The pacman game built on the engine: movement, collisions, grid
//! rendering and the composed game value.

use rust_pixel::context::Context;
use rust_pixel::event::{Event, EventBus, KeyCode, KeyEvent, KEY_MODIFIERS_NONE};
use rust_pixel::game::Model;
use rust_pixel::pacman_game::init_game;
use rust_pixel::pacman_model::{
    PacmanModel, PACMANH, PACMANW, PACMAN_STATE_NORMAL, PACMAN_STATE_OVER_BORDER,
    PACMAN_STATE_OVER_SELF, SEED_MARK,
};
use rust_pixel::pacman_render::PacmanRender;
use rust_pixel::util::{Dir, Point};
use rust_pixel::LOGO_FRAME;

fn fresh_model_at(x: u16, y: u16) -> PacmanModel {
    let mut m = PacmanModel::new();
    m.body.push(Point { x, y });
    m.seed = Point { x: 0, y: 0 };
    m.make_grid();
    m
}

fn idx(x: u16, y: u16) -> usize {
    (y as usize) * PACMANW + (x as usize)
}

#[test]
fn act_moves_the_head_one_cell() {
    let mut m = fresh_model_at(10, 10);
    let mut ctx = Context::new("t");
    m.act(Dir::Right, &mut ctx);
    assert_eq!(m.body[0], Point { x: 11, y: 10 });
    assert_eq!(m.body.len(), 1);
    assert_eq!(m.dir, Dir::Right);
    assert_eq!(m.grid[idx(11, 10)], 1);
    assert_eq!(m.grid[idx(10, 10)], 0);
}

#[test]
fn act_ignores_a_reversal() {
    let mut m = fresh_model_at(10, 10);
    m.dir = Dir::Right;
    m.make_grid();
    let mut ctx = Context::new("t");
    m.act(Dir::Left, &mut ctx);
    assert_eq!(m.body[0], Point { x: 10, y: 10 });
    assert_eq!(m.dir, Dir::Right);
}

#[test]
fn act_reports_a_border_hit_and_leaves_the_model_alone() {
    let mut m = fresh_model_at(0, 5);
    m.dir = Dir::Down;
    m.make_grid();
    let mut ctx = Context::new("t");
    ctx.bus.event_register("Pacman.RedrawGrid", "draw_grid");
    m.act(Dir::Left, &mut ctx);
    assert_eq!(ctx.state, PACMAN_STATE_OVER_BORDER);
    assert_eq!(m.body[0], Point { x: 0, y: 5 });
    // the hit asked for a redraw
    assert!(ctx.bus.event_check("Pacman.RedrawGrid", "draw_grid"));
}

#[test]
fn act_reports_a_self_hit() {
    let mut m = PacmanModel::new();
    m.body.push(Point { x: 5, y: 5 });
    m.body.push(Point { x: 6, y: 5 });
    m.body.push(Point { x: 6, y: 6 });
    m.body.push(Point { x: 5, y: 6 });
    m.seed = Point { x: 0, y: 0 };
    m.dir = Dir::Up;
    m.make_grid();
    let mut ctx = Context::new("t");
    // moving right from the head lands on the second segment
    m.act(Dir::Right, &mut ctx);
    assert_eq!(ctx.state, PACMAN_STATE_OVER_SELF);
    assert_eq!(m.body.len(), 4);
}

#[test]
fn act_grows_the_body_on_the_seed_and_relocates_it() {
    let mut m = fresh_model_at(10, 10);
    m.seed = Point { x: 11, y: 10 };
    m.make_grid();
    assert_eq!(m.grid[idx(11, 10)], SEED_MARK);
    let mut ctx = Context::new("t");
    m.act(Dir::Right, &mut ctx);
    assert_eq!(m.body.len(), 2);
    assert_eq!(m.body[0], Point { x: 11, y: 10 });
    // the relocated seed is on the grid and not inside the body
    let s = m.seed;
    assert!((s.x as usize) < PACMANW && (s.y as usize) < PACMANH);
    assert_eq!(ctx.state, PACMAN_STATE_NORMAL);
}

#[test]
fn make_grid_paints_body_indices_and_seed_marker() {
    let mut m = PacmanModel::new();
    m.body.push(Point { x: 1, y: 0 });
    m.body.push(Point { x: 2, y: 0 });
    m.seed = Point { x: 3, y: 0 };
    m.make_grid();
    assert_eq!(m.grid[idx(1, 0)], 1);
    assert_eq!(m.grid[idx(2, 0)], 2);
    assert_eq!(m.grid[idx(3, 0)], SEED_MARK);
    assert_eq!(m.grid[idx(0, 0)], 0);
}

#[test]
fn model_init_centers_the_body_and_clears_input() {
    let mut m = PacmanModel::new();
    let mut ctx = Context::new("t");
    ctx.input_events.push(Event::Key(KeyEvent::new(KeyCode::Char('w'), KEY_MODIFIERS_NONE)));
    m.init(&mut ctx);
    assert_eq!(m.body.len(), 1);
    assert_eq!(m.body[0], Point { x: (PACMANW as u16) / 2, y: (PACMANH as u16) / 2 });
    assert_eq!(ctx.input_events.len(), 0);
    assert_eq!(ctx.state, PACMAN_STATE_NORMAL);
    assert!((m.seed.x as usize) < PACMANW && (m.seed.y as usize) < PACMANH);
}

#[test]
fn handle_input_maps_wasd_to_directions() {
    let mut m = PacmanModel::new();
    let mut ctx = Context::new("t");
    m.init(&mut ctx);
    let before = m.body[0];
    ctx.input_events.push(Event::Key(KeyEvent::new(KeyCode::Char('d'), KEY_MODIFIERS_NONE)));
    m.handle_input(&mut ctx, 16);
    assert_eq!(m.body[0], Point { x: before.x + 1, y: before.y });
    assert_eq!(ctx.input_events.len(), 0);
}

#[test]
fn render_registers_its_event_and_timer() {
    let mut bus = EventBus::new();
    let r = PacmanRender::new(&mut bus);
    assert_eq!(bus.events.len(), 1);
    assert_eq!(bus.events[0].name.as_str(), "Pacman.RedrawGrid");
    assert_eq!(bus.events[0].tag.as_str(), "draw_grid");
    assert_eq!(bus.timers.len(), 1);
    assert_eq!(bus.timers[0].name.as_str(), "Pacman.TestTimer");
    assert_eq!(bus.timers[0].interval_ms, 100);
    assert_eq!(bus.timers[0].remaining, 8);
    assert_eq!(r.main_scene.tags.len(), 3);
}

#[test]
fn composed_game_ticks_through_the_splash_and_beyond() {
    let mut pg = init_game();
    // the terminal was never measured, so the backend stayed down; the
    // game still runs headless
    for _ in 0..(LOGO_FRAME + 5) {
        pg.tick(16);
    }
    assert_eq!(pg.g.context.stage, LOGO_FRAME + 5);
    assert_eq!(pg.g.model.body.len(), 1);
}

#[test]
fn auto_move_advances_after_its_delay() {
    let mut pg = init_game();
    pg.g.context.stage = LOGO_FRAME;
    let before = pg.g.model.body[0];
    // accumulate more than the autonomous-move delay
    for _ in 0..30 {
        pg.tick(16);
    }
    let after = pg.g.model.body[0];
    assert!(before != after);
}

#[test]
fn draw_grid_paints_body_seed_and_empty_cells() {
    let mut bus = EventBus::new();
    let mut r = PacmanRender::new(&mut bus);
    let ctx = Context::new("t");
    let mut m = PacmanModel::new();
    m.body.push(Point { x: 2, y: 0 });
    m.seed = Point { x: 3, y: 0 };
    m.make_grid();
    r.draw_grid(&ctx, &m);
    let gi = r.main_scene.index_of("PACMAN").unwrap();
    let content = &r.main_scene.sprites[gi].content;
    // head: full block in light green
    assert_eq!(content.get(2, 0).symbol, '\u{2587}');
    // seed: dot, palette color for stage 0
    assert_eq!(content.get(3, 0).symbol, '\u{2219}');
    assert_eq!(content.get(3, 0).fg, rust_pixel::style::Color::Red);
    // empty cell stays blank
    assert_eq!(content.get(0, 0).symbol, ' ');
}

#[test]
fn render_scene_carries_the_title_text() {
    let mut bus = EventBus::new();
    let r = PacmanRender::new(&mut bus);
    let bi = r.main_scene.index_of("PACMAN-BORDER").unwrap();
    let content = &r.main_scene.sprites[bi].content;
    assert_eq!(content.get(18, 0).symbol, 'P');
    assert_eq!(content.get(19, 0).symbol, 'A');
    assert_eq!(content.get(18, 0).fg, rust_pixel::style::Color::Indexed(222));
}

#[test]
fn render_handle_event_consumes_the_redraw_and_repaints() {
    let mut pg = init_game();
    let g = &mut pg.g;
    // model init left the redraw pending; the hook consumes it and paints
    rust_pixel::game::Render::handle_event(&mut g.render, &mut g.context, &g.model, 16);
    assert!(!g.context.bus.event_check("Pacman.RedrawGrid", "draw_grid"));
    let gi = g.render.main_scene.index_of("PACMAN").unwrap();
    let head = g.model.body[0];
    let cell = g.render.main_scene.sprites[gi].content.get(head.x, head.y);
    assert_eq!(cell.symbol, '\u{2587}');
}

#[test]
fn render_handle_timer_writes_the_message_and_rearms() {
    let mut bus = EventBus::new();
    let mut r = PacmanRender::new(&mut bus);
    let mut ctx = Context::new("t");
    ctx.bus = bus;
    // one interval elapses: the armed timer fires once and is down to 7
    ctx.bus.timer_update(100);
    assert_eq!(ctx.bus.timers[0].remaining, 7);
    let m = PacmanModel::new();
    rust_pixel::game::Render::handle_timer(&mut r, &mut ctx, &m, 16);
    // stage 0: the message lands at column 0, in yellow
    let mi = r.main_scene.index_of("PACMAN-MSG").unwrap();
    let cell = r.main_scene.sprites[mi].content.get(0, 0);
    assert_eq!(cell.symbol, 'p');
    assert_eq!(cell.fg, rust_pixel::style::Color::Yellow);
    // and the timer was re-armed for 8 more firings
    assert_eq!(ctx.bus.timers[0].remaining, 15);
}

#[test]
fn game_tick_advances_the_stage_by_one() {
    let mut pg = init_game();
    assert_eq!(pg.g.context.stage, 0);
    pg.tick(16);
    assert_eq!(pg.g.context.stage, 1);
    pg.tick(16);
    assert_eq!(pg.g.context.stage, 2);
}
