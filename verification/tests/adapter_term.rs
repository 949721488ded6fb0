//! The terminal adapter: lifecycle, splash phase, first-frame emission and
//! input translation.

use rust_pixel::adapter::{
    input_events_from_cross, process_native_event, AdapterState, CrosstermAdapter, NativeButton,
    NativeEvent, NativeKeyCode, NativeMouseKind, TermCommand, TextAttr,
};
use rust_pixel::buffer::Cell;
use rust_pixel::event::{Event, KeyCode, MouseEventKind, MouseButton};
use rust_pixel::style::{Color, MOD_BOLD};
use rust_pixel::LOGO_FRAME;

fn ready_adapter(w: u16, h: u16) -> CrosstermAdapter {
    let mut a = CrosstermAdapter::new("t");
    a.set_term_size(200, 100);
    a.init(w, h, "t").unwrap();
    a
}

#[test]
fn init_fails_when_the_display_is_too_small() {
    let mut a = CrosstermAdapter::new("t");
    a.set_term_size(10, 5);
    assert!(a.init(11, 5, "t").is_err());
    assert_eq!(a.base.state, AdapterState::Uninitialized);
    let mut b = CrosstermAdapter::new("t");
    b.set_term_size(10, 5);
    assert!(b.init(10, 6, "t").is_err());
    let mut c = CrosstermAdapter::new("t");
    c.set_term_size(10, 5);
    assert!(c.init(10, 5, "t").is_ok());
    assert_eq!(c.base.state, AdapterState::Initialized);
}

#[test]
fn first_frame_after_init_emits_every_cell() {
    let mut a = ready_adapter(6, 4);
    a.drain_pending();
    a.render_buffer(LOGO_FRAME + 1).unwrap();
    let cmds = a.drain_pending();
    let prints = cmds
        .iter()
        .filter(|c| matches!(c, TermCommand::Print(_)))
        .count();
    assert_eq!(prints, 6 * 4);
    // the second frame with no change emits nothing but the trailing reset
    a.render_buffer(LOGO_FRAME + 2).unwrap();
    let cmds2 = a.drain_pending();
    assert_eq!(
        cmds2,
        vec![
            TermCommand::SetFg(Color::Reset),
            TermCommand::SetBg(Color::Reset),
            TermCommand::ResetAttr,
        ]
    );
}

#[test]
fn adjacent_changes_skip_cursor_repositioning() {
    let mut a = ready_adapter(8, 2);
    a.drain_pending();
    a.render_buffer(LOGO_FRAME + 1).unwrap();
    a.drain_pending();
    // change one full row: one MoveTo, then prints ride the cursor
    for x in 0..8u16 {
        a.base.current.set(x, 1, Cell { symbol: '#', fg: Color::Reset, bg: Color::Reset, modifier: 0 });
    }
    a.render_buffer(LOGO_FRAME + 2).unwrap();
    let cmds = a.drain_pending();
    let moves = cmds
        .iter()
        .filter(|c| matches!(c, TermCommand::MoveTo(_, _)))
        .count();
    assert_eq!(moves, 1);
    let prints = cmds
        .iter()
        .filter(|c| matches!(c, TermCommand::Print(_)))
        .count();
    assert_eq!(prints, 8);
}

#[test]
fn style_switches_are_emitted_only_on_change() {
    let mut a = ready_adapter(4, 1);
    a.drain_pending();
    a.render_buffer(LOGO_FRAME + 1).unwrap();
    a.drain_pending();
    for x in 0..4u16 {
        a.base.current.set(
            x,
            0,
            Cell { symbol: 'b', fg: Color::Red, bg: Color::Reset, modifier: MOD_BOLD },
        );
    }
    a.render_buffer(LOGO_FRAME + 2).unwrap();
    let cmds = a.drain_pending();
    let fg_sets = cmds
        .iter()
        .filter(|c| matches!(c, TermCommand::SetFg(Color::Red)))
        .count();
    assert_eq!(fg_sets, 1);
    let bolds = cmds
        .iter()
        .filter(|c| matches!(c, TermCommand::SetAttr(TextAttr::Bold)))
        .count();
    assert_eq!(bolds, 1);
}

#[test]
fn splash_clear_runs_exactly_once_at_the_boundary() {
    let mut a = ready_adapter(30, 10);
    a.drain_pending();
    let mut clears = 0;
    for stage in 1..=LOGO_FRAME + 1 {
        a.render_buffer(stage).unwrap();
        let cmds = a.drain_pending();
        if cmds.contains(&TermCommand::SetFg(Color::Rgb(192, 192, 192))) {
            clears += 1;
            assert_eq!(stage, LOGO_FRAME);
        }
        if stage <= LOGO_FRAME {
            assert!(cmds.contains(&TermCommand::PrintLogo));
        } else {
            assert!(!cmds.contains(&TermCommand::PrintLogo));
        }
    }
    assert_eq!(clears, 1);
}

#[test]
fn reset_is_idempotent() {
    let mut a = ready_adapter(6, 4);
    a.drain_pending();
    a.reset();
    let first = a.drain_pending();
    assert!(first.contains(&TermCommand::LeaveAltScreen));
    assert!(first.contains(&TermCommand::DisableRawMode));
    assert_eq!(a.base.state, AdapterState::Reset);
    a.reset();
    let second = a.drain_pending();
    assert_eq!(second.len(), 0);
    assert_eq!(a.base.state, AdapterState::Reset);
}

#[test]
fn reset_is_safe_before_init() {
    let mut a = CrosstermAdapter::new("t");
    a.reset();
    assert_eq!(a.base.state, AdapterState::Reset);
    a.reset();
    assert_eq!(a.drain_pending().len(), 4);
}

#[test]
fn printable_keys_translate_and_others_drop() {
    let e = NativeEvent::Key(NativeKeyCode::Char('w'));
    match input_events_from_cross(&e) {
        Some(Event::Key(k)) => {
            assert_eq!(k.code, KeyCode::Char('w'));
        },
        _ => panic!("expected a key event"),
    }
    assert!(input_events_from_cross(&NativeEvent::Key(NativeKeyCode::Other)).is_none());
    assert!(input_events_from_cross(&NativeEvent::Other).is_none());
}

#[test]
fn mouse_events_translate_and_unknown_kinds_collapse_to_moved() {
    let e = NativeEvent::Mouse(NativeMouseKind::Down(NativeButton::Left), 7, 9);
    match input_events_from_cross(&e) {
        Some(Event::Mouse(m)) => {
            assert_eq!(m.kind, MouseEventKind::Down(MouseButton::Left));
            assert_eq!((m.column, m.row), (7, 9));
        },
        _ => panic!("expected a mouse event"),
    }
    let o = NativeEvent::Mouse(NativeMouseKind::Other, 1, 2);
    match input_events_from_cross(&o) {
        Some(Event::Mouse(m)) => assert_eq!(m.kind, MouseEventKind::Moved),
        _ => panic!("expected a mouse event"),
    }
}

#[test]
fn quit_key_is_detected_while_translating() {
    let mut es: Vec<Event> = Vec::new();
    assert!(process_native_event(&NativeEvent::Key(NativeKeyCode::Char('q')), &mut es));
    assert_eq!(es.len(), 1);
    assert!(!process_native_event(&NativeEvent::Key(NativeKeyCode::Char('w')), &mut es));
    assert_eq!(es.len(), 2);
    assert!(!process_native_event(&NativeEvent::Other, &mut es));
    assert_eq!(es.len(), 2);
}

#[test]
fn cursor_commands_are_queued() {
    let mut a = ready_adapter(6, 4);
    a.drain_pending();
    a.hide_cursor().unwrap();
    a.set_cursor(3, 2).unwrap();
    a.show_cursor().unwrap();
    assert_eq!(
        a.drain_pending(),
        vec![
            TermCommand::HideCursor,
            TermCommand::MoveTo(3, 2),
            TermCommand::ShowCursor,
        ]
    );
    assert_eq!(a.cell_width(), 0);
    assert_eq!(a.cell_height(), 0);
}

#[test]
fn cursor_position_is_tracked() {
    let mut a = ready_adapter(6, 4);
    a.drain_pending();
    assert_eq!(a.get_cursor(), Ok((0, 0)));
    a.set_cursor(3, 2).unwrap();
    assert_eq!(a.get_cursor(), Ok((3, 2)));
    assert_eq!(a.get_base().cell_w, 6);
}
