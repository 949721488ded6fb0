//! The terminal output backend: it owns the previous/current frame pair,
//! turns each frame's diff into a minimal stream of terminal commands, and
//! translates native input into engine events.  The commands are plain data;
//! the host process performs the actual device writes.

use crate::buffer::{spec_diff, Buffer, Cell, DiffRecord};
use crate::event::{Event, KeyCode, KeyEvent, MouseButton, MouseEvent, MouseEventKind};
use crate::event::KEY_MODIFIERS_NONE;
use crate::style::{Color, MOD_BOLD, MOD_CROSSED_OUT, MOD_DIM, MOD_HIDDEN, MOD_ITALIC, MOD_REVERSED, MOD_UNDERLINED};
use crate::util::Rand;
use crate::LOGO_FRAME;
use vstd::prelude::*;

verus! {

/// A text attribute switch, the unit a modifier change is expanded into.
#[derive(Clone, Copy, PartialEq, Eq, Structural, Debug)]
pub enum TextAttr {
    Bold,
    NoBold,
    Dim,
    NoDim,
    Italic,
    NoItalic,
    Underlined,
    NoUnderlined,
    Reversed,
    NoReversed,
    Hidden,
    NoHidden,
    CrossedOut,
    NotCrossedOut,
}

/// One backend output command.  The engine computes the exact command
/// sequence for a frame; the host writes it to the device.
#[derive(Clone, Copy, PartialEq, Eq, Structural, Debug)]
pub enum TermCommand {
    EnableRawMode,
    DisableRawMode,
    EnterAltScreen,
    LeaveAltScreen,
    EnableMouseCapture,
    DisableMouseCapture,
    ShowCursor,
    HideCursor,
    MoveTo(u16, u16),
    SetFg(Color),
    SetBg(Color),
    SetAttr(TextAttr),
    ResetAttr,
    Print(char),
    PrintRepeat(char, u16),
    PrintLogo,
}

/// The attribute switches one modifier flag contributes when it differs
/// between the previously written state and the next cell.
pub open spec fn spec_flag_cmds(
    from: u16,
    to: u16,
    mask: u16,
    on: TextAttr,
    off: TextAttr,
) -> Seq<TermCommand> {
    if from & mask != 0 && to & mask == 0 {
        seq![TermCommand::SetAttr(off)]
    } else if from & mask == 0 && to & mask != 0 {
        seq![TermCommand::SetAttr(on)]
    } else {
        Seq::empty()
    }
}

/// The full expansion of a modifier change into attribute switches, flag by
/// flag in a fixed order.
pub open spec fn spec_modifier_diff(from: u16, to: u16) -> Seq<TermCommand> {
    spec_flag_cmds(from, to, MOD_BOLD, TextAttr::Bold, TextAttr::NoBold) + spec_flag_cmds(
        from,
        to,
        MOD_DIM,
        TextAttr::Dim,
        TextAttr::NoDim,
    ) + spec_flag_cmds(from, to, MOD_ITALIC, TextAttr::Italic, TextAttr::NoItalic)
        + spec_flag_cmds(from, to, MOD_UNDERLINED, TextAttr::Underlined, TextAttr::NoUnderlined)
        + spec_flag_cmds(from, to, MOD_REVERSED, TextAttr::Reversed, TextAttr::NoReversed)
        + spec_flag_cmds(from, to, MOD_HIDDEN, TextAttr::Hidden, TextAttr::NoHidden)
        + spec_flag_cmds(from, to, MOD_CROSSED_OUT, TextAttr::CrossedOut, TextAttr::NotCrossedOut)
}

/// Push the attribute switch for one flag, if it changed.
fn push_flag_cmds(
    cmds: &mut Vec<TermCommand>,
    from: u16,
    to: u16,
    mask: u16,
    on: TextAttr,
    off: TextAttr,
)
    ensures
        final(cmds)@ == old(cmds)@ + spec_flag_cmds(from, to, mask, on, off),
{
    if from & mask != 0 && to & mask == 0 {
        cmds.push(TermCommand::SetAttr(off));
        proof {
            assert(cmds@ =~= old(cmds)@ + spec_flag_cmds(from, to, mask, on, off));
        }
    } else if from & mask == 0 && to & mask != 0 {
        cmds.push(TermCommand::SetAttr(on));
        proof {
            assert(cmds@ =~= old(cmds)@ + spec_flag_cmds(from, to, mask, on, off));
        }
    } else {
        proof {
            assert(cmds@ =~= old(cmds)@ + spec_flag_cmds(from, to, mask, on, off));
        }
    }
}

/// Append the attribute switches that take the device from modifier state
/// `from` to `to`.
fn push_modifier_diff(cmds: &mut Vec<TermCommand>, from: u16, to: u16)
    ensures
        final(cmds)@ == old(cmds)@ + spec_modifier_diff(from, to),
{
    push_flag_cmds(cmds, from, to, MOD_BOLD, TextAttr::Bold, TextAttr::NoBold);
    push_flag_cmds(cmds, from, to, MOD_DIM, TextAttr::Dim, TextAttr::NoDim);
    push_flag_cmds(cmds, from, to, MOD_ITALIC, TextAttr::Italic, TextAttr::NoItalic);
    push_flag_cmds(cmds, from, to, MOD_UNDERLINED, TextAttr::Underlined, TextAttr::NoUnderlined);
    push_flag_cmds(cmds, from, to, MOD_REVERSED, TextAttr::Reversed, TextAttr::NoReversed);
    push_flag_cmds(cmds, from, to, MOD_HIDDEN, TextAttr::Hidden, TextAttr::NoHidden);
    push_flag_cmds(
        cmds,
        from,
        to,
        MOD_CROSSED_OUT,
        TextAttr::CrossedOut,
        TextAttr::NotCrossedOut,
    );
    proof {
        assert(cmds@ =~= old(cmds)@ + spec_modifier_diff(from, to));
    }
}

/// A native key, as the host hands it over: printable keys carry their
/// character, everything else is collapsed.
#[derive(Clone, Copy, PartialEq, Eq, Structural, Debug)]
pub enum NativeKeyCode {
    Char(char),
    Other,
}

/// A native mouse action.
#[derive(Clone, Copy, PartialEq, Eq, Structural, Debug)]
pub enum NativeMouseKind {
    Down(NativeButton),
    Up(NativeButton),
    Drag(NativeButton),
    Moved,
    Other,
}

#[derive(Clone, Copy, PartialEq, Eq, Structural, Debug)]
pub enum NativeButton {
    Left,
    Right,
    Middle,
}

/// A native input event in plain engine-readable form; the host converts
/// the device library's event type into this plain one, field by field.
#[derive(Clone, Copy, PartialEq, Eq, Structural, Debug)]
pub enum NativeEvent {
    Key(NativeKeyCode),
    Mouse(NativeMouseKind, u16, u16),
    Other,
}

/// The engine event a native event translates to: printable keys map to key
/// events, mouse actions map to mouse events (unrecognized kinds collapse to
/// `Moved`, a best-effort normalization), everything else is dropped.
pub open spec fn spec_translate(e: NativeEvent) -> Option<Event> {
    match e {
        NativeEvent::Key(NativeKeyCode::Char(c)) => Some(
            Event::Key(KeyEvent { code: KeyCode::Char(c), modifiers: KEY_MODIFIERS_NONE }),
        ),
        NativeEvent::Key(NativeKeyCode::Other) => None,
        NativeEvent::Mouse(kind, column, row) => Some(
            Event::Mouse(
                MouseEvent {
                    kind: spec_translate_mouse_kind(kind),
                    column,
                    row,
                    modifiers: KEY_MODIFIERS_NONE,
                },
            ),
        ),
        NativeEvent::Other => None,
    }
}

pub open spec fn spec_translate_button(b: NativeButton) -> MouseButton {
    match b {
        NativeButton::Left => MouseButton::Left,
        NativeButton::Right => MouseButton::Right,
        NativeButton::Middle => MouseButton::Middle,
    }
}

pub open spec fn spec_translate_mouse_kind(k: NativeMouseKind) -> MouseEventKind {
    match k {
        NativeMouseKind::Down(b) => MouseEventKind::Down(spec_translate_button(b)),
        NativeMouseKind::Up(b) => MouseEventKind::Up(spec_translate_button(b)),
        NativeMouseKind::Drag(b) => MouseEventKind::Drag(spec_translate_button(b)),
        NativeMouseKind::Moved => MouseEventKind::Moved,
        NativeMouseKind::Other => MouseEventKind::Moved,
    }
}

fn translate_button(b: NativeButton) -> (r: MouseButton)
    ensures
        r == spec_translate_button(b),
{
    match b {
        NativeButton::Left => MouseButton::Left,
        NativeButton::Right => MouseButton::Right,
        NativeButton::Middle => MouseButton::Middle,
    }
}

/// Convert a native input event to an engine event, for the sake of unified
/// event processing in the games.
pub fn input_events_from_cross(e: &NativeEvent) -> (r: Option<Event>)
    ensures
        r == spec_translate(*e),
{
    match e {
        NativeEvent::Key(NativeKeyCode::Char(c)) => Some(
            Event::Key(KeyEvent { code: KeyCode::Char(*c), modifiers: KEY_MODIFIERS_NONE }),
        ),
        NativeEvent::Key(NativeKeyCode::Other) => None,
        NativeEvent::Mouse(kind, column, row) => {
            let mk = match kind {
                NativeMouseKind::Down(b) => MouseEventKind::Down(translate_button(*b)),
                NativeMouseKind::Up(b) => MouseEventKind::Up(translate_button(*b)),
                NativeMouseKind::Drag(b) => MouseEventKind::Drag(translate_button(*b)),
                NativeMouseKind::Moved => MouseEventKind::Moved,
                NativeMouseKind::Other => MouseEventKind::Moved,
            };
            Some(
                Event::Mouse(
                    MouseEvent { kind: mk, column: *column, row: *row, modifiers: KEY_MODIFIERS_NONE },
                ),
            )
        },
        NativeEvent::Other => None,
    }
}

/// Whether a native event is the backend's quit signal (the `q` key).
pub open spec fn spec_is_quit(e: NativeEvent) -> bool {
    e == NativeEvent::Key(NativeKeyCode::Char('q'))
}

/// Translate one native event into the pending input queue and report
/// whether it was the quit signal.
pub fn process_native_event(e: &NativeEvent, es: &mut Vec<Event>) -> (quit: bool)
    ensures
        quit == spec_is_quit(*e),
        match spec_translate(*e) {
            Some(ev) => final(es)@ == old(es)@.push(ev),
            None => final(es)@ == old(es)@,
        },
{
    if let Some(ev) = input_events_from_cross(e) {
        es.push(ev);
    }
    match e {
        NativeEvent::Key(NativeKeyCode::Char(c)) => *c == 'q',
        _ => false,
    }
}

} // verus!\n
use vstd::string::StringExecFns;

verus! {

/// Where an adapter stands in its lifecycle.
#[derive(Clone, Copy, PartialEq, Eq, Structural, Debug)]
pub enum AdapterState {
    Uninitialized,
    Initialized,
    Running,
    Reset,
}

/// State every backend variant shares: the game's name and title, the cell
/// grid size, and the previous/current frame pair.
pub struct AdapterBase {
    pub game_name: String,
    pub title: String,
    pub cell_w: u16,
    pub cell_h: u16,
    pub current: Buffer,
    pub previous: Buffer,
    pub state: AdapterState,
}

impl AdapterBase {
    /// Both frame buffers exist at the grid size, with matching dimensions.
    pub open spec fn buffers_wf(self) -> bool {
        &&& self.current.wf()
        &&& self.previous.wf()
        &&& self.current.width == self.cell_w
        &&& self.current.height == self.cell_h
        &&& self.previous.width == self.cell_w
        &&& self.previous.height == self.cell_h
    }

    pub fn new(gn: &str) -> (r: AdapterBase)
        ensures
            r.state == AdapterState::Uninitialized,
            r.game_name@ == gn@,
            r.cell_w == 0,
            r.cell_h == 0,
            r.buffers_wf(),
    {
        AdapterBase {
            game_name: gn.to_owned(),
            title: String::new(),
            cell_w: 0,
            cell_h: 0,
            current: Buffer::new(0, 0),
            previous: Buffer::new(0, 0),
            state: AdapterState::Uninitialized,
        }
    }
}

/// The generator state after the four draws of one splash frame.
pub open spec fn spec_seed4(s: u64) -> u64 {
    Rand::spec_next(Rand::spec_next(Rand::spec_next(Rand::spec_next(s))))
}

/// The command sequence of one splash frame: blank the middle row, then
/// print the logo at a drawn column in a drawn color; on the last splash
/// frame, clear the logo and restore a neutral pen.
pub open spec fn spec_logo_cmds(seed: u64, w: u16, h: u16, stage: u32) -> Seq<TermCommand> {
    let r1 = Rand::spec_value(seed);
    let s1 = Rand::spec_next(seed);
    let r2 = Rand::spec_value(s1);
    let s2 = Rand::spec_next(s1);
    let r3 = Rand::spec_value(s2);
    let s3 = Rand::spec_next(s2);
    let r4 = Rand::spec_value(s3);
    let x = (w - (r1 % (w as u32)) as u16) as u16;
    let y = (h / 2) as u16;
    let cc = Color::Rgb(
        (r2 & 0xFF) as u8,
        (r3 & 0xFF) as u8,
        (r4 & 0xFF) as u8,
    );
    let head = seq![
        TermCommand::MoveTo(0, y),
        TermCommand::PrintRepeat(' ', w),
        TermCommand::MoveTo(x, y),
        TermCommand::SetFg(cc),
        TermCommand::PrintLogo,
    ];
    if stage == LOGO_FRAME {
        head + seq![
            TermCommand::MoveTo(x, y),
            TermCommand::PrintRepeat(' ', 33),
            TermCommand::SetFg(Color::Rgb(192, 192, 192)),
        ]
    } else {
        head
    }
}

/// The command stream for a sequence of change records from position `k`
/// on, given the device's last written colors, modifier state and cursor
/// position: the cursor is repositioned only where the next record is not
/// horizontally adjacent to the last one, colors and attributes are switched
/// only where they differ from the written state, each record's symbol is
/// printed, and the stream ends by resetting colors and attributes.
pub open spec fn spec_render_cmds(
    recs: Seq<DiffRecord>,
    k: int,
    fg: Color,
    bg: Color,
    modifier: u16,
    last: Option<(u16, u16)>,
) -> Seq<TermCommand>
    decreases recs.len() - k,
{
    if k < 0 || k >= recs.len() {
        seq![
            TermCommand::SetFg(Color::Reset),
            TermCommand::SetBg(Color::Reset),
            TermCommand::ResetAttr,
        ]
    } else {
        let rec = recs[k];
        let move_part = if (last matches Some(p) && rec.x == p.0 + 1 && rec.y == p.1) {
            Seq::<TermCommand>::empty()
        } else {
            seq![TermCommand::MoveTo(rec.x, rec.y)]
        };
        let mod_part = if rec.cell.modifier != modifier {
            spec_modifier_diff(modifier, rec.cell.modifier)
        } else {
            Seq::<TermCommand>::empty()
        };
        let fg_part = if rec.cell.fg != fg {
            seq![TermCommand::SetFg(rec.cell.fg)]
        } else {
            Seq::<TermCommand>::empty()
        };
        let bg_part = if rec.cell.bg != bg {
            seq![TermCommand::SetBg(rec.cell.bg)]
        } else {
            Seq::<TermCommand>::empty()
        };
        move_part + mod_part + fg_part + bg_part + seq![TermCommand::Print(rec.cell.symbol)]
            + spec_render_cmds(
            recs,
            k + 1,
            rec.cell.fg,
            rec.cell.bg,
            rec.cell.modifier,
            Some((rec.x, rec.y)),
        )
    }
}

/// The terminal backend.  It owns the frame pair and a deterministic
/// generator for the splash animation, and queues the commands the host
/// must write; the host drains the queue after each call.
pub struct CrosstermAdapter {
    pub base: AdapterBase,
    pub rd: Rand,
    pub term_width: u16,
    pub term_height: u16,
    pub cursor_pos: (u16, u16),
    pub pending: Vec<TermCommand>,
}

impl CrosstermAdapter {
    pub open spec fn wf(self) -> bool {
        self.base.buffers_wf()
    }

    pub fn new(gn: &str) -> (r: CrosstermAdapter)
        ensures
            r.wf(),
            r.base.state == AdapterState::Uninitialized,
            r.base.game_name@ == gn@,
            r.term_width == 0,
            r.term_height == 0,
            r.pending@.len() == 0,
    {
        CrosstermAdapter {
            base: AdapterBase::new(gn),
            rd: Rand::new(),
            term_width: 0,
            term_height: 0,
            cursor_pos: (0, 0),
            pending: Vec::new(),
        }
    }

    /// Record the physical size the device reported; the host queries the
    /// terminal and hands the answer in before `init`.
    pub fn set_term_size(&mut self, w: u16, h: u16)
        ensures
            *final(self) == (CrosstermAdapter { term_width: w, term_height: h, ..*old(self) }),
    {
        self.term_width = w;
        self.term_height = h;
    }

    /// Allocate the frame pair at the requested grid size and queue the
    /// device setup commands.  Fails exactly when the physical display is
    /// smaller than the requested grid, leaving the adapter untouched; on
    /// success the current frame is blank, the previous frame is seeded
    /// with the sentinel so that the first diff emits every cell, and the
    /// adapter is initialized.
    pub fn init(&mut self, w: u16, h: u16, title: &str) -> (r: Result<(), String>)
        requires
            old(self).wf(),
            old(self).base.state == AdapterState::Uninitialized,
            w > 0,
            h > 0,
        ensures
            final(self).wf(),
            r is Err <==> (w > old(self).term_width || h > old(self).term_height),
            r is Err ==> *final(self) == *old(self),
            r is Ok ==> {
                &&& final(self).base.state == AdapterState::Initialized
                &&& final(self).base.cell_w == w
                &&& final(self).base.cell_h == h
                &&& final(self).base.title@ == title@
                &&& final(self).base.current.width == w
                &&& final(self).base.current.height == h
                &&& forall|p: int|
                    0 <= p < final(self).base.current.cells@.len() ==> final(self).base.current.cells@[p] == Cell::spec_blank()
                &&& forall|p: int|
                    0 <= p < final(self).base.previous.cells@.len() ==> final(self).base.previous.cells@[p] == Cell::spec_sentinel()
                &&& final(self).pending@ == old(self).pending@ + seq![
                    TermCommand::EnableRawMode,
                    TermCommand::EnterAltScreen,
                    TermCommand::EnableMouseCapture,
                ]
                &&& final(self).rd == old(self).rd
            },
    {
        if w > self.term_width || h > self.term_height {
            return Err(String::from_str("display too small for the requested cell grid"));
        }
        self.base.cell_w = w;
        self.base.cell_h = h;
        self.base.title = title.to_owned();
        self.base.current = Buffer::new(w, h);
        self.base.previous = Buffer::new_sentinel(w, h);
        self.base.state = AdapterState::Initialized;
        self.pending.push(TermCommand::EnableRawMode);
        self.pending.push(TermCommand::EnterAltScreen);
        self.pending.push(TermCommand::EnableMouseCapture);
        proof {
            assert(self.pending@ =~= old(self).pending@ + seq![
                TermCommand::EnableRawMode,
                TermCommand::EnterAltScreen,
                TermCommand::EnableMouseCapture,
            ]);
        }
        Ok(())
    }

    /// Restore the device to its pre-`init` state.  Idempotent: the first
    /// call queues the teardown commands and moves the adapter to `Reset`;
    /// any further call queues nothing and changes nothing.
    pub fn reset(&mut self)
        ensures
            final(self).base.state == AdapterState::Reset,
            old(self).base.state == AdapterState::Reset ==> *final(self) == *old(self),
            old(self).base.state != AdapterState::Reset ==> *final(self) == (CrosstermAdapter {
                base: (AdapterBase { state: AdapterState::Reset, ..old(self).base }),
                pending: final(self).pending,
                ..*old(self)
            }) && final(self).pending@ == old(self).pending@ + seq![
                TermCommand::DisableRawMode,
                TermCommand::LeaveAltScreen,
                TermCommand::DisableMouseCapture,
                TermCommand::ShowCursor,
            ],
    {
        if matches!(self.base.state, AdapterState::Reset) {
            return ;
        }
        self.base.state = AdapterState::Reset;
        self.pending.push(TermCommand::DisableRawMode);
        self.pending.push(TermCommand::LeaveAltScreen);
        self.pending.push(TermCommand::DisableMouseCapture);
        self.pending.push(TermCommand::ShowCursor);
        proof {
            assert(self.pending@ =~= old(self).pending@ + seq![
                TermCommand::DisableRawMode,
                TermCommand::LeaveAltScreen,
                TermCommand::DisableMouseCapture,
                TermCommand::ShowCursor,
            ]);
        }
    }

    /// Physical-to-cell horizontal scale; zero for a character-cell device,
    /// where one cell is the atomic unit.
    pub fn cell_width(&self) -> (r: u32)
        ensures
            r == 0,
    {
        0
    }

    /// Physical-to-cell vertical scale; zero for a character-cell device.
    pub fn cell_height(&self) -> (r: u32)
        ensures
            r == 0,
    {
        0
    }

    /// Queue hiding the cursor.
    pub fn hide_cursor(&mut self) -> (r: Result<(), String>)
        ensures
            r is Ok,
            *final(self) == (CrosstermAdapter { pending: final(self).pending, ..*old(self) }),
            final(self).pending@ == old(self).pending@ + seq![TermCommand::HideCursor],
    {
        self.pending.push(TermCommand::HideCursor);
        proof {
            assert(self.pending@ =~= old(self).pending@ + seq![TermCommand::HideCursor]);
        }
        Ok(())
    }

    /// Queue showing the cursor.
    pub fn show_cursor(&mut self) -> (r: Result<(), String>)
        ensures
            r is Ok,
            *final(self) == (CrosstermAdapter { pending: final(self).pending, ..*old(self) }),
            final(self).pending@ == old(self).pending@ + seq![TermCommand::ShowCursor],
    {
        self.pending.push(TermCommand::ShowCursor);
        proof {
            assert(self.pending@ =~= old(self).pending@ + seq![TermCommand::ShowCursor]);
        }
        Ok(())
    }

    /// Queue a cursor move and track the position.
    pub fn set_cursor(&mut self, x: u16, y: u16) -> (r: Result<(), String>)
        ensures
            r is Ok,
            *final(self) == (CrosstermAdapter {
                cursor_pos: (x, y),
                pending: final(self).pending,
                ..*old(self)
            }),
            final(self).pending@ == old(self).pending@ + seq![TermCommand::MoveTo(x, y)],
    {
        self.cursor_pos = (x, y);
        self.pending.push(TermCommand::MoveTo(x, y));
        proof {
            assert(self.pending@ =~= old(self).pending@ + seq![TermCommand::MoveTo(x, y)]);
        }
        Ok(())
    }

    /// The cursor position as last set through this adapter.
    pub fn get_cursor(&self) -> (r: Result<(u16, u16), String>)
        ensures
            r == Ok::<(u16, u16), String>(self.cursor_pos),
    {
        Ok(self.cursor_pos)
    }

    /// The backend-shared state.
    pub fn get_base(&mut self) -> (r: &mut AdapterBase)
        ensures
            *r == old(self).base,
            *final(self) == (CrosstermAdapter { base: *final(r), ..*old(self) }),
    {
        &mut self.base
    }

    /// Hand the queued commands to the host, emptying the queue.
    pub fn drain_pending(&mut self) -> (r: Vec<TermCommand>)
        ensures
            r@ == old(self).pending@,
            *final(self) == (CrosstermAdapter { pending: final(self).pending, ..*old(self) }),
            final(self).pending@.len() == 0,
    {
        let mut out: Vec<TermCommand> = Vec::new();
        core::mem::swap(&mut out, &mut self.pending);
        out
    }

    /// Produce this frame's output.  During the splash phase the splash
    /// commands are queued (clearing the splash exactly on the last splash
    /// frame); afterwards, the minimal command stream for the changes
    /// between the previous and current frame, after which the current
    /// frame is copied into the previous one so the next diff starts from
    /// what was just written.
    #[verifier::rlimit(80)]
    pub fn render_buffer(&mut self, stage: u32) -> (r: Result<(), String>)
        requires
            old(self).wf(),
            old(self).base.state == AdapterState::Initialized || old(self).base.state
                == AdapterState::Running,
            old(self).base.cell_w > 0,
            old(self).base.cell_h > 0,
        ensures
            r is Ok,
            final(self).wf(),
            final(self).base.state == AdapterState::Running,
            final(self).base.cell_w == old(self).base.cell_w,
            final(self).base.cell_h == old(self).base.cell_h,
            final(self).term_width == old(self).term_width,
            final(self).term_height == old(self).term_height,
            final(self).base.game_name == old(self).base.game_name,
            final(self).base.title == old(self).base.title,
            final(self).base.current == old(self).base.current,
            stage <= LOGO_FRAME ==> {
                &&& final(self).pending@ == old(self).pending@ + spec_logo_cmds(
                    old(self).rd.seed,
                    old(self).base.cell_w,
                    old(self).base.cell_h,
                    stage,
                )
                &&& final(self).rd.seed == spec_seed4(old(self).rd.seed)
                &&& final(self).base.previous == old(self).base.previous
            },
            stage > LOGO_FRAME ==> {
                &&& final(self).pending@ == old(self).pending@ + spec_render_cmds(
                    spec_diff(
                        old(self).base.previous.cells@,
                        old(self).base.current.cells@,
                        old(self).base.cell_w as int,
                        0,
                    ),
                    0,
                    Color::Reset,
                    Color::Reset,
                    0,
                    None::<(u16, u16)>,
                )
                &&& final(self).base.previous.cells@ == old(self).base.current.cells@
                &&& final(self).rd == old(self).rd
            },
    {
        self.base.state = AdapterState::Running;
        let w = self.base.cell_w;
        let h = self.base.cell_h;
        if stage <= LOGO_FRAME {
            let r1 = self.rd.rand();
            let r2 = self.rd.rand();
            let r3 = self.rd.rand();
            let r4 = self.rd.rand();
            let x: u16 = w - ((r1 % (w as u32)) as u16);
            let y: u16 = h / 2;
            let cc = Color::Rgb((r2 & 0xFF) as u8, (r3 & 0xFF) as u8, (r4 & 0xFF) as u8);
            self.pending.push(TermCommand::MoveTo(0, y));
            self.pending.push(TermCommand::PrintRepeat(' ', w));
            self.pending.push(TermCommand::MoveTo(x, y));
            self.pending.push(TermCommand::SetFg(cc));
            self.pending.push(TermCommand::PrintLogo);
            if stage == LOGO_FRAME {
                self.pending.push(TermCommand::MoveTo(x, y));
                self.pending.push(TermCommand::PrintRepeat(' ', 33));
                self.pending.push(TermCommand::SetFg(Color::Rgb(192, 192, 192)));
            }
            proof {
                assert(self.pending@ =~= old(self).pending@ + spec_logo_cmds(
                    old(self).rd.seed,
                    w,
                    h,
                    stage,
                ));
            }
            return Ok(());
        }
        let recs = self.base.previous.diff(&self.base.current);
        let n = recs.len();
        let mut cmds: Vec<TermCommand> = Vec::new();
        let mut fg = Color::Reset;
        let mut bg = Color::Reset;
        let mut modifier: u16 = 0;
        let mut last: Option<(u16, u16)> = None;
        let mut k: usize = 0;
        while k < n
            invariant
                n == recs@.len(),
                k <= n,
                spec_render_cmds(recs@, 0, Color::Reset, Color::Reset, 0, None::<(u16, u16)>)
                    == cmds@ + spec_render_cmds(recs@, k as int, fg, bg, modifier, last),
            decreases n - k,
        {
            let ghost pre_cmds = cmds@;
            let ghost fg0 = fg;
            let ghost bg0 = bg;
            let ghost mod0 = modifier;
            let ghost last0 = last;
            let rec = recs[k];
            let adjacent = match last {
                Some(p) => (rec.x as u32) == (p.0 as u32) + 1 && rec.y == p.1,
                None => false,
            };
            if !adjacent {
                cmds.push(TermCommand::MoveTo(rec.x, rec.y));
            }
            let ghost c1 = cmds@;
            if rec.cell.modifier != modifier {
                push_modifier_diff(&mut cmds, modifier, rec.cell.modifier);
                modifier = rec.cell.modifier;
            }
            let ghost c2 = cmds@;
            if rec.cell.fg != fg {
                cmds.push(TermCommand::SetFg(rec.cell.fg));
                fg = rec.cell.fg;
            }
            let ghost c3 = cmds@;
            if rec.cell.bg != bg {
                cmds.push(TermCommand::SetBg(rec.cell.bg));
                bg = rec.cell.bg;
            }
            cmds.push(TermCommand::Print(rec.cell.symbol));
            last = Some((rec.x, rec.y));
            proof {
                let move_part = if (last0 matches Some(p) && rec.x == p.0 + 1 && rec.y == p.1) {
                    Seq::<TermCommand>::empty()
                } else {
                    seq![TermCommand::MoveTo(rec.x, rec.y)]
                };
                let mod_part = if rec.cell.modifier != mod0 {
                    spec_modifier_diff(mod0, rec.cell.modifier)
                } else {
                    Seq::<TermCommand>::empty()
                };
                let fg_part = if rec.cell.fg != fg0 {
                    seq![TermCommand::SetFg(rec.cell.fg)]
                } else {
                    Seq::<TermCommand>::empty()
                };
                let bg_part = if rec.cell.bg != bg0 {
                    seq![TermCommand::SetBg(rec.cell.bg)]
                } else {
                    Seq::<TermCommand>::empty()
                };
                assert(c1 =~= pre_cmds + move_part);
                assert(c2 =~= c1 + mod_part);
                assert(c3 =~= c2 + fg_part);
                assert(cmds@ =~= c3 + bg_part + seq![TermCommand::Print(rec.cell.symbol)]);
                assert(fg == rec.cell.fg && bg == rec.cell.bg && modifier == rec.cell.modifier);
                assert(spec_render_cmds(recs@, k as int, fg0, bg0, mod0, last0) == move_part
                    + mod_part + fg_part + bg_part + seq![TermCommand::Print(rec.cell.symbol)]
                    + spec_render_cmds(recs@, k as int + 1, fg, bg, modifier, last));
                assert(pre_cmds + spec_render_cmds(recs@, k as int, fg0, bg0, mod0, last0)
                    =~= cmds@ + spec_render_cmds(recs@, k as int + 1, fg, bg, modifier, last));
            }
            k = k + 1;
        }
        cmds.push(TermCommand::SetFg(Color::Reset));
        cmds.push(TermCommand::SetBg(Color::Reset));
        cmds.push(TermCommand::ResetAttr);
        proof {
            assert(spec_render_cmds(recs@, n as int, fg, bg, modifier, last) == seq![
                TermCommand::SetFg(Color::Reset),
                TermCommand::SetBg(Color::Reset),
                TermCommand::ResetAttr,
            ]);
            assert(cmds@ =~= spec_render_cmds(
                recs@,
                0,
                Color::Reset,
                Color::Reset,
                0,
                None::<(u16, u16)>,
            ));
        }
        self.pending.append(&mut cmds);
        proof {
            assert(self.pending@ =~= old(self).pending@ + spec_render_cmds(
                spec_diff(
                    old(self).base.previous.cells@,
                    old(self).base.current.cells@,
                    old(self).base.cell_w as int,
                    0,
                ),
                0,
                Color::Reset,
                Color::Reset,
                0,
                None::<(u16, u16)>,
            ));
        }
        let snapshot = &self.base.current;
        self.base.previous.copy_from(snapshot);
        Ok(())
    }
}

} // verus!

use crate::sprite::Sprite;
use crate::buffer::spec_blit_cells;

verus! {

impl CrosstermAdapter {
    /// Paint one sprite onto the current frame at the sprite's position.
    pub fn blit_sprite(&mut self, sprite: &Sprite)
        requires
            old(self).wf(),
            sprite.wf(),
        ensures
            final(self).wf(),
            *final(self) == (CrosstermAdapter {
                base: (AdapterBase { current: final(self).base.current, ..old(self).base }),
                ..*old(self)
            }),
            final(self).base.current.width == old(self).base.current.width,
            final(self).base.current.height == old(self).base.current.height,
            final(self).base.current.cells@ == spec_blit_cells(
                old(self).base.current.cells@,
                old(self).base.current.width as int,
                sprite.content.cells@,
                sprite.content.width as int,
                sprite.content.height as int,
                sprite.x as int,
                sprite.y as int,
            ),
    {
        self.base.current.blit_from(&sprite.content, sprite.x, sprite.y);
    }
}

/// The output backend in use, a closed set of variants chosen at process
/// start.  Every variant offers the same dispatch surface.
pub enum Adapter {
    Cross(CrosstermAdapter),
}

impl Adapter {
    /// The terminal backend behind this adapter.
    pub open spec fn cross(self) -> CrosstermAdapter {
        match self {
            Adapter::Cross(a) => a,
        }
    }

    pub open spec fn wf(self) -> bool {
        self.cross().wf()
    }

    /// A fresh, uninitialized terminal adapter.
    pub fn new_cross(gn: &str) -> (r: Adapter)
        ensures
            r.wf(),
            r.cross().base.state == AdapterState::Uninitialized,
            r.cross().base.game_name@ == gn@,
            r.cross().pending@.len() == 0,
    {
        Adapter::Cross(CrosstermAdapter::new(gn))
    }

    /// Record the physical display size the host measured.
    pub fn set_term_size(&mut self, w: u16, h: u16)
        ensures
            *final(self) == Adapter::Cross(
                CrosstermAdapter { term_width: w, term_height: h, ..old(self).cross() },
            ),
    {
        match self {
            Adapter::Cross(a) => a.set_term_size(w, h),
        }
    }

    /// Initialize the backend for a `w x h` cell grid; see
    /// `CrosstermAdapter::init`.
    pub fn init(&mut self, w: u16, h: u16, title: &str) -> (r: Result<(), String>)
        requires
            old(self).wf(),
            old(self).cross().base.state == AdapterState::Uninitialized,
            w > 0,
            h > 0,
        ensures
            final(self).wf(),
            r is Err <==> (w > old(self).cross().term_width || h > old(self).cross().term_height),
            r is Err ==> *final(self) == *old(self),
            r is Ok ==> final(self).cross().base.state == AdapterState::Initialized
                && final(self).cross().base.cell_w == w && final(self).cross().base.cell_h == h,
    {
        match self {
            Adapter::Cross(a) => a.init(w, h, title),
        }
    }

    /// Tear the backend down; idempotent.  See `CrosstermAdapter::reset`.
    pub fn reset(&mut self)
        ensures
            final(self).cross().base.state == AdapterState::Reset,
            old(self).cross().base.state == AdapterState::Reset ==> *final(self) == *old(self),
            final(self).cross().base.current == old(self).cross().base.current,
            final(self).cross().base.previous == old(self).cross().base.previous,
            final(self).cross().base.cell_w == old(self).cross().base.cell_w,
            final(self).cross().base.cell_h == old(self).cross().base.cell_h,
            old(self).wf() ==> final(self).wf(),
    {
        match self {
            Adapter::Cross(a) => a.reset(),
        }
    }

    /// The lifecycle state of the backend in use.
    pub fn cross_state(&self) -> (r: AdapterState)
        ensures
            r == self.cross().base.state,
    {
        match self {
            Adapter::Cross(a) => a.base.state,
        }
    }

    pub fn cell_width(&self) -> (r: u32)
        ensures
            r == 0,
    {
        match self {
            Adapter::Cross(a) => a.cell_width(),
        }
    }

    pub fn cell_height(&self) -> (r: u32)
        ensures
            r == 0,
    {
        match self {
            Adapter::Cross(a) => a.cell_height(),
        }
    }

    /// Hand the queued output commands to the host, emptying the queue.
    pub fn drain_pending(&mut self) -> (r: Vec<TermCommand>)
        ensures
            r@ == old(self).cross().pending@,
            final(self).cross().pending@.len() == 0,
            *final(self) == Adapter::Cross(
                CrosstermAdapter { pending: final(self).cross().pending, ..old(self).cross() },
            ),
    {
        match self {
            Adapter::Cross(a) => a.drain_pending(),
        }
    }
}

} // verus!
