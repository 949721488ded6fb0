//! Engine input events, and the event/timer bus: registries mapping named
//! events and named timers to consumer tags.  Emission marks a (name, tag)
//! pair pending; a check consumes the pending flag, so each emission is
//! observed at most once per registered tag.

use vstd::prelude::*;

verus! {

/// No modifier keys held.
pub const KEY_MODIFIERS_NONE: u16 = 0;

/// A key identity; printable keys carry their character.
#[derive(Clone, Copy, PartialEq, Eq, Structural, Debug)]
pub enum KeyCode {
    Char(char),
}

/// A keyboard input event.
#[derive(Clone, Copy, PartialEq, Eq, Structural, Debug)]
pub struct KeyEvent {
    pub code: KeyCode,
    pub modifiers: u16,
}

impl KeyEvent {
    pub fn new(code: KeyCode, modifiers: u16) -> (r: KeyEvent)
        ensures
            r.code == code,
            r.modifiers == modifiers,
    {
        KeyEvent { code, modifiers }
    }
}

#[derive(Clone, Copy, PartialEq, Eq, Structural, Debug)]
pub enum MouseButton {
    Left,
    Right,
    Middle,
}

#[derive(Clone, Copy, PartialEq, Eq, Structural, Debug)]
pub enum MouseEventKind {
    Down(MouseButton),
    Up(MouseButton),
    Drag(MouseButton),
    Moved,
}

/// A pointer input event.
#[derive(Clone, Copy, PartialEq, Eq, Structural, Debug)]
pub struct MouseEvent {
    pub kind: MouseEventKind,
    pub column: u16,
    pub row: u16,
    pub modifiers: u16,
}

/// An engine input event, as handed to the Model each frame.
#[derive(Debug)]
pub enum Event {
    Key(KeyEvent),
    Mouse(MouseEvent),
    Custom(String),
}

/// Largest accepted timer interval (in milliseconds), so that interval
/// arithmetic stays inside `u32`.
pub const MAX_TIMER_INTERVAL_MS: u32 = 0x7FFFFFFF;

/// Largest accepted per-tick elapsed time (in milliseconds).
pub const MAX_TICK_MS: u32 = 0x7FFFFFFF;

/// The mathematical state of one event registration.
pub ghost struct EventSlot {
    pub name: Seq<char>,
    pub tag: Seq<char>,
    pub pending: bool,
}

/// The mathematical state of one timer registration.
pub ghost struct TimerSlot {
    pub name: Seq<char>,
    pub tag: Seq<char>,
    pub interval: int,
    pub remaining: int,
    pub elapsed: int,
}

/// One event registration: a named event, the tag that consumes it, and
/// whether an emission is pending for that tag.
pub struct EventEntry {
    pub name: String,
    pub tag: String,
    pub pending: bool,
}

impl View for EventEntry {
    type V = EventSlot;

    open spec fn view(&self) -> EventSlot {
        EventSlot { name: self.name@, tag: self.tag@, pending: self.pending }
    }
}

/// One timer registration: a named timer firing every `interval_ms`
/// milliseconds into its consumer tag, with `remaining` armed firings.
pub struct TimerEntry {
    pub name: String,
    pub tag: String,
    pub interval_ms: u32,
    pub remaining: u8,
    pub elapsed_ms: u32,
}

impl View for TimerEntry {
    type V = TimerSlot;

    open spec fn view(&self) -> TimerSlot {
        TimerSlot {
            name: self.name@,
            tag: self.tag@,
            interval: self.interval_ms as int,
            remaining: self.remaining as int,
            elapsed: self.elapsed_ms as int,
        }
    }
}

/// Whether some registration binds (`name`, `tag`).
pub open spec fn spec_evt_registered(m: Seq<EventSlot>, name: Seq<char>, tag: Seq<char>) -> bool {
    exists|i: int| 0 <= i < m.len() && m[i].name == name && m[i].tag == tag
}

/// Whether an emission of `name` is pending for `tag`.
pub open spec fn spec_evt_pending(m: Seq<EventSlot>, name: Seq<char>, tag: Seq<char>) -> bool {
    exists|i: int| 0 <= i < m.len() && m[i].name == name && m[i].tag == tag && m[i].pending
}

/// The registry after `event_emit(name)`: every registration of `name`
/// becomes pending.
pub open spec fn spec_emit(m: Seq<EventSlot>, name: Seq<char>) -> Seq<EventSlot> {
    m.map(
        |i: int, e: EventSlot|
            EventSlot { pending: e.pending || e.name == name, ..e },
    )
}

/// The registry after a consuming `event_check(name, tag)`: the pending flag
/// of that one pair is cleared.
pub open spec fn spec_consume(m: Seq<EventSlot>, name: Seq<char>, tag: Seq<char>) -> Seq<
    EventSlot,
> {
    m.map(
        |i: int, e: EventSlot|
            if e.name == name && e.tag == tag {
                EventSlot { pending: false, ..e }
            } else {
                e
            },
    )
}

/// The registry after a timer emission to (`name`, `tag`): the pair becomes
/// pending, registered on the fly if it was not.
pub open spec fn spec_emit_to(m: Seq<EventSlot>, name: Seq<char>, tag: Seq<char>) -> Seq<
    EventSlot,
> {
    if spec_evt_registered(m, name, tag) {
        m.map(
            |i: int, e: EventSlot|
                if e.name == name && e.tag == tag {
                    EventSlot { pending: true, ..e }
                } else {
                    e
                },
        )
    } else {
        m.push(EventSlot { name: name, tag: tag, pending: true })
    }
}

/// How many times a timer fires when `dt` elapses: none when unarmed, the
/// whole arming at once for a zero interval, otherwise one firing per full
/// interval crossed, capped by the armed count.
pub open spec fn spec_timer_fires(t: TimerSlot, dt: int) -> int {
    if t.remaining <= 0 {
        0
    } else if t.interval <= 0 {
        t.remaining
    } else {
        let f = (t.elapsed + dt) / t.interval;
        if f <= t.remaining {
            f
        } else {
            t.remaining
        }
    }
}

/// One timer after `dt` elapses: unarmed timers are skipped; a timer whose
/// firings are exhausted is disarmed with its clock cleared; otherwise the
/// leftover time below one interval is carried over.
pub open spec fn spec_timer_step(t: TimerSlot, dt: int) -> TimerSlot {
    if t.remaining <= 0 {
        t
    } else {
        let f = spec_timer_fires(t, dt);
        if f >= t.remaining {
            TimerSlot { remaining: 0, elapsed: 0, ..t }
        } else {
            TimerSlot { remaining: t.remaining - f, elapsed: t.elapsed + dt - f * t.interval, ..t }
        }
    }
}

/// The event registry after every timer in `tms[i..]` has delivered its
/// firings for this tick: each timer that fires at least once marks its
/// (name, tag) pair pending.
pub open spec fn spec_fold_emits(
    m: Seq<EventSlot>,
    tms: Seq<TimerSlot>,
    dt: int,
    i: int,
) -> Seq<EventSlot>
    decreases tms.len() - i,
{
    if i < 0 || i >= tms.len() {
        m
    } else {
        let m2 = if spec_timer_fires(tms[i], dt) > 0 {
            spec_emit_to(m, tms[i].name, tms[i].tag)
        } else {
            m
        };
        spec_fold_emits(m2, tms, dt, i + 1)
    }
}

/// Re-flagging entries keeps registrations unique: uniqueness of
/// (name, tag) pairs only depends on the names and tags.
proof fn lemma_uniqueness_preserved(m1: Seq<EventSlot>, m2: Seq<EventSlot>)
    requires
        m1.len() == m2.len(),
        forall|i: int| 0 <= i < m1.len() ==> #[trigger] m2[i].name == m1[i].name && m2[i].tag
            == m1[i].tag,
        forall|i: int, j: int|
            0 <= i < j < m1.len() ==> !(m1[i].name == m1[j].name && m1[i].tag == m1[j].tag),
    ensures
        forall|i: int, j: int|
            0 <= i < j < m2.len() ==> !(m2[i].name == m2[j].name && m2[i].tag == m2[j].tag),
{
    assert forall|i: int, j: int| 0 <= i < j < m2.len() implies !(m2[i].name == m2[j].name
        && m2[i].tag == m2[j].tag) by {
        assert(m2[i].name == m1[i].name && m2[i].tag == m1[i].tag);
        assert(m2[j].name == m1[j].name && m2[j].tag == m1[j].tag);
    }
}

/// Whether a timer named `name` exists.
pub open spec fn spec_timer_registered(tms: Seq<TimerSlot>, name: Seq<char>) -> bool {
    exists|i: int| 0 <= i < tms.len() && tms[i].name == name
}

/// One timer after `timer_fire(name, count)`: a timer of that name is armed
/// for `count` additional firings (saturating at the capacity of the
/// counter); other timers are untouched.
pub open spec fn spec_fire(t: TimerSlot, name: Seq<char>, count: int) -> TimerSlot {
    if t.name == name {
        TimerSlot {
            remaining: if t.remaining + count > 255 {
                255
            } else {
                t.remaining + count
            },
            ..t
        }
    } else {
        t
    }
}

/// The process-wide event/timer bus.  Exactly one lives per running game,
/// owned by its `Context`.
pub struct EventBus {
    pub events: Vec<EventEntry>,
    pub timers: Vec<TimerEntry>,
}

impl EventBus {
    /// The mathematical view of the event registry.
    pub open spec fn evts(self) -> Seq<EventSlot> {
        self.events@.map(|i: int, e: EventEntry| e@)
    }

    /// The mathematical view of the timer registry.
    pub open spec fn tms(self) -> Seq<TimerSlot> {
        self.timers@.map(|i: int, t: TimerEntry| t@)
    }

    /// The bus invariant: registrations are unique and every timer's clock
    /// sits below its interval (or at zero for a zero interval), with the
    /// interval small enough for `u32` arithmetic.
    pub open spec fn wf(self) -> bool {
        &&& forall|i: int, j: int|
            0 <= i < j < self.evts().len() ==> !(self.evts()[i].name == self.evts()[j].name
                && self.evts()[i].tag == self.evts()[j].tag)
        &&& forall|i: int, j: int|
            0 <= i < j < self.tms().len() ==> self.tms()[i].name != self.tms()[j].name
        &&& forall|i: int|
            0 <= i < self.tms().len() ==> {
                &&& self.tms()[i].interval <= MAX_TIMER_INTERVAL_MS
                &&& (self.tms()[i].interval > 0 ==> self.tms()[i].elapsed < self.tms()[i].interval)
                &&& (self.tms()[i].interval == 0 ==> self.tms()[i].elapsed == 0)
            }
    }

    /// An empty bus.
    pub fn new() -> (r: EventBus)
        ensures
            r.evts().len() == 0,
            r.tms().len() == 0,
            r.wf(),
    {
        let r = EventBus { events: Vec::new(), timers: Vec::new() };
        proof {
            assert(r.evts() =~= Seq::<EventSlot>::empty());
            assert(r.tms() =~= Seq::<TimerSlot>::empty());
        }
        r
    }

    /// Index of the registration binding (`name`, `tag`), if any.
    fn find_event(&self, name: &String, tag: &String) -> (r: Option<usize>)
        ensures
            match r {
                Some(i) => i < self.evts().len() && self.evts()[i as int].name == name@
                    && self.evts()[i as int].tag == tag@,
                None => !spec_evt_registered(self.evts(), name@, tag@),
            },
    {
        let n = self.events.len();
        let mut i: usize = 0;
        while i < n
            invariant
                n == self.events@.len(),
                i <= n,
                forall|j: int|
                    0 <= j < i ==> !(self.evts()[j].name == name@ && self.evts()[j].tag == tag@),
            decreases n - i,
        {
            if self.events[i].name == *name && self.events[i].tag == *tag {
                return Some(i);
            }
            i = i + 1;
        }
        None
    }

    /// Register (`name`, `tag`).  Idempotent: an existing binding is kept
    /// untouched, with its pending flag intact.
    pub fn event_register(&mut self, name: &str, tag: &str)
        requires
            old(self).wf(),
        ensures
            final(self).wf(),
            final(self).tms() == old(self).tms(),
            spec_evt_registered(final(self).evts(), name@, tag@),
            spec_evt_registered(old(self).evts(), name@, tag@) ==> *final(self) == *old(self),
            !spec_evt_registered(old(self).evts(), name@, tag@) ==> final(self).evts() == old(
                self,
            ).evts().push(EventSlot { name: name@, tag: tag@, pending: false }),
    {
        let name_s: String = name.to_owned();
        let tag_s: String = tag.to_owned();
        match self.find_event(&name_s, &tag_s) {
            Some(i) => {
                proof {
                    assert(spec_evt_registered(self.evts(), name@, tag@));
                    assert(self.tms() =~= old(self).tms());
                }
            },
            None => {
                self.events.push(EventEntry { name: name_s, tag: tag_s, pending: false });
                proof {
                    assert(self.evts() =~= old(self).evts().push(
                        EventSlot { name: name@, tag: tag@, pending: false },
                    ));
                    let k = self.evts().len() - 1;
                    assert(self.evts()[k].name == name@ && self.evts()[k].tag == tag@);
                    assert forall|a: int, b: int| 0 <= a < b < self.evts().len() implies !(
                        self.evts()[a].name == self.evts()[b].name && self.evts()[a].tag
                            == self.evts()[b].tag
                    ) by {
                        if b == k {
                            assert(self.evts()[a] == old(self).evts()[a]);
                            assert(!(old(self).evts()[a].name == name@ && old(self).evts()[a].tag
                                == tag@));
                        } else {
                            assert(self.evts()[a] == old(self).evts()[a]);
                            assert(self.evts()[b] == old(self).evts()[b]);
                        }
                    }
                    assert(self.timers == old(self).timers);
                    assert(self.tms() =~= old(self).tms());
                    assert(self.wf());
                }
            },
        }
    }

    /// Mark `name` pending for every tag registered under it.
    pub fn event_emit(&mut self, name: &str)
        requires
            old(self).wf(),
        ensures
            final(self).wf(),
            final(self).tms() == old(self).tms(),
            final(self).evts() == spec_emit(old(self).evts(), name@),
    {
        let name_s: String = name.to_owned();
        let n = self.events.len();
        let mut i: usize = 0;
        while i < n
            invariant
                n == self.events@.len(),
                n == old(self).events@.len(),
                name_s@ == name@,
                i <= n,
                self.tms() == old(self).tms(),
                forall|j: int| i <= j < n ==> self.evts()[j] == old(self).evts()[j],
                forall|j: int|
                    0 <= j < i ==> self.evts()[j] == (EventSlot {
                        pending: old(self).evts()[j].pending || old(self).evts()[j].name == name@,
                        ..old(self).evts()[j]
                    }),
            decreases n - i,
        {
            let ghost pre = *self;
            let matched = self.events[i].name == name_s;
            if matched {
                let e_name = self.events[i].name.clone();
                let e_tag = self.events[i].tag.clone();
                self.events.set(i, EventEntry { name: e_name, tag: e_tag, pending: true });
            }
            proof {
                assert(pre.evts()[i as int] == old(self).evts()[i as int]);
                if matched {
                    assert(old(self).evts()[i as int].name == name@);
                    assert(self.events@ == pre.events@.update(
                        i as int,
                        self.events@[i as int],
                    ));
                    assert(self.evts()[i as int] == (EventSlot {
                        pending: true,
                        ..old(self).evts()[i as int]
                    }));
                } else {
                    assert(old(self).evts()[i as int].name != name@);
                    assert(self.evts()[i as int] == old(self).evts()[i as int]);
                }
                assert forall|j: int| 0 <= j < i as int + 1 implies self.evts()[j] == (EventSlot {
                    pending: old(self).evts()[j].pending || old(self).evts()[j].name == name@,
                    ..old(self).evts()[j]
                }) by {
                    if j < i as int {
                        assert(self.events@[j] == pre.events@[j]);
                        assert(pre.evts()[j] == (EventSlot {
                            pending: old(self).evts()[j].pending || old(self).evts()[j].name
                                == name@,
                            ..old(self).evts()[j]
                        }));
                    }
                }
                assert forall|j: int| i as int + 1 <= j < n implies self.evts()[j] == old(
                    self,
                ).evts()[j] by {
                    assert(self.events@[j] == pre.events@[j]);
                    assert(pre.evts()[j] == old(self).evts()[j]);
                }
            }
            i = i + 1;
        }
        proof {
            assert(self.evts() =~= spec_emit(old(self).evts(), name@));
            assert forall|j: int| 0 <= j < self.evts().len() implies #[trigger] self.evts()[j].name
                == old(self).evts()[j].name && self.evts()[j].tag == old(self).evts()[j].tag by {
                assert(self.evts()[j] == spec_emit(old(self).evts(), name@)[j]);
            }
            lemma_uniqueness_preserved(old(self).evts(), self.evts());
        }
    }

    /// Whether (`name`, `tag`) is pending; a true answer consumes the
    /// pending flag, so each emission is observed at most once.  An
    /// unregistered pair reports nothing pending.
    pub fn event_check(&mut self, name: &str, tag: &str) -> (r: bool)
        requires
            old(self).wf(),
        ensures
            final(self).wf(),
            final(self).tms() == old(self).tms(),
            r == spec_evt_pending(old(self).evts(), name@, tag@),
            final(self).evts() == spec_consume(old(self).evts(), name@, tag@),
    {
        let name_s: String = name.to_owned();
        let tag_s: String = tag.to_owned();
        let mut r = false;
        match self.find_event(&name_s, &tag_s) {
            Some(i) => {
                r = self.events[i].pending;
                let e_name = self.events[i].name.clone();
                let e_tag = self.events[i].tag.clone();
                self.events.set(i, EventEntry { name: e_name, tag: e_tag, pending: false });
                proof {
                    let oe = old(self).evts();
                    if r {
                        assert(spec_evt_pending(oe, name@, tag@));
                    } else {
                        assert forall|j: int|
                            0 <= j < oe.len() && oe[j].name == name@ && oe[j].tag == tag@ implies
                            !oe[j].pending by {
                            if j < i as int {
                                assert(!(oe[j].name == oe[i as int].name && oe[j].tag == oe[
                                    i as int
                                ].tag));
                            } else if j > i as int {
                                assert(!(oe[i as int].name == oe[j].name && oe[i as int].tag
                                    == oe[j].tag));
                            }
                        }
                    }
                    assert(self.evts() =~= spec_consume(oe, name@, tag@));
                    assert forall|j: int| 0 <= j < self.evts().len() implies #[trigger] self.evts()[
                        j
                    ].name == oe[j].name && self.evts()[j].tag == oe[j].tag by {
                        assert(self.evts()[j] == spec_consume(oe, name@, tag@)[j]);
                    }
                    lemma_uniqueness_preserved(oe, self.evts());
                    assert(self.tms() =~= old(self).tms());
                    assert(self.wf());
                }
            },
            None => {
                proof {
                    let oe = old(self).evts();
                    if spec_evt_pending(oe, name@, tag@) {
                        let j = choose|j: int|
                            0 <= j < oe.len() && oe[j].name == name@ && oe[j].tag == tag@
                                && oe[j].pending;
                        assert(spec_evt_registered(oe, name@, tag@));
                    }
                    assert(self.evts() =~= spec_consume(oe, name@, tag@));
                    assert forall|j: int| 0 <= j < self.evts().len() implies #[trigger] self.evts()[
                        j
                    ].name == oe[j].name && self.evts()[j].tag == oe[j].tag by {
                        assert(self.evts()[j] == spec_consume(oe, name@, tag@)[j]);
                    }
                    lemma_uniqueness_preserved(oe, self.evts());
                    assert(self.tms() =~= old(self).tms());
                    assert(self.wf());
                }
            },
        }
        r
    }

    /// Index of the timer named `name`, if any.
    fn find_timer(&self, name: &String) -> (r: Option<usize>)
        ensures
            match r {
                Some(i) => i < self.tms().len() && self.tms()[i as int].name == name@,
                None => !spec_timer_registered(self.tms(), name@),
            },
    {
        let n = self.timers.len();
        let mut i: usize = 0;
        while i < n
            invariant
                n == self.timers@.len(),
                i <= n,
                forall|j: int| 0 <= j < i ==> self.tms()[j].name != name@,
            decreases n - i,
        {
            if self.timers[i].name == *name {
                return Some(i);
            }
            i = i + 1;
        }
        None
    }

    /// Register a named timer with its interval and consumer tag.  The new
    /// timer is inert (zero remaining firings) until `timer_fire` arms it;
    /// an already registered name is kept untouched.
    pub fn timer_register(&mut self, name: &str, interval_ms: u32, tag: &str)
        requires
            old(self).wf(),
            interval_ms <= MAX_TIMER_INTERVAL_MS,
        ensures
            final(self).wf(),
            final(self).evts() == old(self).evts(),
            spec_timer_registered(old(self).tms(), name@) ==> final(self).tms() == old(
                self,
            ).tms(),
            !spec_timer_registered(old(self).tms(), name@) ==> final(self).tms() == old(
                self,
            ).tms().push(
                TimerSlot { name: name@, tag: tag@, interval: interval_ms as int, remaining: 0, elapsed: 0 },
            ),
    {
        let name_s: String = name.to_owned();
        let tag_s: String = tag.to_owned();
        match self.find_timer(&name_s) {
            Some(i) => {
                proof {
                    assert(spec_timer_registered(self.tms(), name@));
                }
            },
            None => {
                self.timers.push(
                    TimerEntry {
                        name: name_s,
                        tag: tag_s,
                        interval_ms,
                        remaining: 0,
                        elapsed_ms: 0,
                    },
                );
                proof {
                    assert(self.tms() =~= old(self).tms().push(
                        TimerSlot {
                            name: name@,
                            tag: tag@,
                            interval: interval_ms as int,
                            remaining: 0,
                            elapsed: 0,
                        },
                    ));
                    let k = self.tms().len() - 1;
                    assert forall|a: int, b: int| 0 <= a < b < self.tms().len() implies self.tms()[
                        a
                    ].name != self.tms()[b].name by {
                        if b == k {
                            assert(self.tms()[a] == old(self).tms()[a]);
                            assert(old(self).tms()[a].name != name@);
                        } else {
                            assert(self.tms()[a] == old(self).tms()[a]);
                            assert(self.tms()[b] == old(self).tms()[b]);
                        }
                    }
                    assert(self.evts() =~= old(self).evts());
                    assert(self.wf());
                }
            },
        }
    }

    /// Arm the timer named `name` for `count` additional firings.  An
    /// unregistered name is a silent no-op.
    pub fn timer_fire(&mut self, name: &str, count: u8)
        requires
            old(self).wf(),
        ensures
            final(self).wf(),
            final(self).evts() == old(self).evts(),
            final(self).tms() == old(self).tms().map(
                |i: int, t: TimerSlot| spec_fire(t, name@, count as int),
            ),
    {
        let name_s: String = name.to_owned();
        let n = self.timers.len();
        let mut i: usize = 0;
        while i < n
            invariant
                n == self.timers@.len(),
                n == old(self).timers@.len(),
                name_s@ == name@,
                i <= n,
                self.evts() == old(self).evts(),
                self.wf(),
                forall|j: int| i <= j < n ==> self.tms()[j] == old(self).tms()[j],
                forall|j: int|
                    0 <= j < i ==> self.tms()[j] == spec_fire(old(self).tms()[j], name@, count as int),
            decreases n - i,
        {
            let ghost pre = *self;
            let matched = self.timers[i].name == name_s;
            if matched {
                let e_name = self.timers[i].name.clone();
                let e_tag = self.timers[i].tag.clone();
                let interval_ms = self.timers[i].interval_ms;
                let rem = self.timers[i].remaining;
                let elapsed_ms = self.timers[i].elapsed_ms;
                let nr: u8 = if count > 255 - rem {
                    255
                } else {
                    rem + count
                };
                self.timers.set(
                    i,
                    TimerEntry { name: e_name, tag: e_tag, interval_ms, remaining: nr, elapsed_ms },
                );
            }
            proof {
                assert(pre.tms()[i as int] == old(self).tms()[i as int]);
                assert(self.tms()[i as int] == spec_fire(
                    old(self).tms()[i as int],
                    name@,
                    count as int,
                ));
                assert forall|j: int| 0 <= j < i as int + 1 implies self.tms()[j] == spec_fire(
                    old(self).tms()[j],
                    name@,
                    count as int,
                ) by {
                    if j < i as int {
                        assert(self.timers@[j] == pre.timers@[j]);
                        assert(pre.tms()[j] == spec_fire(old(self).tms()[j], name@, count as int));
                    }
                }
                assert forall|j: int| i as int + 1 <= j < n implies self.tms()[j] == old(
                    self,
                ).tms()[j] by {
                    assert(self.timers@[j] == pre.timers@[j]);
                    assert(pre.tms()[j] == old(self).tms()[j]);
                }
                assert(self.evts() =~= old(self).evts());
                assert forall|a: int, b: int| 0 <= a < b < self.tms().len() implies self.tms()[
                    a
                ].name != self.tms()[b].name by {
                    assert(self.tms()[a].name == pre.tms()[a].name);
                    assert(self.tms()[b].name == pre.tms()[b].name);
                }
                assert forall|j: int| 0 <= j < n implies #[trigger] self.tms()[j].interval
                    == pre.tms()[j].interval && self.tms()[j].elapsed == pre.tms()[j].elapsed by {
                    if j != i as int {
                        assert(self.timers@[j] == pre.timers@[j]);
                    }
                }
                assert(self.wf());
            }
            i = i + 1;
        }
        proof {
            assert(self.tms() =~= old(self).tms().map(
                |i: int, t: TimerSlot| spec_fire(t, name@, count as int),
            ));
        }
    }

    /// Deliver one timer firing: mark (`name`, `tag`) pending, registering
    /// the pair on the fly if needed.
    fn emit_pair(&mut self, name: String, tag: String)
        requires
            old(self).wf(),
        ensures
            final(self).wf(),
            final(self).tms() == old(self).tms(),
            final(self).evts() == spec_emit_to(old(self).evts(), name@, tag@),
    {
        match self.find_event(&name, &tag) {
            Some(i) => {
                let e_name = self.events[i].name.clone();
                let e_tag = self.events[i].tag.clone();
                self.events.set(i, EventEntry { name: e_name, tag: e_tag, pending: true });
                proof {
                    let oe = old(self).evts();
                    assert(spec_evt_registered(oe, name@, tag@));
                    assert forall|j: int| 0 <= j < oe.len() implies #[trigger] self.evts()[j]
                        == spec_emit_to(oe, name@, tag@)[j] by {
                        if j != i as int {
                            assert(self.events@[j] == old(self).events@[j]);
                            assert(!(oe[j].name == name@ && oe[j].tag == tag@) || j == i as int)
                                by {
                                if j < i as int {
                                    assert(!(oe[j].name == oe[i as int].name && oe[j].tag == oe[
                                        i as int
                                    ].tag));
                                } else {
                                    assert(!(oe[i as int].name == oe[j].name && oe[i as int].tag
                                        == oe[j].tag));
                                }
                            }
                        }
                    }
                    assert(self.evts() =~= spec_emit_to(oe, name@, tag@));
                    assert forall|j: int| 0 <= j < self.evts().len() implies #[trigger] self.evts()[
                        j
                    ].name == oe[j].name && self.evts()[j].tag == oe[j].tag by {
                        assert(self.evts()[j] == spec_emit_to(oe, name@, tag@)[j]);
                    }
                    lemma_uniqueness_preserved(oe, self.evts());
                    assert(self.tms() =~= old(self).tms());
                    assert(self.wf());
                }
            },
            None => {
                self.events.push(EventEntry { name, tag, pending: true });
                proof {
                    let oe = old(self).evts();
                    assert(self.evts() =~= oe.push(
                        EventSlot { name: name@, tag: tag@, pending: true },
                    ));
                    let k = self.evts().len() - 1;
                    assert forall|a: int, b: int| 0 <= a < b < self.evts().len() implies !(
                        self.evts()[a].name == self.evts()[b].name && self.evts()[a].tag
                            == self.evts()[b].tag
                    ) by {
                        if b == k {
                            assert(self.evts()[a] == oe[a]);
                            assert(!(oe[a].name == name@ && oe[a].tag == tag@));
                        } else {
                            assert(self.evts()[a] == oe[a]);
                            assert(self.evts()[b] == oe[b]);
                        }
                    }
                    assert(self.tms() =~= old(self).tms());
                    assert(self.wf());
                }
            },
        }
    }

    /// Advance every armed timer by this tick's elapsed time, delivering the
    /// firings that fall due as pending emissions to each timer's consumer
    /// tag.  Called once per tick, before any Model hook runs.
    pub fn timer_update(&mut self, dt: u32)
        requires
            old(self).wf(),
            dt <= MAX_TICK_MS,
        ensures
            final(self).wf(),
            final(self).tms() == old(self).tms().map(
                |i: int, t: TimerSlot| spec_timer_step(t, dt as int),
            ),
            final(self).evts() == spec_fold_emits(old(self).evts(), old(self).tms(), dt as int, 0),
    {
        let n = self.timers.len();
        let ghost dti = dt as int;
        let mut ti: usize = 0;
        while ti < n
            invariant
                n == self.timers@.len(),
                n == old(self).timers@.len(),
                dti == dt as int,
                dt <= MAX_TICK_MS,
                ti <= n,
                self.wf(),
                old(self).wf(),
                forall|j: int| ti <= j < n ==> self.tms()[j] == old(self).tms()[j],
                forall|j: int|
                    0 <= j < ti ==> self.tms()[j] == spec_timer_step(old(self).tms()[j], dti),
                spec_fold_emits(self.evts(), old(self).tms(), dti, ti as int) == spec_fold_emits(
                    old(self).evts(),
                    old(self).tms(),
                    dti,
                    0,
                ),
            decreases n - ti,
        {
            let ghost pre = *self;
            let ghost t0 = old(self).tms()[ti as int];
            proof {
                assert(spec_fold_emits(pre.evts(), old(self).tms(), dti, ti as int) == {
                    let m2 = if spec_timer_fires(t0, dti) > 0 {
                        spec_emit_to(pre.evts(), t0.name, t0.tag)
                    } else {
                        pre.evts()
                    };
                    spec_fold_emits(m2, old(self).tms(), dti, ti as int + 1)
                });
            }
            let interval = self.timers[ti].interval_ms;
            let rem = self.timers[ti].remaining;
            let elapsed = self.timers[ti].elapsed_ms;
            if rem > 0 {
                let name_c = self.timers[ti].name.clone();
                let tag_c = self.timers[ti].tag.clone();
                let e2: u32 = elapsed + dt;
                let f: u32 = if interval == 0 {
                    rem as u32
                } else {
                    let q = e2 / interval;
                    if q < rem as u32 {
                        q
                    } else {
                        rem as u32
                    }
                };
                proof {
                    assert(f as int == spec_timer_fires(t0, dti));
                }
                if f > 0 {
                    self.emit_pair(name_c, tag_c);
                }
                let ghost mid = *self;
                proof {
                    assert(mid.tms() == pre.tms());
                    assert(mid.tms()[ti as int] == t0);
                }
                let name2 = self.timers[ti].name.clone();
                let tag2 = self.timers[ti].tag.clone();
                let nr: u8;
                let ne: u32;
                if f >= rem as u32 {
                    nr = 0;
                    ne = 0;
                } else {
                    proof {
                        assert(interval > 0);
                        assert(f == e2 / interval);
                        vstd::arithmetic::div_mod::lemma_fundamental_div_mod(
                            e2 as int,
                            interval as int,
                        );
                        vstd::arithmetic::div_mod::lemma_mod_bound(e2 as int, interval as int);
                        assert((f as int) * (interval as int) == (interval as int) * (f as int))
                            by (nonlinear_arith);
                        assert((f as int) * (interval as int) <= e2 as int);
                    }
                    nr = (rem as u32 - f) as u8;
                    ne = e2 - f * interval;
                }
                self.timers.set(
                    ti,
                    TimerEntry {
                        name: name2,
                        tag: tag2,
                        interval_ms: interval,
                        remaining: nr,
                        elapsed_ms: ne,
                    },
                );
                proof {
                    assert(self.tms()[ti as int] == spec_timer_step(t0, dti));
                    assert forall|j: int| 0 <= j < n && j != ti as int implies #[trigger] self.tms()[
                        j
                    ] == pre.tms()[j] by {
                        assert(self.timers@[j] == mid.timers@[j]);
                        assert(self.tms()[j] == mid.tms()[j]);
                    }
                }
            } else {
                proof {
                    assert(self.tms()[ti as int] == spec_timer_step(t0, dti));
                    assert(spec_timer_fires(t0, dti) == 0);
                    assert forall|j: int| 0 <= j < n && j != ti as int implies #[trigger] self.tms()[
                        j
                    ] == pre.tms()[j] by {
                        assert(self.timers@[j] == pre.timers@[j]);
                    }
                }
            }
            proof {
                assert forall|j: int| 0 <= j < ti as int + 1 implies self.tms()[j]
                    == spec_timer_step(old(self).tms()[j], dti) by {
                    if j < ti as int {
                        assert(self.tms()[j] == pre.tms()[j]);
                        assert(pre.tms()[j] == spec_timer_step(old(self).tms()[j], dti));
                    }
                }
                assert forall|j: int| ti as int + 1 <= j < n implies self.tms()[j] == old(
                    self,
                ).tms()[j] by {
                    assert(self.tms()[j] == pre.tms()[j]);
                    assert(pre.tms()[j] == old(self).tms()[j]);
                }
                assert forall|a: int, b: int| 0 <= a < b < self.tms().len() implies self.tms()[
                    a
                ].name != self.tms()[b].name by {
                    if a != ti as int {
                        assert(self.tms()[a] == pre.tms()[a]);
                    }
                    if b != ti as int {
                        assert(self.tms()[b] == pre.tms()[b]);
                    }
                    assert(self.tms()[ti as int].name == pre.tms()[ti as int].name);
                }
                assert(self.wf());
                assert(spec_fold_emits(self.evts(), old(self).tms(), dti, ti as int + 1)
                    == spec_fold_emits(old(self).evts(), old(self).tms(), dti, 0));
            }
            ti = ti + 1;
        }
        proof {
            assert(self.tms() =~= old(self).tms().map(
                |i: int, t: TimerSlot| spec_timer_step(t, dti),
            ));
            assert(spec_fold_emits(self.evts(), old(self).tms(), dti, n as int) == self.evts());
        }
    }
}

} // verus!

verus! {

/// Consume-once: after an emission of `name`, a registered (`name`, `tag`)
/// pair is seen pending by the first check, and no longer pending once that
/// check has consumed it — so each emission is observed at most once per
/// registered tag.
pub proof fn lemma_event_consume_once(m: Seq<EventSlot>, name: Seq<char>, tag: Seq<char>)
    requires
        spec_evt_registered(m, name, tag),
    ensures
        spec_evt_pending(spec_emit(m, name), name, tag),
        !spec_evt_pending(spec_consume(spec_emit(m, name), name, tag), name, tag),
{
    let i = choose|i: int| 0 <= i < m.len() && m[i].name == name && m[i].tag == tag;
    assert(spec_emit(m, name)[i] == (EventSlot { pending: m[i].pending || m[i].name == name, ..m[i] }));
    assert(spec_evt_pending(spec_emit(m, name), name, tag));
    let c = spec_consume(spec_emit(m, name), name, tag);
    assert forall|j: int| 0 <= j < c.len() && c[j].name == name && c[j].tag == tag implies !c[
        j
    ].pending by {
        let e = spec_emit(m, name)[j];
        if e.name == name && e.tag == tag {
            assert(c[j] == (EventSlot { pending: false, ..e }));
        } else {
            assert(c[j] == e);
        }
    }
}

/// Total elapsed time of a sequence of ticks.
pub open spec fn seq_sum(dts: Seq<int>) -> int
    decreases dts.len(),
{
    if dts.len() == 0 {
        0
    } else {
        dts[0] + seq_sum(dts.drop_first())
    }
}

/// How often one timer fires over a whole sequence of updates.
pub open spec fn spec_timer_run_fires(t: TimerSlot, dts: Seq<int>) -> int
    decreases dts.len(),
{
    if dts.len() == 0 {
        0
    } else {
        spec_timer_fires(t, dts[0]) + spec_timer_run_fires(
            spec_timer_step(t, dts[0]),
            dts.drop_first(),
        )
    }
}

/// A sum of nonnegative ticks is nonnegative.
proof fn lemma_seq_sum_nonneg(dts: Seq<int>)
    requires
        forall|k: int| 0 <= k < dts.len() ==> dts[k] >= 0,
    ensures
        seq_sum(dts) >= 0,
    decreases dts.len(),
{
    if dts.len() > 0 {
        lemma_seq_sum_nonneg(dts.drop_first());
    }
}

/// Timer firing count: a timer armed for `remaining` firings with a positive
/// interval and a fresh clock, advanced by any nonnegative ticks totalling
/// `S`, fires exactly `min(remaining, S / interval)` times — one firing per
/// full interval crossed, and never more than it was armed for.
pub proof fn lemma_timer_firing_count(t: TimerSlot, dts: Seq<int>)
    requires
        t.interval > 0,
        0 <= t.elapsed < t.interval,
        t.remaining >= 0,
        forall|k: int| 0 <= k < dts.len() ==> dts[k] >= 0,
    ensures
        spec_timer_run_fires(t, dts) == vstd::math::min(
            t.remaining,
            (t.elapsed + seq_sum(dts)) / t.interval,
        ),
    decreases dts.len(),
{
    let i = t.interval;
    let e = t.elapsed;
    let rem = t.remaining;
    if dts.len() == 0 {
        vstd::arithmetic::div_mod::lemma_fundamental_div_mod(e, i);
        vstd::arithmetic::div_mod::lemma_mod_bound(e, i);
        assert(e / i == 0) by (nonlinear_arith)
            requires
                0 < i,
                0 <= e < i,
                e == i * (e / i) + (e % i),
                0 <= e % i < i,
        ;
    } else {
        let d = dts[0];
        let rest = dts.drop_first();
        let sp = seq_sum(rest);
        lemma_seq_sum_nonneg(rest);
        assert(seq_sum(dts) == d + sp);
        let f1 = spec_timer_fires(t, d);
        let x = (e + d + sp) / i;
        if rem == 0 {
            assert(spec_timer_step(t, d) == t);
            lemma_timer_firing_count(t, rest);
            assert(spec_timer_run_fires(t, dts) == 0);
        } else if f1 < rem {
            assert(f1 == (e + d) / i);
            let t1 = spec_timer_step(t, d);
            assert(t1 == (TimerSlot { remaining: rem - f1, elapsed: e + d - f1 * i, ..t }));
            vstd::arithmetic::div_mod::lemma_fundamental_div_mod(e + d, i);
            vstd::arithmetic::div_mod::lemma_mod_bound(e + d, i);
            assert(f1 * i == i * f1) by (nonlinear_arith);
            assert(0 <= t1.elapsed < i);
            lemma_timer_firing_count(t1, rest);
            assert(spec_timer_run_fires(t1, rest) == vstd::math::min(
                rem - f1,
                (t1.elapsed + sp) / i,
            ));
            vstd::arithmetic::div_mod::lemma_hoist_over_denominator(
                e + d + sp - f1 * i,
                f1,
                i as nat,
            );
            assert((t1.elapsed + sp) / i == x - f1);
            vstd::arithmetic::div_mod::lemma_div_is_ordered(e + d, e + d + sp, i);
            assert(f1 <= x);
        } else {
            assert(f1 == rem);
            let t1 = spec_timer_step(t, d);
            assert(t1 == (TimerSlot { remaining: 0, elapsed: 0, ..t }));
            lemma_timer_firing_count(t1, rest);
            assert(spec_timer_run_fires(t1, rest) == 0);
            assert((e + d) / i >= rem);
            vstd::arithmetic::div_mod::lemma_div_is_ordered(e + d, e + d + sp, i);
            assert(x >= rem);
        }
    }
}

} // verus!
