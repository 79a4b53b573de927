//! The flight controller: a state machine over pointer events and idle ticks.
//!
//! The controller never touches the device stream or the window manager. Each
//! handler takes what the caller has just observed, moves the state on, and
//! returns the actions that the caller has to perform, in order, before it
//! reads the next event. Two actions ask for an observation in return:
//! [`Action::QueryFocus`] is answered with the focused window, handed to
//! [`complete_reload`], and [`Action::PollShutdown`] with the state of the
//! shutdown flag, handed to [`on_shutdown_poll`]; what these two return is
//! performed on the spot, before the actions that are still waiting.
//!
//! A caller runs a session like this: it performs [`startup`], then again
//! and again refreshes the device stream, asks it for its next event and
//! hands what it held to [`Session::handle_event`].

use vstd::prelude::*;
use crate::animator::{is_stop, lemma_stop_closes_each_burst, tremble, trembles, Animator};
use crate::offsets::{lookup, Offset, OffsetTable};
use crate::window::{identity_of, target_of, Window, WindowView};

verus! {

/// Pause between two refreshes of the device stream while a frame of the
/// wobble is awaited, in milliseconds.
pub const MICRO_DELAY_MS: u32 = 6;

/// Pause of an idle tick on which nothing is drawn, in milliseconds.
pub const IDLE_DELAY_MS: u32 = 16;

/// Which acceleration is active on the tracked device.
#[derive(Clone, Copy, Debug, PartialEq, Eq, Structural)]
pub enum Mode {
    /// High acceleration, for throwing the cursor.
    Fast,
    /// Low acceleration, for fine control.
    Slow,
}

/// The durations that drive the controller, all in milliseconds.
#[derive(Clone, Copy, Debug, PartialEq, Eq, Structural)]
pub struct Timing {
    /// Rest after which the slow device becomes fast again.
    pub slow_to_fast_cooldown: u32,
    /// Rest after which the fast device becomes slow.
    pub fast_to_slow_cooldown: u32,
    /// Rest after which the next motion starts from inside the focused window.
    pub reload_idle_duration: u32,
    /// Time between two frames of the wobble.
    pub frame_period: u32,
}

/// What kind of pointer event arrived.
#[derive(Clone, Copy, Debug, PartialEq, Eq, Structural)]
pub enum EventKind {
    Motion,
    MotionAbsolute,
    ScrollContinuous,
    ScrollFinger,
    ScrollWheel,
    /// Any other pointer event; the controller ignores it.
    Other,
}

/// A pointer event as the controller reads it.
#[derive(Clone, Copy, Debug, PartialEq, Eq, Structural)]
pub struct PointerEvent {
    pub kind: EventKind,
    /// Timestamp of the event in milliseconds.
    pub time: u32,
    /// Whether the event comes from the tracked device.
    pub from_tracked_device: bool,
}

/// What the device stream held when it was asked for its next event.
#[derive(Clone, Copy, Debug, PartialEq, Eq, Structural)]
pub enum Incoming {
    /// No event.
    Nothing,
    /// An event that is no pointer event.
    Unrelated,
    /// A pointer event.
    Pointer(PointerEvent),
}

/// A statement for the window manager.
#[derive(Clone, Copy, Debug, PartialEq, Eq, Structural)]
pub enum Command {
    /// Let the keyboard focus follow the cursor at all times.
    FocusFollowsMouse,
    /// Warp the cursor when the focus moves to another container.
    WarpToContainer,
    /// Hide the cursor after so many milliseconds of rest; zero never hides it.
    HideCursorAfter(u32),
    /// Give the tracked device the acceleration that belongs to the mode.
    SetAcceleration(Mode),
    /// Give the tracked device the neutral acceleration.
    ResetAcceleration,
    /// Move the cursor by a relative amount.
    MoveCursorBy(i32, i32),
    /// Put the cursor at an absolute position.
    MoveCursorTo(i64, i64),
}

/// One thing for the caller to do.
#[derive(Clone, Copy, Debug, PartialEq, Eq, Structural)]
pub enum Action {
    /// Send the statement to the window manager.
    Send(Command),
    /// Let the device stream take in what has arrived.
    Refresh,
    /// `rounds` times: refresh the device stream, then pause for `pause_ms`.
    RefreshBurst { rounds: u32, pause_ms: u32 },
    /// Pause for so many milliseconds.
    Sleep(u32),
    /// Look up the focused window and answer with the rest of the reload.
    QueryFocus,
    /// Read the shutdown flag and answer with [`on_shutdown_poll`].
    PollShutdown,
    /// End the process with this exit code.
    Exit(i32),
}

/// The state of the controller as contracts speak of it.
pub struct SessionView {
    pub mode: Mode,
    pub last_motion_time: u32,
    pub last_tremble_time: u32,
    pub animating: bool,
    /// Number of wobble values drawn from the generator so far.
    pub drawn: nat,
}

/// A state together with the actions decided on the way to it.
pub struct Outcome {
    pub state: SessionView,
    pub actions: Seq<Action>,
}

/// The state of the controller.
pub struct Session {
    pub mode: Mode,
    /// Time of the last motion that was taken into account.
    pub last_motion_time: u32,
    /// Time of the last frame of the wobble drawn during motion.
    pub last_tremble_time: u32,
    /// Whether a wobble is in progress.
    pub animating: bool,
    pub animator: Animator,
}

impl View for Session {
    type V = SessionView;

    open spec fn view(&self) -> SessionView {
        SessionView {
            mode: self.mode,
            last_motion_time: self.last_motion_time,
            last_tremble_time: self.last_tremble_time,
            animating: self.animating,
            drawn: self.animator.produced(),
        }
    }
}

/// Time from `then` to `now`, zero if `now` is the earlier one.
pub open spec fn elapsed(now: u32, then: u32) -> u32 {
    if now >= then {
        (now - then) as u32
    } else {
        0
    }
}

/// The state in which every session starts.
pub open spec fn initial_state() -> SessionView {
    SessionView {
        mode: Mode::Fast,
        last_motion_time: 0,
        last_tremble_time: 0,
        animating: true,
        drawn: 0,
    }
}

/// What is sent once, before the first event is read.
pub open spec fn startup_actions(timing: Timing) -> Seq<Action> {
    seq![
        Action::Send(Command::FocusFollowsMouse),
        Action::Send(Command::WarpToContainer),
        Action::Send(Command::HideCursorAfter(timing.reload_idle_duration)),
        Action::Send(Command::SetAcceleration(Mode::Fast)),
    ]
}

/// The relative move that stands for a wobble value.
pub open spec fn nudge(step: (int, int)) -> Action {
    Action::Send(Command::MoveCursorBy(step.0 as i32, step.1 as i32))
}

/// A frame of the wobble while the tracked device moves in fast mode. A stop
/// marker is passed over here: it only ends a wobble on an idle tick.
pub open spec fn after_tremble_tick(timing: Timing, s: SessionView, now: u32) -> Outcome {
    if elapsed(now, s.last_tremble_time) < timing.frame_period {
        Outcome { state: SessionView { animating: true, ..s }, actions: seq![] }
    } else if tremble(s.drawn) == (0int, 0int) {
        Outcome {
            state: SessionView {
                animating: true,
                last_tremble_time: now,
                drawn: s.drawn + 2,
                ..s
            },
            actions: seq![nudge(tremble(s.drawn + 1))],
        }
    } else {
        Outcome {
            state: SessionView {
                animating: true,
                last_tremble_time: now,
                drawn: s.drawn + 1,
                ..s
            },
            actions: seq![nudge(tremble(s.drawn))],
        }
    }
}

/// A motion of the tracked device at time `now`. The first rule that applies
/// decides: reload, fast to slow, slow to fast, wobble frame, nothing.
pub open spec fn after_tracked_motion(timing: Timing, s: SessionView, now: u32) -> Outcome {
    let rest = elapsed(now, s.last_motion_time);
    let seen = SessionView { last_motion_time: now, ..s };
    if rest > timing.reload_idle_duration {
        Outcome {
            state: SessionView { mode: Mode::Fast, animating: true, ..seen },
            actions: seq![
                Action::Send(Command::SetAcceleration(Mode::Fast)),
                Action::Refresh,
                Action::QueryFocus,
            ],
        }
    } else if s.mode == Mode::Fast && rest > timing.fast_to_slow_cooldown {
        Outcome {
            state: SessionView { mode: Mode::Slow, ..seen },
            actions: seq![Action::Send(Command::SetAcceleration(Mode::Slow))],
        }
    } else if rest > timing.slow_to_fast_cooldown {
        Outcome {
            state: SessionView { mode: Mode::Fast, animating: true, ..seen },
            actions: seq![Action::Send(Command::SetAcceleration(Mode::Fast))],
        }
    } else if s.mode == Mode::Fast {
        after_tremble_tick(timing, seen, now)
    } else {
        Outcome { state: seen, actions: seq![] }
    }
}

/// A motion of any other device at time `now`. The tracked device is taken
/// to have rested for the slow-to-fast cooldown already.
pub open spec fn after_foreign_motion(timing: Timing, s: SessionView, now: u32) -> Outcome {
    Outcome {
        state: SessionView {
            mode: Mode::Slow,
            last_motion_time: elapsed(now, timing.slow_to_fast_cooldown),
            ..s
        },
        actions: seq![],
    }
}

/// A scroll event at time `now`, from whatever device.
pub open spec fn after_scroll(s: SessionView, now: u32) -> Outcome {
    Outcome { state: SessionView { mode: Mode::Slow, last_motion_time: now, ..s }, actions: seq![] }
}

/// A pointer event of any kind.
pub open spec fn after_pointer(timing: Timing, s: SessionView, event: PointerEvent) -> Outcome {
    match event.kind {
        EventKind::Motion | EventKind::MotionAbsolute => if event.from_tracked_device {
            after_tracked_motion(timing, s, event.time)
        } else {
            after_foreign_motion(timing, s, event.time)
        },
        EventKind::ScrollContinuous | EventKind::ScrollFinger | EventKind::ScrollWheel => {
            after_scroll(s, event.time)
        },
        EventKind::Other => Outcome { state: s, actions: seq![] },
    }
}

/// The refreshes that fill the time before the next frame of an idle wobble.
pub open spec fn frame_wait(timing: Timing) -> Action {
    Action::RefreshBurst { rounds: timing.frame_period / MICRO_DELAY_MS, pause_ms: MICRO_DELAY_MS }
}

/// A tick on which no pointer event was there to read.
pub open spec fn after_idle(timing: Timing, s: SessionView) -> Outcome {
    if !s.animating {
        Outcome { state: s, actions: seq![Action::Sleep(IDLE_DELAY_MS), Action::PollShutdown] }
    } else if tremble(s.drawn) == (0int, 0int) {
        Outcome {
            state: SessionView { animating: false, drawn: s.drawn + 1, ..s },
            actions: seq![frame_wait(timing), Action::PollShutdown],
        }
    } else {
        Outcome {
            state: SessionView { drawn: s.drawn + 1, ..s },
            actions: seq![frame_wait(timing), nudge(tremble(s.drawn)), Action::PollShutdown],
        }
    }
}

/// One turn of the controller: a pointer event is handled as such, and
/// whatever else the device stream held makes the turn an idle tick.
pub open spec fn after_incoming(timing: Timing, s: SessionView, incoming: Incoming) -> Outcome {
    match incoming {
        Incoming::Pointer(event) => after_pointer(timing, s, event),
        Incoming::Nothing | Incoming::Unrelated => after_idle(timing, s),
    }
}

/// The second half of a reload, once the focused window is known: one more
/// refresh, then the cursor is put at the reload point.
pub open spec fn reload_completion(
    w: WindowView,
    split: (i32, i32),
    table: Map<Seq<char>, Offset>,
) -> Seq<Action> {
    let target = target_of(w, split, lookup(table, identity_of(w)));
    seq![Action::Refresh, Action::Send(Command::MoveCursorTo(target.0 as i64, target.1 as i64))]
}

/// What follows a reading of the shutdown flag.
pub open spec fn shutdown_actions(raised: bool) -> Seq<Action> {
    if raised {
        seq![
            Action::Send(Command::ResetAcceleration),
            Action::Send(Command::HideCursorAfter(0)),
            Action::Exit(0),
        ]
    } else {
        seq![]
    }
}

/// `now - then`, or zero where that would be negative.
pub fn elapsed_since(now: u32, then: u32) -> (rest: u32)
    ensures
        rest == elapsed(now, then),
{
    now.saturating_sub(then)
}

/// The actions that prepare the window manager for a session.
pub fn startup(timing: &Timing) -> (actions: Vec<Action>)
    ensures
        actions@ == startup_actions(*timing),
{
    let mut actions: Vec<Action> = Vec::new();
    actions.push(Action::Send(Command::FocusFollowsMouse));
    actions.push(Action::Send(Command::WarpToContainer));
    actions.push(Action::Send(Command::HideCursorAfter(timing.reload_idle_duration)));
    actions.push(Action::Send(Command::SetAcceleration(Mode::Fast)));
    actions
}

/// Answers [`Action::PollShutdown`]: a raised flag resets the device and the
/// cursor and ends the process with success; otherwise nothing is to be done.
pub fn on_shutdown_poll(raised: bool) -> (actions: Vec<Action>)
    ensures
        actions@ == shutdown_actions(raised),
{
    let mut actions: Vec<Action> = Vec::new();
    if raised {
        actions.push(Action::Send(Command::ResetAcceleration));
        actions.push(Action::Send(Command::HideCursorAfter(0)));
        actions.push(Action::Exit(0));
    }
    actions
}

/// Answers [`Action::QueryFocus`]: finishes the reload in the focused window.
/// `split` is the point inside the window's rectangle, relative to its
/// origin, that the split coefficients pick.
pub fn complete_reload(
    window: &Window,
    split: (i32, i32),
    offsets: &OffsetTable,
) -> (actions: Vec<Action>)
    ensures
        actions@ == reload_completion(window@, split, offsets@),
{
    let target = window.reload_target(split, offsets);
    let mut actions: Vec<Action> = Vec::new();
    actions.push(Action::Refresh);
    actions.push(Action::Send(Command::MoveCursorTo(target.0, target.1)));
    actions
}

impl Session {
    /// A session before its first event: fast, animating, all clocks at zero.
    pub fn new() -> (session: Session)
        ensures
            session@ == initial_state(),
    {
        Session {
            mode: Mode::Fast,
            last_motion_time: 0,
            last_tremble_time: 0,
            animating: true,
            animator: trembles(),
        }
    }

    /// Takes one turn on what the device stream held.
    pub fn handle_event(&mut self, timing: &Timing, incoming: Incoming) -> (actions: Vec<Action>)
        ensures
            final(self)@ == after_incoming(*timing, old(self)@, incoming).state,
            actions@ == after_incoming(*timing, old(self)@, incoming).actions,
    {
        match incoming {
            Incoming::Pointer(event) => self.on_pointer(timing, event),
            Incoming::Nothing | Incoming::Unrelated => self.on_idle(timing),
        }
    }

    /// Handles one pointer event.
    pub fn on_pointer(&mut self, timing: &Timing, event: PointerEvent) -> (actions: Vec<Action>)
        ensures
            final(self)@ == after_pointer(*timing, old(self)@, event).state,
            actions@ == after_pointer(*timing, old(self)@, event).actions,
    {
        match event.kind {
            EventKind::Motion | EventKind::MotionAbsolute => {
                if event.from_tracked_device {
                    self.on_tracked_motion(timing, event.time)
                } else {
                    self.on_foreign_motion(timing, event.time)
                }
            },
            EventKind::ScrollContinuous | EventKind::ScrollFinger | EventKind::ScrollWheel => {
                self.on_scroll(event.time)
            },
            EventKind::Other => Vec::new(),
        }
    }

    /// Handles a motion of the tracked device at time `now`.
    pub fn on_tracked_motion(&mut self, timing: &Timing, now: u32) -> (actions: Vec<Action>)
        ensures
            final(self)@ == after_tracked_motion(*timing, old(self)@, now).state,
            actions@ == after_tracked_motion(*timing, old(self)@, now).actions,
    {
        let rest: u32 = elapsed_since(now, self.last_motion_time);
        self.last_motion_time = now;
        let mut actions: Vec<Action> = Vec::new();
        if rest > timing.reload_idle_duration {
            actions.push(Action::Send(Command::SetAcceleration(Mode::Fast)));
            actions.push(Action::Refresh);
            actions.push(Action::QueryFocus);
            self.mode = Mode::Fast;
            self.animating = true;
            actions
        } else if self.mode == Mode::Fast && rest > timing.fast_to_slow_cooldown {
            actions.push(Action::Send(Command::SetAcceleration(Mode::Slow)));
            self.mode = Mode::Slow;
            actions
        } else if rest > timing.slow_to_fast_cooldown {
            actions.push(Action::Send(Command::SetAcceleration(Mode::Fast)));
            self.mode = Mode::Fast;
            self.animating = true;
            actions
        } else if self.mode == Mode::Fast {
            self.tremble_tick(timing, now)
        } else {
            actions
        }
    }

    /// Draws a frame of the wobble during motion, if one is due at `now`.
    pub fn tremble_tick(&mut self, timing: &Timing, now: u32) -> (actions: Vec<Action>)
        ensures
            final(self)@ == after_tremble_tick(*timing, old(self)@, now).state,
            actions@ == after_tremble_tick(*timing, old(self)@, now).actions,
    {
        let since_frame: u32 = elapsed_since(now, self.last_tremble_time);
        self.animating = true;
        let mut actions: Vec<Action> = Vec::new();
        if since_frame < timing.frame_period {
            return actions;
        }
        self.last_tremble_time = now;
        let mut step = self.animator.next();
        if is_stop(step) {
            step = self.animator.next();
        }
        actions.push(Action::Send(Command::MoveCursorBy(step.0, step.1)));
        actions
    }

    /// Handles a motion of a device other than the tracked one at time `now`.
    pub fn on_foreign_motion(&mut self, timing: &Timing, now: u32) -> (actions: Vec<Action>)
        ensures
            final(self)@ == after_foreign_motion(*timing, old(self)@, now).state,
            actions@ == after_foreign_motion(*timing, old(self)@, now).actions,
    {
        self.last_motion_time = elapsed_since(now, timing.slow_to_fast_cooldown);
        self.mode = Mode::Slow;
        Vec::new()
    }

    /// Handles a scroll event at time `now`.
    pub fn on_scroll(&mut self, now: u32) -> (actions: Vec<Action>)
        ensures
            final(self)@ == after_scroll(old(self)@, now).state,
            actions@ == after_scroll(old(self)@, now).actions,
    {
        self.last_motion_time = now;
        self.mode = Mode::Slow;
        Vec::new()
    }

    /// Handles a tick on which no pointer event was there to read.
    pub fn on_idle(&mut self, timing: &Timing) -> (actions: Vec<Action>)
        ensures
            final(self)@ == after_idle(*timing, old(self)@).state,
            actions@ == after_idle(*timing, old(self)@).actions,
    {
        let mut actions: Vec<Action> = Vec::new();
        if self.animating {
            actions.push(
                Action::RefreshBurst {
                    rounds: timing.frame_period / MICRO_DELAY_MS,
                    pause_ms: MICRO_DELAY_MS,
                },
            );
            let step = self.animator.next();
            if is_stop(step) {
                self.animating = false;
            } else {
                actions.push(Action::Send(Command::MoveCursorBy(step.0, step.1)));
            }
        } else {
            actions.push(Action::Sleep(IDLE_DELAY_MS));
        }
        actions.push(Action::PollShutdown);
        actions
    }
}

/// The statements among `actions`, in the order in which they are sent.
pub open spec fn commands_of(actions: Seq<Action>) -> Seq<Command>
    decreases actions.len(),
{
    if actions.len() == 0 {
        seq![]
    } else {
        match actions.last() {
            Action::Send(command) => commands_of(actions.drop_last()).push(command),
            _ => commands_of(actions.drop_last()),
        }
    }
}

/// Whether `action` changes the acceleration of the device.
pub open spec fn sets_acceleration(action: Action) -> bool {
    action matches Action::Send(command) && (command is SetAcceleration
        || command is ResetAcceleration)
}

/// Whether `action` is a relative move of the cursor that moves it.
pub open spec fn is_nudge(action: Action) -> bool {
    action matches Action::Send(Command::MoveCursorBy(dx, dy)) && (dx != 0 || dy != 0)
}

/// The outcome of a run of motions of the tracked device, at the times given.
pub open spec fn after_tracked_motions(timing: Timing, s: SessionView, times: Seq<u32>) -> Outcome
    decreases times.len(),
{
    if times.len() == 0 {
        Outcome { state: s, actions: seq![] }
    } else {
        let before = after_tracked_motions(timing, s, times.drop_last());
        let last = after_tracked_motion(timing, before.state, times.last());
        Outcome { state: last.state, actions: before.actions + last.actions }
    }
}

/// Whether a rest of `rest` milliseconds is below every threshold at which
/// the acceleration changes.
pub open spec fn below_thresholds(timing: Timing, rest: u32) -> bool {
    &&& rest <= timing.reload_idle_duration
    &&& rest <= timing.fast_to_slow_cooldown
    &&& rest <= timing.slow_to_fast_cooldown
}

/// Whether the times rise strictly from `start` on, each less than a
/// threshold after the one before.
pub open spec fn steady(timing: Timing, start: u32, times: Seq<u32>) -> bool {
    forall|i: int|
        0 <= i < times.len() ==> {
            let before = if i == 0 {
                start
            } else {
                times[i - 1]
            };
            before < #[trigger] times[i] && below_thresholds(timing, elapsed(times[i], before))
        }
}

/// A wobble value drawn during motion is never the stop marker.
pub proof fn lemma_tremble_tick_moves(timing: Timing, s: SessionView, now: u32)
    ensures
        ({
            let out = after_tremble_tick(timing, s, now);
            &&& out.state.mode == s.mode
            &&& out.state.animating
            &&& out.state.last_motion_time == s.last_motion_time
            &&& forall|k: int| 0 <= k < out.actions.len() ==> is_nudge(#[trigger] out.actions[k])
        }),
{
    lemma_stop_closes_each_burst(s.drawn);
    lemma_stop_closes_each_burst(s.drawn + 1);
    lemma_nudge_of_move(s.drawn);
    lemma_nudge_of_move(s.drawn + 1);
}

proof fn lemma_nudge_of_move(n: nat)
    ensures
        tremble(n) != (0int, 0int) ==> is_nudge(nudge(tremble(n))),
        -19 <= tremble(n).0 <= 19,
        -19 <= tremble(n).1 <= 19,
{
}

/// While the tracked device keeps moving with rests below every threshold,
/// the mode stays what it was and nothing is sent but wobble frames: the
/// acceleration is never changed and no reload is started.
pub proof fn lemma_steady_motion_keeps_mode(timing: Timing, s: SessionView, times: Seq<u32>)
    requires
        steady(timing, s.last_motion_time, times),
    ensures
        ({
            let out = after_tracked_motions(timing, s, times);
            &&& out.state.mode == s.mode
            &&& out.state.last_motion_time == if times.len() == 0 {
                s.last_motion_time
            } else {
                times.last()
            }
            &&& forall|k: int| 0 <= k < out.actions.len() ==> is_nudge(#[trigger] out.actions[k])
            &&& forall|k: int|
                0 <= k < out.actions.len() ==> !sets_acceleration(#[trigger] out.actions[k])
        }),
    decreases times.len(),
{
    if times.len() > 0 {
        let head = times.drop_last();
        assert forall|i: int| 0 <= i < head.len() implies ({
            let before = if i == 0 {
                s.last_motion_time
            } else {
                head[i - 1]
            };
            before < #[trigger] head[i] && below_thresholds(timing, elapsed(head[i], before))
        }) by {}
        lemma_steady_motion_keeps_mode(timing, s, head);
        let before = after_tracked_motions(timing, s, head);
        let now = times.last();
        let seen = SessionView { last_motion_time: now, ..before.state };
        lemma_tremble_tick_moves(timing, seen, now);
    }
}

/// A motion of the tracked device after a rest longer than the reload idle
/// duration starts a reload, whatever the mode was: the fast acceleration is
/// set, then the focused window is asked for, and the session is left fast
/// and animating. With the answer the cursor is put at the reload point. Of
/// all that is sent on the way, one statement sets the acceleration and one,
/// after it, the cursor's position.
pub proof fn lemma_reload_after_long_rest(
    timing: Timing,
    s: SessionView,
    now: u32,
    w: WindowView,
    split: (i32, i32),
    table: Map<Seq<char>, Offset>,
)
    requires
        elapsed(now, s.last_motion_time) > timing.reload_idle_duration,
    ensures
        ({
            let out = after_tracked_motion(timing, s, now);
            let target = target_of(w, split, lookup(table, identity_of(w)));
            &&& out.state.mode == Mode::Fast
            &&& out.state.animating
            &&& out.state.last_motion_time == now
            &&& out.actions.last() == Action::QueryFocus
            &&& commands_of(out.actions + reload_completion(w, split, table)) == seq![
                Command::SetAcceleration(Mode::Fast),
                Command::MoveCursorTo(target.0 as i64, target.1 as i64),
            ]
        }),
{
    reveal_with_fuel(commands_of, 6);
}

/// Without a rest longer than the reload idle duration no reload is started:
/// the focused window is not asked for.
pub proof fn lemma_no_reload_before_long_rest(timing: Timing, s: SessionView, now: u32)
    requires
        elapsed(now, s.last_motion_time) <= timing.reload_idle_duration,
    ensures
        ({
            let out = after_tracked_motion(timing, s, now);
            forall|k: int| 0 <= k < out.actions.len() ==> #[trigger] out.actions[k] != Action::QueryFocus
        }),
{
}

/// A motion of a device other than the tracked one sends nothing, leaves the
/// session slow and does not touch the wobble.
pub proof fn lemma_foreign_motion_is_silent(timing: Timing, s: SessionView, event: PointerEvent)
    requires
        event.kind is Motion || event.kind is MotionAbsolute,
        !event.from_tracked_device,
    ensures
        ({
            let out = after_pointer(timing, s, event);
            &&& out.actions.len() == 0
            &&& out.state.mode == Mode::Slow
            &&& out.state.animating == s.animating
            &&& out.state.drawn == s.drawn
            &&& out.state.last_tremble_time == s.last_tremble_time
        }),
{
}

/// After a motion of another device, the next later motion of the tracked
/// device counts as a cold start: it makes the device fast again, and says
/// so first. (The foreign motion must not be so early that its discount is
/// cut off at zero.)
pub proof fn lemma_foreign_motion_primes_fast(
    timing: Timing,
    s: SessionView,
    foreign: u32,
    next: u32,
)
    requires
        foreign >= timing.slow_to_fast_cooldown,
        next > foreign,
    ensures
        ({
            let between = after_foreign_motion(timing, s, foreign).state;
            let out = after_tracked_motion(timing, between, next);
            &&& out.state.mode == Mode::Fast
            &&& out.state.animating
            &&& out.actions[0] == Action::Send(Command::SetAcceleration(Mode::Fast))
        }),
{
}

/// Where a motion of the tracked device changes the mode, the first thing it
/// sends is the acceleration of the new mode.
pub proof fn lemma_mode_change_is_announced(timing: Timing, s: SessionView, now: u32)
    ensures
        ({
            let out = after_tracked_motion(timing, s, now);
            out.state.mode != s.mode ==> out.actions.len() > 0 && out.actions[0] == Action::Send(
                Command::SetAcceleration(out.state.mode),
            )
        }),
{
    let seen = SessionView { last_motion_time: now, ..s };
    lemma_tremble_tick_moves(timing, seen, now);
}

/// Every pointer event that is a motion or a scroll sets the motion clock:
/// to the event's time, or for a motion of another device to the event's
/// time less the slow-to-fast cooldown, and never below zero.
pub proof fn lemma_motion_clock(timing: Timing, s: SessionView, event: PointerEvent)
    requires
        !(event.kind is Other),
    ensures
        ({
            let out = after_pointer(timing, s, event);
            let foreign = (event.kind is Motion || event.kind is MotionAbsolute)
                && !event.from_tracked_device;
            out.state.last_motion_time == if foreign {
                elapsed(event.time, timing.slow_to_fast_cooldown)
            } else {
                event.time
            }
        }),
{
    let seen = SessionView { last_motion_time: event.time, ..s };
    lemma_tremble_tick_moves(timing, seen, event.time);
}

/// An idle tick always ends by asking for the shutdown flag, and asks for
/// it once.
pub proof fn lemma_idle_polls_shutdown_last(timing: Timing, s: SessionView)
    ensures
        ({
            let out = after_idle(timing, s);
            &&& out.actions.last() == Action::PollShutdown
            &&& forall|k: int|
                0 <= k < out.actions.len() - 1 ==> #[trigger] out.actions[k] != Action::PollShutdown
        }),
{
}

/// The state after so many idle ticks in a row.
pub open spec fn after_idle_ticks(timing: Timing, s: SessionView, ticks: nat) -> SessionView
    decreases ticks,
{
    if ticks == 0 {
        s
    } else {
        after_idle(timing, after_idle_ticks(timing, s, (ticks - 1) as nat)).state
    }
}

/// Left alone, a wobble plays to the end of its burst and stops there: the
/// idle ticks draw what is left of the burst, the tick that draws the stop
/// marker ends the wobble, and further ticks draw nothing. Mode and clocks
/// stay as they are.
pub proof fn lemma_idle_wobble_ends_with_burst(timing: Timing, s: SessionView, ticks: nat)
    requires
        s.animating,
    ensures
        ({
            let left = 5 - s.drawn as int % 5;
            let after = after_idle_ticks(timing, s, ticks);
            &&& after.animating <==> ticks < left
            &&& after.drawn == if ticks < left {
                s.drawn + ticks as int
            } else {
                s.drawn + left
            }
            &&& after.mode == s.mode
            &&& after.last_motion_time == s.last_motion_time
            &&& after.last_tremble_time == s.last_tremble_time
        }),
    decreases ticks,
{
    if ticks > 0 {
        lemma_idle_wobble_ends_with_burst(timing, s, (ticks - 1) as nat);
        lemma_stop_closes_each_burst(after_idle_ticks(timing, s, (ticks - 1) as nat).drawn);
    }
}

/// No pointer event asks for the shutdown flag: it is read on idle ticks
/// only.
pub proof fn lemma_events_never_poll_shutdown(timing: Timing, s: SessionView, event: PointerEvent)
    ensures
        ({
            let out = after_pointer(timing, s, event);
            forall|k: int|
                0 <= k < out.actions.len() ==> #[trigger] out.actions[k] != Action::PollShutdown
        }),
{
}

} // verus!
