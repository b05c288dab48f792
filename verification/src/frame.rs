//! The frame loop's decision core: raw input events are mapped to actions
//! through a fixed table, the drained actions of one iteration collapse into
//! a single decision — quit, step, or neither — and the loop state machine
//! moves from `Running` to the terminal stopped state the moment a quit is
//! observed.

use vstd::prelude::*;

verus! {

/// Raw input events the windowing collaborator delivers from its
/// non-blocking poll. Resizing is a deliberate non-goal and is ignored.
#[derive(Clone, Copy, PartialEq, Eq, Structural, Debug)]
pub enum RawEvent {
    WindowClose,
    KeyDown { key: u32 },
    WindowResize { width: u32, height: u32 },
    Other,
}

/// The closed set of actions an event translates to. `ToggleNoop` is
/// explicitly a no-op, present for future extension: it must never mutate
/// any state.
#[derive(Clone, Copy, PartialEq, Eq, Structural, Debug)]
pub enum InputAction {
    Quit,
    TriggerStep,
    ToggleNoop,
    Ignore,
}

/// The designated keycodes of the fixed translation table.
#[derive(Clone, Copy, PartialEq, Eq, Structural, Debug)]
pub struct KeyMap {
    pub quit_key: u32,
    pub step_key: u32,
    pub noop_key: u32,
}

impl KeyMap {
    /// The three designated keys are distinct.
    pub open spec fn wf(self) -> bool {
        self.quit_key != self.step_key && self.quit_key != self.noop_key && self.step_key
            != self.noop_key
    }
}

/// The fixed translation table: window close or the quit key mean `Quit`,
/// the advance key means `TriggerStep`, the secondary key means
/// `ToggleNoop`, and everything else is ignored.
pub open spec fn action_of(km: KeyMap, e: RawEvent) -> InputAction {
    match e {
        RawEvent::WindowClose => InputAction::Quit,
        RawEvent::KeyDown { key } => if key == km.quit_key {
            InputAction::Quit
        } else if key == km.step_key {
            InputAction::TriggerStep
        } else if key == km.noop_key {
            InputAction::ToggleNoop
        } else {
            InputAction::Ignore
        },
        RawEvent::WindowResize { .. } => InputAction::Ignore,
        RawEvent::Other => InputAction::Ignore,
    }
}

/// Translate one raw event through the fixed table.
pub fn map_event(km: &KeyMap, e: &RawEvent) -> (a: InputAction)
    ensures
        a == action_of(*km, *e),
{
    match e {
        RawEvent::WindowClose => InputAction::Quit,
        RawEvent::KeyDown { key } => {
            if *key == km.quit_key {
                InputAction::Quit
            } else if *key == km.step_key {
                InputAction::TriggerStep
            } else if *key == km.noop_key {
                InputAction::ToggleNoop
            } else {
                InputAction::Ignore
            }
        },
        RawEvent::WindowResize { .. } => InputAction::Ignore,
        RawEvent::Other => InputAction::Ignore,
    }
}

/// Some event in the drained batch maps to action `a`.
pub open spec fn has_action(km: KeyMap, events: Seq<RawEvent>, a: InputAction) -> bool {
    exists|i: int| 0 <= i < events.len() && action_of(km, #[trigger] events[i]) == a
}

/// What one iteration does after draining its events: stop the loop, or
/// run at most one step dispatch. The draw pass always runs on a
/// non-quitting iteration.
#[derive(Clone, Copy, PartialEq, Eq, Structural, Debug)]
pub struct FrameDecision {
    pub quit: bool,
    pub step: bool,
}

/// The decision an event batch collapses to: quit if any drained action is
/// `Quit`; otherwise step exactly once if any action is `TriggerStep` —
/// however many arrived. `ToggleNoop` and `Ignore` decide nothing.
pub open spec fn decision_of(km: KeyMap, events: Seq<RawEvent>) -> FrameDecision {
    FrameDecision {
        quit: has_action(km, events, InputAction::Quit),
        step: !has_action(km, events, InputAction::Quit) && has_action(
            km,
            events,
            InputAction::TriggerStep,
        ),
    }
}

/// Collapse the drained events of one iteration, in arrival order, into
/// the iteration's decision.
pub fn decide(km: &KeyMap, events: &Vec<RawEvent>) -> (d: FrameDecision)
    ensures
        d == decision_of(*km, events@),
{
    let mut quit = false;
    let mut step = false;
    let mut i: usize = 0;
    proof {
        assert(events@.take(0) =~= Seq::<RawEvent>::empty());
    }
    while i < events.len()
        invariant
            i <= events@.len(),
            quit == has_action(*km, events@.take(i as int), InputAction::Quit),
            step == has_action(*km, events@.take(i as int), InputAction::TriggerStep),
        decreases events@.len() - i,
    {
        let a = map_event(km, &events[i]);
        proof {
            assert(events@.take(i + 1)[i as int] == events@[i as int]);
            assert forall|k: int| 0 <= k < i implies events@.take(i + 1)[k] == events@.take(
                i as int,
            )[k] by {}
            if a == InputAction::Quit {
                assert(has_action(*km, events@.take(i + 1), InputAction::Quit));
            }
            if a == InputAction::TriggerStep {
                assert(has_action(*km, events@.take(i + 1), InputAction::TriggerStep));
            }
            assert forall|act: InputAction|
                has_action(*km, events@.take(i + 1), act) implies has_action(
                *km,
                events@.take(i as int),
                act,
            ) || action_of(*km, events@[i as int]) == act by {
                let w = choose|w: int|
                    0 <= w < events@.take(i + 1).len() && action_of(
                        *km,
                        #[trigger] events@.take(i + 1)[w],
                    ) == act;
                if w < i {
                    assert(action_of(*km, events@.take(i as int)[w]) == act);
                }
            }
        }
        match a {
            InputAction::Quit => {
                quit = true;
            },
            InputAction::TriggerStep => {
                step = true;
            },
            InputAction::ToggleNoop => {},
            InputAction::Ignore => {},
        }
        i = i + 1;
    }
    proof {
        assert(events@.take(events@.len() as int) =~= events@);
    }
    FrameDecision { quit, step: !quit && step }
}

/// The loop's state: the running flag and the frame counter. The loop is
/// single-threaded; the state is mutated exactly once per iteration.
#[derive(Clone, Copy, PartialEq, Eq, Structural, Debug)]
pub struct FrameState {
    pub running: bool,
    pub frames: u64,
}

/// The state after one iteration: stopped exactly when the iteration
/// decided to quit, with the frame counter advanced by one. Nothing else
/// is touched — in particular a `ToggleNoop` action mutates nothing.
pub open spec fn next_state(st: FrameState, d: FrameDecision) -> FrameState {
    FrameState { running: !d.quit, frames: (st.frames + 1) as u64 }
}

impl FrameState {
    /// The loop starts running at frame zero.
    pub fn new() -> (st: FrameState)
        ensures
            st.running,
            st.frames == 0,
    {
        FrameState { running: true, frames: 0 }
    }
}

/// One iteration of the frame loop's decision core: drain the given events,
/// collapse them to a decision, and advance the state. On a `Quit` the loop
/// leaves `running` within this same iteration; otherwise it stays running
/// and the caller performs at most one step dispatch plus the draw pass.
pub fn frame_iteration(st: &mut FrameState, km: &KeyMap, events: &Vec<RawEvent>) -> (d:
    FrameDecision)
    requires
        old(st).running,
        old(st).frames < u64::MAX,
    ensures
        d == decision_of(*km, events@),
        *final(st) == next_state(*old(st), d),
        final(st).running <==> !has_action(*km, events@, InputAction::Quit),
{
    let d = decide(km, events);
    st.running = !d.quit;
    st.frames = st.frames + 1;
    d
}

/// On `Quit` the loop is stopped within the very iteration that observed
/// it: whatever the rest of the batch holds, the next state is not running.
pub proof fn lemma_quit_stops_same_iteration(km: KeyMap, events: Seq<RawEvent>, st: FrameState)
    requires
        has_action(km, events, InputAction::Quit),
    ensures
        !next_state(st, decision_of(km, events)).running,
{
}

/// The decision counts nothing: two batches that agree on whether a quit
/// and whether a step request occur decide the same, however many of each
/// were queued. One step dispatch per frame at most.
pub proof fn lemma_decision_ignores_multiplicity(km: KeyMap, e1: Seq<RawEvent>, e2: Seq<RawEvent>)
    requires
        has_action(km, e1, InputAction::Quit) == has_action(km, e2, InputAction::Quit),
        has_action(km, e1, InputAction::TriggerStep) == has_action(
            km,
            e2,
            InputAction::TriggerStep,
        ),
    ensures
        decision_of(km, e1) == decision_of(km, e2),
{
}

/// A batch whose every event maps to `ToggleNoop` or `Ignore` decides
/// neither quit nor step: such actions never mutate any state, and the
/// frame runs only its draw pass.
pub proof fn lemma_noop_is_inert(km: KeyMap, events: Seq<RawEvent>)
    requires
        forall|i: int|
            0 <= i < events.len() ==> (action_of(km, #[trigger] events[i]) == InputAction::ToggleNoop
                || action_of(km, #[trigger] events[i]) == InputAction::Ignore),
    ensures
        decision_of(km, events) == (FrameDecision { quit: false, step: false }),
{
    if has_action(km, events, InputAction::Quit) {
        let i = choose|i: int|
            0 <= i < events.len() && action_of(km, #[trigger] events[i]) == InputAction::Quit;
        assert(false);
    }
    if has_action(km, events, InputAction::TriggerStep) {
        let i = choose|i: int|
            0 <= i < events.len() && action_of(km, #[trigger] events[i])
                == InputAction::TriggerStep;
        assert(false);
    }
}

} // verus!
