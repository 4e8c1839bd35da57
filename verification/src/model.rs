//! The sequencer as a mathematical machine: its states, and what each event
//! does to a state.
use crate::command::{ActionView, CommandView, EventView, SequenceErrorView};
use crate::element::ElementHandle;
use crate::plan::{
    closing_start, lemma_lookups_come_first, lemma_plan_closing, lemma_plan_len,
    lemma_plan_resolve, lemma_race_commands, plan,
};
use crate::race::{outcome_of, RaceView, Signal};
use crate::script::ScriptView;
use vstd::prelude::*;

verus! {

/// How far a run has come.
pub enum Status {
    /// Nothing was asked of the host yet.
    Ready,
    /// A command of the plan is with the host.
    Running,
    /// The run has failed with this error while the listener of the race was
    /// registered; its removal is with the host.
    Releasing(SequenceErrorView),
    /// Every command of the plan was carried out.
    Finished,
    /// The run has ended with an error.
    Aborted,
}

/// A sequencer as a value.
pub struct SequencerView {
    pub script: ScriptView,
    pub status: Status,
    /// How many commands of the plan were handed to the host.
    pub issued: nat,
    /// The race of the fade step.
    pub race: RaceView,
}

impl SequencerView {
    /// The sequencer before the run.
    pub open spec fn fresh(script: ScriptView) -> SequencerView {
        SequencerView { script, status: Status::Ready, issued: 0, race: RaceView::fresh() }
    }

    /// The command that is with the host.
    pub open spec fn pending(self) -> CommandView
        recommends
            self.status is Running,
            0 < self.issued <= plan(self.script).len(),
    {
        plan(self.script)[self.issued - 1]
    }

    /// Whether the run is over.
    pub open spec fn is_over(self) -> bool {
        self.status is Finished || self.status is Aborted
    }

    /// Hands out the next command of the plan, or completes the run where
    /// the plan is exhausted.
    pub open spec fn issue(self) -> (SequencerView, ActionView) {
        if self.issued < plan(self.script).len() {
            (
                SequencerView { status: Status::Running, issued: self.issued + 1, ..self },
                ActionView::Perform(plan(self.script)[self.issued as int]),
            )
        } else {
            (SequencerView { status: Status::Finished, ..self }, ActionView::Complete)
        }
    }

    /// The error for a pending command whose element does not exist. A command
    /// that names no element cannot miss one: for it the report counts as a
    /// failure of the binding that has no text.
    pub open spec fn missing(self) -> SequenceErrorView {
        match self.pending().element() {
            Some(handle) => SequenceErrorView::ElementNotFound { id: self.script.id_of(handle) },
            None => SequenceErrorView::BindingFailure { detail: Seq::empty() },
        }
    }

    /// Ends the run with `error`. Where the listener of the race is registered
    /// and its removal was not yet asked for, the removal comes first.
    pub open spec fn fail(self, error: SequenceErrorView) -> (SequencerView, ActionView) {
        if self.race.listening && !(self.pending() is Unsubscribe) {
            (
                SequencerView { status: Status::Releasing(error), ..self },
                ActionView::Perform(CommandView::Unsubscribe { element: ElementHandle::FadeTarget }),
            )
        } else {
            (
                SequencerView {
                    status: Status::Aborted,
                    race: RaceView { listening: false, ..self.race },
                    ..self
                },
                ActionView::Abort(error),
            )
        }
    }

    /// What an event does: the state after it, and what the host is told.
    ///
    /// - Before the run only `Begin` counts; it hands out the first command.
    /// - During the run `Completed` answers the pending command and hands out
    ///   the next one, except that a pending wait for the race is answered by
    ///   a `Signal` alone, which settles the race. `NotFound` and `Failed`
    ///   end the run.
    /// - Every other event is ignored: the state stays as it is. That holds
    ///   for a signal that arrives when no wait is pending, and for every
    ///   event after the run.
    pub open spec fn step(self, event: EventView) -> (SequencerView, ActionView) {
        match self.status {
            Status::Ready => match event {
                EventView::Begin => self.issue(),
                _ => (self, ActionView::Ignore),
            },
            Status::Running => match event {
                EventView::Begin => (self, ActionView::Ignore),
                EventView::Signal(signal) => if self.pending() is AwaitSignal {
                    (SequencerView { race: self.race.after(signal), ..self }).issue()
                } else {
                    (self, ActionView::Ignore)
                },
                EventView::Completed => match self.pending() {
                    CommandView::AwaitSignal => (self, ActionView::Ignore),
                    CommandView::Subscribe { .. } => (SequencerView {
                        race: RaceView { listening: true, ..self.race },
                        ..self
                    }).issue(),
                    CommandView::Unsubscribe { .. } => (SequencerView {
                        race: RaceView { listening: false, ..self.race },
                        ..self
                    }).issue(),
                    _ => self.issue(),
                },
                EventView::NotFound => self.fail(self.missing()),
                EventView::Failed(detail) => self.fail(
                    SequenceErrorView::BindingFailure { detail },
                ),
            },
            Status::Releasing(error) => match event {
                EventView::Begin | EventView::Signal(_) => (self, ActionView::Ignore),
                _ => (
                    SequencerView {
                        status: Status::Aborted,
                        race: RaceView { listening: false, ..self.race },
                        ..self
                    },
                    ActionView::Abort(error),
                ),
            },
            Status::Finished | Status::Aborted => (self, ActionView::Ignore),
        }
    }

    /// The state after `events` have been handled in order.
    pub open spec fn after_events(self, events: Seq<EventView>) -> SequencerView
        decreases events.len(),
    {
        if events.len() == 0 {
            self
        } else {
            self.after_events(events.drop_last()).step(events.last()).0
        }
    }

    /// What the host is told for each of `events`, handled in order.
    pub open spec fn actions(self, events: Seq<EventView>) -> Seq<ActionView> {
        Seq::new(events.len(), |i: int| self.after_events(events.take(i)).step(events[i]).1)
    }

    /// What holds of every state that a run can reach.
    pub open spec fn consistent(self) -> bool {
        let closing = closing_start(self.script);
        &&& self.script.fits()
        &&& self.issued <= plan(self.script).len()
        &&& self.status is Ready ==> self.issued == 0 && self.race == RaceView::fresh()
        &&& (self.status is Running || self.status is Releasing) ==> self.issued >= 1
        &&& self.status is Releasing ==> self.race.listening
        &&& self.status is Finished ==> self.issued == plan(self.script).len()
        &&& self.is_over() ==> !self.race.listening
        &&& self.race.listening ==> closing + 3 <= self.issued <= closing + 5
        &&& self.race.listening && self.issued == closing + 5 ==> self.status is Running
        &&& self.race.outcome is Some ==> self.issued >= closing + 5
        &&& (self.status is Running || self.status is Finished) && self.issued >= closing + 5
            ==> self.race.outcome is Some
    }
}

/// The commands among `actions` that the host was asked to carry out, in order.
pub open spec fn performed(actions: Seq<ActionView>) -> Seq<CommandView>
    decreases actions.len(),
{
    if actions.len() == 0 {
        Seq::empty()
    } else {
        match actions.last() {
            ActionView::Perform(command) => performed(actions.drop_last()).push(command),
            _ => performed(actions.drop_last()),
        }
    }
}

/// Every state that a step reaches from a consistent state is consistent.
/// A step never changes the script and never takes back a command.
pub proof fn lemma_step_keeps_consistency(state: SequencerView, event: EventView)
    requires
        state.consistent(),
    ensures
        state.step(event).0.consistent(),
        state.step(event).0.script == state.script,
        state.step(event).0.issued >= state.issued,
        state.is_over() ==> state.step(event) == (state, ActionView::Ignore),
        state.step(event).1 is Ignore ==> state.step(event).0 == state,
{
    lemma_plan_len(state.script);
    lemma_race_commands(state.script);
    if state.status is Running {
        assert(plan(state.script)[state.issued - 1] == state.pending());
    }
}

/// Handling events one after another is handling the first ones and then
/// the rest; a run never takes back a command, and once it is over nothing
/// changes it.
pub proof fn lemma_after_events(state: SequencerView, events: Seq<EventView>, upto: int)
    requires
        state.consistent(),
        0 <= upto <= events.len(),
    ensures
        state.after_events(events).consistent(),
        state.after_events(events).script == state.script,
        state.after_events(events).issued >= state.after_events(events.take(upto)).issued,
        state.after_events(events.take(upto)).issued >= state.issued,
        state.after_events(events.take(upto)).is_over() ==> state.after_events(events)
            == state.after_events(events.take(upto)),
    decreases events.len(),
{
    if events.len() == 0 {
        assert(events.take(upto) =~= events);
    } else if upto == events.len() {
        assert(events.take(upto) =~= events);
        lemma_after_events(state, events.drop_last(), 0);
        lemma_step_keeps_consistency(state.after_events(events.drop_last()), events.last());
    } else {
        assert(events.drop_last().take(upto) =~= events.take(upto));
        lemma_after_events(state, events.drop_last(), upto);
        lemma_step_keeps_consistency(state.after_events(events.drop_last()), events.last());
    }
}

/// Every state of a run is consistent.
pub proof fn lemma_run_is_consistent(script: ScriptView, events: Seq<EventView>)
    requires
        script.fits(),
    ensures
        SequencerView::fresh(script).after_events(events).consistent(),
        SequencerView::fresh(script).after_events(events).script == script,
{
    lemma_plan_len(script);
    lemma_after_events(SequencerView::fresh(script), events, 0);
}

/// Whether `done` is what a run in `state` has asked of its host: the plan
/// up to the command that was handed out last, followed by the removal of
/// the listener where the run failed while the listener was registered.
pub open spec fn follows_plan(state: SequencerView, done: Seq<CommandView>) -> bool {
    &&& done.len() == state.issued || done.len() == state.issued + 1
    &&& done.take(state.issued as int) == plan(state.script).take(state.issued as int)
    &&& done.len() == state.issued + 1 ==> done.last() == (CommandView::Unsubscribe {
        element: ElementHandle::FadeTarget,
    }) && (state.status is Releasing || state.status is Aborted)
    &&& state.status is Releasing ==> done.len() == state.issued + 1
}

proof fn lemma_actions_unfold(state: SequencerView, events: Seq<EventView>)
    requires
        events.len() > 0,
    ensures
        state.actions(events).drop_last() == state.actions(events.drop_last()),
        state.actions(events).last() == state.after_events(events.drop_last()).step(
            events.last(),
        ).1,
{
    let earlier = events.drop_last();
    assert(events.take(events.len() - 1) =~= earlier);
    assert forall|i: int| 0 <= i < earlier.len() implies state.actions(events)[i] == state.actions(
        earlier,
    )[i] by {
        assert(events.take(i) =~= earlier.take(i));
    }
    assert(state.actions(events).drop_last() =~= state.actions(earlier));
}

/// Whatever the host reports, and in whatever order, the commands that a run
/// asks of it are the commands of the plan, in the order of the plan, with
/// none left out and none repeated, up to the point that the run has reached.
pub proof fn lemma_run_follows_plan(script: ScriptView, events: Seq<EventView>)
    requires
        script.fits(),
    ensures
        follows_plan(
            SequencerView::fresh(script).after_events(events),
            performed(SequencerView::fresh(script).actions(events)),
        ),
    decreases events.len(),
{
    let start = SequencerView::fresh(script);
    lemma_plan_len(script);
    if events.len() == 0 {
        assert(performed(start.actions(events)) =~= Seq::empty());
        assert(Seq::<CommandView>::empty().take(0) =~= plan(script).take(0));
    } else {
        let earlier = events.drop_last();
        let before = start.after_events(earlier);
        let done = performed(start.actions(earlier));
        lemma_run_follows_plan(script, earlier);
        lemma_run_is_consistent(script, earlier);
        lemma_step_keeps_consistency(before, events.last());
        lemma_actions_unfold(start, events);
        let after = before.step(events.last()).0;
        let action = before.step(events.last()).1;
        let now = performed(start.actions(events));
        match action {
            ActionView::Perform(command) => {
                assert(now == done.push(command));
                if after.status is Releasing {
                    assert(now.take(after.issued as int) =~= done.take(before.issued as int));
                } else {
                    assert(command == plan(script)[before.issued as int]);
                    assert(done.take(before.issued as int) =~= done);
                    assert(now.take(after.issued as int) =~= plan(script).take(
                        after.issued as int,
                    ));
                }
            },
            _ => {
                assert(now == done);
            },
        }
    }
}

/// A run that has completed has asked the host for every command of the
/// plan, in the order of the plan, each exactly once, and for nothing else.
pub proof fn lemma_completed_run_performs_the_plan(script: ScriptView, events: Seq<EventView>)
    requires
        script.fits(),
        SequencerView::fresh(script).after_events(events).status is Finished,
    ensures
        performed(SequencerView::fresh(script).actions(events)) == plan(script),
{
    let done = performed(SequencerView::fresh(script).actions(events));
    lemma_run_follows_plan(script, events);
    lemma_run_is_consistent(script, events);
    assert(done.take(done.len() as int) =~= done);
    assert(plan(script).take(plan(script).len() as int) =~= plan(script));
}

/// The event that answers a command when nothing has gone wrong: a signal
/// for the wait of the race, `Completed` for every other command.
pub open spec fn answer(command: CommandView, signal: Signal) -> EventView {
    if command is AwaitSignal {
        EventView::Signal(signal)
    } else {
        EventView::Completed
    }
}

/// A run goes on for as long as the host answers: the answer to the pending
/// command brings the next command of the plan, or completes the run after
/// the last one. No answer is ignored and none aborts the run.
pub proof fn lemma_answer_makes_progress(state: SequencerView, signal: Signal)
    requires
        state.consistent(),
        state.status is Running,
    ensures
        state.issued < plan(state.script).len() ==> state.step(answer(state.pending(), signal)).1
            == ActionView::Perform(plan(state.script)[state.issued as int]) && state.step(
            answer(state.pending(), signal),
        ).0.issued == state.issued + 1 && state.step(answer(state.pending(), signal)).0.status
            is Running,
        state.issued == plan(state.script).len() ==> state.step(answer(state.pending(), signal)).1
            == ActionView::Complete && state.step(answer(state.pending(), signal)).0.status
            is Finished,
{
}

/// The states of a run, one after another: each is consistent, each comes
/// from the one before by a step, and none takes back a command.
pub proof fn lemma_run_states(script: ScriptView, events: Seq<EventView>, j: int, upto: int)
    requires
        script.fits(),
        0 <= j < upto <= events.len(),
    ensures
        SequencerView::fresh(script).after_events(events.take(j)).consistent(),
        SequencerView::fresh(script).after_events(events.take(j)).script == script,
        SequencerView::fresh(script).after_events(events.take(j + 1)) == SequencerView::fresh(
            script,
        ).after_events(events.take(j)).step(events[j]).0,
        SequencerView::fresh(script).after_events(events.take(j + 1)).issued
            <= SequencerView::fresh(script).after_events(events.take(upto)).issued,
        SequencerView::fresh(script).after_events(events.take(j)).is_over()
            ==> SequencerView::fresh(script).after_events(events.take(upto))
            == SequencerView::fresh(script).after_events(events.take(j)),
{
    let start = SequencerView::fresh(script);
    lemma_plan_len(script);
    lemma_run_is_consistent(script, events.take(j));
    assert(events.take(j + 1).drop_last() =~= events.take(j));
    assert(events.take(j + 1).last() == events[j]);
    assert(events.take(upto).take(j) =~= events.take(j));
    assert(events.take(upto).take(j + 1) =~= events.take(j + 1));
    lemma_after_events(start, events.take(upto), j);
    lemma_after_events(start, events.take(upto), j + 1);
}

proof fn lemma_lookup_phase_action(state: SequencerView, event: EventView, limit: nat)
    requires
        state.consistent(),
        state.step(event).0.issued <= limit,
        limit <= state.script.resolution_order().len(),
        !state.is_over(),
    ensures
        state.step(event).1 matches ActionView::Perform(command) ==> command is Resolve,
        !(state.step(event).1 is Abort) || state.step(event).0.is_over(),
{
    lemma_plan_len(state.script);
    lemma_lookups_come_first(state.script);
}

/// A run in which a lookup fails changes nothing on the page. The host is
/// told at once that the run is aborted and which identifier was missing;
/// every command that it was asked to carry out before was a lookup, and
/// whatever it reports afterwards is ignored.
pub proof fn lemma_failed_lookup_changes_nothing(
    script: ScriptView,
    events: Seq<EventView>,
    at: int,
)
    requires
        script.fits(),
        0 <= at < events.len(),
        SequencerView::fresh(script).after_events(events.take(at)).status is Running,
        SequencerView::fresh(script).after_events(events.take(at)).pending() is Resolve,
        events[at] is NotFound,
    ensures
        SequencerView::fresh(script).actions(events)[at] == ActionView::Abort(
            SequenceErrorView::ElementNotFound {
                id: SequencerView::fresh(script).after_events(events.take(at)).pending()->id,
            },
        ),
        forall|j: int|
            0 <= j < at ==> (#[trigger] SequencerView::fresh(script).actions(events)[j]
                matches ActionView::Perform(command) ==> command is Resolve),
        forall|j: int|
            0 <= j < at ==> !(#[trigger] SequencerView::fresh(script).actions(events)[j] is Abort),
        forall|j: int|
            at < j < events.len() ==> #[trigger] SequencerView::fresh(script).actions(events)[j]
                is Ignore,
{
    let start = SequencerView::fresh(script);
    let before = start.after_events(events.take(at));
    let actions = start.actions(events);
    let lookups = script.resolution_order().len();
    lemma_run_states(script, events, at, at + 1);
    assert(before.issued <= lookups && !before.race.listening && before.missing()
        == (SequenceErrorView::ElementNotFound { id: before.pending()->id })) by {
        lemma_plan_len(script);
        lemma_lookups_come_first(script);
        assert(plan(script)[before.issued - 1] is Resolve);
        lemma_plan_resolve(script, before.issued - 1);
    }
    let aborted = start.after_events(events.take(at + 1));
    assert(aborted.status is Aborted);
    assert forall|j: int| 0 <= j < at implies (#[trigger] actions[j] matches ActionView::Perform(
        command,
    ) ==> command is Resolve) && !(actions[j] is Abort) by {
        let state = start.after_events(events.take(j));
        lemma_run_states(script, events, j, at);
        if j + 1 < at {
            lemma_run_states(script, events, j + 1, at);
        }
        assert(!state.is_over() && !state.step(events[j]).0.is_over());
        lemma_lookup_phase_action(state, events[j], before.issued);
        assert(actions[j] == state.step(events[j]).1);
    }
    assert forall|j: int| at < j < events.len() implies #[trigger] actions[j] is Ignore by {
        lemma_run_states(script, events, at + 1, j + 1);
        if at + 1 < j {
            lemma_run_states(script, events, at + 1, j);
        }
        lemma_run_states(script, events, j, j + 1);
    }
}

/// A signal counts only as the answer to a pending wait for the race. At
/// any other time, and so after the race was settled, it is dropped: the
/// state stays as it is and the host is asked for nothing.
pub proof fn lemma_stray_signal_is_ignored(state: SequencerView, signal: Signal)
    requires
        state.consistent(),
        !(state.status is Running && state.pending() is AwaitSignal),
    ensures
        state.step(EventView::Signal(signal)) == (state, ActionView::Ignore),
        state.race.outcome is Some ==> !(state.status is Running && state.pending() is AwaitSignal),
{
    lemma_plan_len(state.script);
    lemma_race_commands(state.script);
}

/// The race of a run is settled once: an outcome that is recorded is never
/// changed. By the time the run goes on after the race, and whenever a run
/// is over, no listener is left registered.
pub proof fn lemma_race_is_settled_once(state: SequencerView, event: EventView)
    requires
        state.consistent(),
    ensures
        state.race.outcome is Some ==> state.step(event).0.race.outcome == state.race.outcome,
        state.race.outcome is None && state.step(event).0.race.outcome is Some ==> state.status
            is Running && state.pending() is AwaitSignal && event is Signal && state.step(
            event,
        ).0.race.outcome == Some(outcome_of(event->Signal_0)) && state.step(
            event,
        ).1 == ActionView::Perform(
            CommandView::Unsubscribe { element: ElementHandle::FadeTarget },
        ),
        state.issued > closing_start(state.script) + 5 || state.is_over()
            ==> !state.race.listening,
{
    lemma_plan_len(state.script);
    lemma_race_commands(state.script);
    lemma_plan_closing(state.script, 4);
}

} // verus!
