//! The sequencer: the state machine that a host drives through a run.
use crate::command::{Action, ActionView, Command, Event, SequenceError};
use crate::element::{DisplayState, ElementHandle};
use crate::model::{lemma_step_keeps_consistency, SequencerView, Status};
use crate::plan::{
    closing_start, lemma_line_commands, lemma_plan_closing, lemma_plan_len, lemma_plan_line,
    lemma_plan_resolve, lemma_race_commands, line_len, line_start, plan,
};
use crate::race::{TransitionRace, TransitionWaitOutcome};
use crate::script::{lemma_resolution_order, lemma_script_fits, Script};
use crate::typed_reveal::{lemma_reveal_command_at, RevealView, TypedReveal};
use vstd::prelude::*;

verus! {

/// The command that is with the host, by its place in the run.
#[derive(Clone, Copy, Debug, PartialEq, Eq, Structural)]
enum Stage {
    Ready,
    Resolving(ElementHandle),
    Showing(usize),
    Typing(usize),
    Pausing(usize),
    Fading,
    Subscribing,
    Timing,
    Awaiting,
    Unsubscribing,
    Settling,
    Presenting,
    Releasing,
    Finished,
    Aborted,
}

/// Runs one script, once. The host calls [`Sequencer::step`] with
/// [`Event::Begin`], carries out the command it is given, reports how that
/// went with another call, and so on until it is told that the run is over.
pub struct Sequencer {
    script: Script,
    stage: Stage,
    /// The element that the pending command acts on.
    target: Option<ElementHandle>,
    /// The reveal of the line that is being typed.
    typing: Option<TypedReveal>,
    race: TransitionRace,
    /// The error of a run that waits for its listener to be removed.
    held: Option<SequenceError>,
    issued: Ghost<nat>,
}

impl View for Sequencer {
    type V = SequencerView;

    closed spec fn view(&self) -> SequencerView {
        SequencerView {
            script: self.script@,
            status: match self.stage {
                Stage::Ready => Status::Ready,
                Stage::Releasing => Status::Releasing(self.held->0@),
                Stage::Finished => Status::Finished,
                Stage::Aborted => Status::Aborted,
                _ => Status::Running,
            },
            issued: self.issued@,
            race: self.race@,
        }
    }
}

impl Sequencer {
    /// Whether a command of the plan is with the host.
    spec fn running(&self) -> bool {
        !(self.stage is Ready || self.stage is Releasing || self.stage is Finished
            || self.stage is Aborted)
    }

    /// The stage agrees with the number of commands handed out.
    spec fn positioned(&self) -> bool {
        let script = self.script@;
        let issued = self.issued@;
        let closing = closing_start(script);
        &&& issued <= plan(script).len()
        &&& self.stage is Releasing ==> self.held is Some && issued >= 1
        &&& self.typing matches Some(reveal) ==> reveal.wf()
        &&& self.running() ==> {
            &&& issued >= 1
            &&& self.target == plan(script)[issued - 1].element()
            &&& self.target matches Some(handle) ==> script.has(handle)
        }
        &&& match self.stage {
            Stage::Resolving(handle) => script.has(handle) && issued == script.order_index(handle)
                + 1 && issued <= closing,
            Stage::Showing(line) => line < script.lines.len() && issued == line_start(
                script,
                line as nat,
            ) + 1 && issued <= closing,
            Stage::Typing(line) => {
                &&& line < script.lines.len()
                &&& issued <= closing
                &&& self.typing matches Some(reveal)
                &&& reveal@.target == ElementHandle::TextTarget(line)
                &&& reveal@.caret == ElementHandle::Caret(line)
                &&& reveal@.text == script.lines[line as int].text
                &&& reveal@.ms_per_char == script.speed
                &&& 1 <= reveal@.issued <= 2 * script.lines[line as int].text.len() + 4
                &&& issued == line_start(script, line as nat) + 1 + reveal@.issued
            },
            Stage::Pausing(line) => line < script.lines.len() && issued == line_start(
                script,
                line as nat,
            ) + line_len(script, line as int) && issued <= closing,
            Stage::Fading => issued == closing + 1,
            Stage::Subscribing => issued == closing + 2,
            Stage::Timing => issued == closing + 3,
            Stage::Awaiting => issued == closing + 4,
            Stage::Unsubscribing => issued == closing + 5,
            Stage::Settling => issued == closing + 6,
            Stage::Presenting => issued == closing + 7,
            Stage::Ready => issued == 0,
            Stage::Releasing | Stage::Finished | Stage::Aborted => true,
        }
    }

    /// `after` is this sequencer once the next command of the plan has gone
    /// to the host with `action`.
    spec fn moved_on(&self, after: &Sequencer, action: Action) -> bool {
        &&& after.positioned()
        &&& after.running()
        &&& after.script == self.script
        &&& after.race == self.race
        &&& after.issued@ == self.issued@ + 1
        &&& action@ == ActionView::Perform(plan(self.script@)[self.issued@ as int])
    }

    /// The invariant of a sequencer.
    pub closed spec fn wf(&self) -> bool {
        self.positioned() && self@.consistent()
    }

    /// A sequencer is always in a state that a run can reach, so what holds
    /// of every such state holds of it.
    pub proof fn lemma_consistent(&self)
        requires
            self.wf(),
        ensures
            self@.consistent(),
    {
    }

    /// A sequencer for `script` that has asked nothing of the host yet.
    pub fn new(script: Script) -> (sequencer: Sequencer)
        ensures
            sequencer.wf(),
            sequencer@ == SequencerView::fresh(script@),
    {
        proof {
            lemma_script_fits(&script);
        }
        Sequencer {
            script,
            stage: Stage::Ready,
            target: None,
            typing: None,
            race: TransitionRace::new(),
            held: None,
            issued: Ghost(0),
        }
    }

    /// Hands the command `command`, which stands at the place `self.issued` of
    /// the plan, to the host.
    fn hand_out(&mut self, stage: Stage, command: Command) -> (action: Action)
        requires
            old(self).issued@ < plan(old(self).script@).len(),
            command@ == plan(old(self).script@)[old(self).issued@ as int],
        ensures
            action == Action::Perform(command),
            final(self).stage == stage,
            final(self).target == command@.element(),
            final(self).issued@ == old(self).issued@ + 1,
            final(self).script == old(self).script,
            final(self).typing == old(self).typing,
            final(self).race == old(self).race,
            final(self).held == old(self).held,
    {
        self.target = command.element();
        self.stage = stage;
        self.issued = Ghost((self.issued@ + 1) as nat);
        Action::Perform(command)
    }

    /// Hands out the first closing command.
    fn begin_closing(&mut self) -> (action: Action)
        requires
            old(self).issued@ == closing_start(old(self).script@),
            old(self).typing matches Some(reveal) ==> reveal.wf(),
            !(old(self).stage is Releasing),
        ensures
            old(self).moved_on(final(self), action),
    {
        proof {
            lemma_script_fits(&self.script);
            lemma_plan_len(self.script@);
            lemma_plan_closing(self.script@, 0);
        }
        self.hand_out(
            Stage::Fading,
            Command::SetDisplayState {
                element: ElementHandle::FadeTarget,
                state: DisplayState::Fading,
            },
        )
    }

    /// Hands out the first command of a line.
    fn begin_line(&mut self, line: usize) -> (action: Action)
        requires
            line < old(self).script@.lines.len(),
            old(self).issued@ == line_start(old(self).script@, line as nat),
            old(self).typing matches Some(reveal) ==> reveal.wf(),
            !(old(self).stage is Releasing),
        ensures
            old(self).moved_on(final(self), action),
    {
        proof {
            lemma_script_fits(&self.script);
            lemma_plan_len(self.script@);
            lemma_line_commands(self.script@, line as int);
            lemma_plan_line(self.script@, line as int, 0);
        }
        self.hand_out(
            Stage::Showing(line),
            Command::SetDisplayState {
                element: ElementHandle::Container(line),
                state: DisplayState::Shown,
            },
        )
    }

    /// Hands out what comes after the last lookup.
    fn begin_lines(&mut self) -> (action: Action)
        requires
            old(self).issued@ == line_start(old(self).script@, 0),
            old(self).typing matches Some(reveal) ==> reveal.wf(),
            !(old(self).stage is Releasing),
        ensures
            old(self).moved_on(final(self), action),
    {
        if self.script.lines.len() > 0 {
            self.begin_line(0)
        } else {
            self.begin_closing()
        }
    }

    /// Hands out the next lookup, or what comes after the last one.
    fn advance_lookup(&mut self, first: bool) -> (action: Action)
        requires
            old(self).positioned(),
            first ==> old(self).stage is Ready,
            !first ==> old(self).stage is Resolving,
        ensures
            old(self).moved_on(final(self), action),
    {
        proof {
            lemma_script_fits(&self.script);
            lemma_plan_len(self.script@);
            lemma_resolution_order(self.script@);
        }
        let next = match self.stage {
            Stage::Resolving(handle) => self.script.handle_after(handle),
            _ => Some(self.script.first_handle()),
        };
        match next {
            Some(handle) => {
                proof {
                    lemma_plan_resolve(self.script@, self.issued@ as int);
                }
                let id = self.script.element_id(handle).unwrap();
                self.hand_out(Stage::Resolving(handle), Command::Resolve { handle, id })
            },
            None => self.begin_lines(),
        }
    }

    /// Hands out the next command of the line that is with the host.
    fn advance_line(&mut self, line: usize) -> (action: Action)
        requires
            old(self).positioned(),
            old(self).stage == Stage::Showing(line) || old(self).stage == Stage::Typing(line)
                || old(self).stage == Stage::Pausing(line),
        ensures
            old(self).moved_on(final(self), action),
    {
        proof {
            lemma_script_fits(&self.script);
            lemma_plan_len(self.script@);
            lemma_line_commands(self.script@, line as int);
            lemma_plan_line(self.script@, line as int, 0);
        }
        match self.stage {
            Stage::Showing(_) => {
                let mut reveal = TypedReveal::new(
                    ElementHandle::TextTarget(line),
                    ElementHandle::Caret(line),
                    self.script.lines[line].text.as_str(),
                    self.script.speed,
                );
                proof {
                    lemma_reveal_command_at(
                        reveal@.target,
                        reveal@.caret,
                        reveal@.text,
                        reveal@.ms_per_char,
                        0,
                    );
                    lemma_plan_line(self.script@, line as int, 1);
                }
                let command = reveal.next().unwrap();
                self.typing = Some(reveal);
                self.hand_out(Stage::Typing(line), command)
            },
            Stage::Typing(_) => {
                let mut reveal = self.typing.take().unwrap();
                proof {
                    lemma_reveal_command_at(
                        reveal@.target,
                        reveal@.caret,
                        reveal@.text,
                        reveal@.ms_per_char,
                        0,
                    );
                    lemma_plan_line(self.script@, line as int, (1 + reveal@.issued) as int);
                }
                let next = reveal.next();
                self.typing = Some(reveal);
                match next {
                    Some(command) => self.hand_out(Stage::Typing(line), command),
                    None => {
                        let ms = self.script.gap_after(line);
                        self.hand_out(Stage::Pausing(line), Command::Sleep { ms })
                    },
                }
            },
            _ => {
                if line + 1 < self.script.lines.len() {
                    self.begin_line(line + 1)
                } else {
                    self.begin_closing()
                }
            },
        }
    }

    /// Hands out the next closing command, or completes the run.
    fn advance_closing(&mut self) -> (action: Action)
        requires
            old(self).positioned(),
            old(self).running(),
            !(old(self).stage is Resolving || old(self).stage is Showing || old(self).stage
                is Typing || old(self).stage is Pausing),
        ensures
            final(self).positioned(),
            final(self).script == old(self).script,
            final(self).race == old(self).race,
            (final(self)@, action@) == old(self)@.issue(),
    {
        proof {
            lemma_script_fits(&self.script);
            lemma_plan_len(self.script@);
            lemma_plan_closing(self.script@, 1);
            lemma_plan_closing(self.script@, 2);
            lemma_plan_closing(self.script@, 3);
            lemma_plan_closing(self.script@, 4);
            lemma_plan_closing(self.script@, 5);
            lemma_plan_closing(self.script@, 6);
        }
        match self.stage {
            Stage::Fading => self.hand_out(
                Stage::Subscribing,
                Command::Subscribe { element: ElementHandle::FadeTarget },
            ),
            Stage::Subscribing => {
                let ms = self.script.fade_fallback_ms;
                self.hand_out(Stage::Timing, Command::StartTimer { ms })
            },
            Stage::Timing => self.hand_out(Stage::Awaiting, Command::AwaitSignal),
            Stage::Awaiting => self.hand_out(
                Stage::Unsubscribing,
                Command::Unsubscribe { element: ElementHandle::FadeTarget },
            ),
            Stage::Unsubscribing => {
                let ms = self.script.gap_before_finale;
                self.hand_out(Stage::Settling, Command::Sleep { ms })
            },
            Stage::Settling => self.hand_out(
                Stage::Presenting,
                Command::SetDisplayState {
                    element: ElementHandle::Finale,
                    state: DisplayState::Shown,
                },
            ),
            _ => {
                self.stage = Stage::Finished;
                Action::Complete
            },
        }
    }

    /// Hands out the next command of the plan, or completes the run where
    /// the plan is exhausted.
    fn advance(&mut self) -> (action: Action)
        requires
            old(self).positioned(),
            old(self).running() || old(self).stage is Ready,
        ensures
            final(self).positioned(),
            final(self).race == old(self).race,
            (final(self)@, action@) == old(self)@.issue(),
    {
        match self.stage {
            Stage::Ready => self.advance_lookup(true),
            Stage::Resolving(_) => self.advance_lookup(false),
            Stage::Showing(line) | Stage::Typing(line) | Stage::Pausing(line) => self.advance_line(
                line,
            ),
            _ => self.advance_closing(),
        }
    }

    /// Ends the run with `error`, after the listener of the race is removed
    /// where one is registered.
    fn abort(&mut self, error: SequenceError) -> (action: Action)
        requires
            old(self).wf(),
            old(self).running(),
        ensures
            final(self).positioned(),
            (final(self)@, action@) == old(self)@.fail(error@),
    {
        proof {
            lemma_script_fits(&self.script);
            lemma_plan_len(self.script@);
            lemma_race_commands(self.script@);
            lemma_plan_closing(self.script@, 4);
        }
        let removal_pending = match self.stage {
            Stage::Unsubscribing => true,
            _ => false,
        };
        if self.race.is_listening() && !removal_pending {
            self.held = Some(error);
            self.stage = Stage::Releasing;
            Action::Perform(Command::Unsubscribe { element: ElementHandle::FadeTarget })
        } else {
            self.race.release();
            self.stage = Stage::Aborted;
            Action::Abort(error)
        }
    }

    /// The error for a pending command whose element does not exist.
    fn missing(&self) -> (error: SequenceError)
        requires
            self.wf(),
            self.running(),
        ensures
            error@ == self@.missing(),
    {
        match self.target {
            Some(handle) => SequenceError::ElementNotFound {
                id: self.script.element_id(handle).unwrap(),
            },
            None => SequenceError::BindingFailure { detail: String::new() },
        }
    }

    /// Handles one event: moves on by what the event says and tells the host
    /// what to do next. The state after the call and the action returned are
    /// those of [`SequencerView::step`].
    pub fn step(&mut self, event: Event) -> (action: Action)
        requires
            old(self).wf(),
        ensures
            final(self).wf(),
            (final(self)@, action@) == old(self)@.step(event@),
    {
        proof {
            lemma_step_keeps_consistency(self@, event@);
            lemma_script_fits(&self.script);
            lemma_plan_len(self.script@);
            lemma_race_commands(self.script@);
            lemma_plan_closing(self.script@, 1);
            lemma_plan_closing(self.script@, 3);
            lemma_plan_closing(self.script@, 4);
        }
        match self.stage {
            Stage::Ready => match event {
                Event::Begin => self.advance(),
                _ => Action::Ignore,
            },
            Stage::Finished | Stage::Aborted => Action::Ignore,
            Stage::Releasing => match event {
                Event::Begin | Event::Signal(_) => Action::Ignore,
                _ => {
                    let error = self.held.take().unwrap();
                    self.race.release();
                    self.stage = Stage::Aborted;
                    Action::Abort(error)
                },
            },
            stage => match event {
                Event::Begin => Action::Ignore,
                Event::Signal(signal) => match stage {
                    Stage::Awaiting => {
                        let _ = self.race.deliver(signal);
                        self.advance()
                    },
                    _ => Action::Ignore,
                },
                Event::Completed => match stage {
                    Stage::Awaiting => Action::Ignore,
                    Stage::Subscribing => {
                        self.race.listen();
                        self.advance()
                    },
                    Stage::Unsubscribing => {
                        self.race.release();
                        self.advance()
                    },
                    _ => self.advance(),
                },
                Event::NotFound => {
                    let error = self.missing();
                    self.abort(error)
                },
                Event::Failed(detail) => self.abort(SequenceError::BindingFailure { detail }),
            },
        }
    }

    /// Whether the run is over: completed or aborted.
    pub fn is_over(&self) -> (over: bool)
        ensures
            over == self@.is_over(),
    {
        match self.stage {
            Stage::Finished | Stage::Aborted => true,
            _ => false,
        }
    }

    /// How the race of the fade step was settled, once it is.
    pub fn fade_outcome(&self) -> (outcome: Option<TransitionWaitOutcome>)
        ensures
            outcome == self@.race.outcome,
    {
        self.race.outcome()
    }

    /// The script of this run.
    pub fn script(&self) -> (script: &Script)
        ensures
            script@ == self@.script,
    {
        &self.script
    }
}

} // verus!
