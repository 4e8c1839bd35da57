//! What passes between the sequencer and its host: commands going out,
//! events coming back, and the error a run can end with.
use crate::element::{DisplayState, ElementHandle};
use crate::race::Signal;
use vstd::prelude::*;
use vstd::string::*;

verus! {

/// One thing the host is asked to do. The host performs it, suspending for as
/// long as it takes, and answers with one [`Event`].
#[derive(Clone, Debug, PartialEq, Eq)]
pub enum Command {
    /// Look up the element with this identifier and keep it under `handle`.
    Resolve { handle: ElementHandle, id: String },
    /// Put an element into a display state.
    SetDisplayState { element: ElementHandle, state: DisplayState },
    /// Show or hide a caret.
    SetCaretVisible { caret: ElementHandle, visible: bool },
    /// Replace the visible text of an element.
    SetText { target: ElementHandle, text: String },
    /// Suspend for this many milliseconds.
    Sleep { ms: u32 },
    /// Register a one-shot listener for the transition-finished notification.
    Subscribe { element: ElementHandle },
    /// Start the fire-once fallback timer of the race.
    StartTimer { ms: u32 },
    /// Suspend until the notification or the timer completes, and report
    /// which came first. A completion since the listener and the timer were
    /// set up counts: the host keeps it until it is asked.
    AwaitSignal,
    /// Remove the listener for the transition-finished notification.
    Unsubscribe { element: ElementHandle },
}

/// A [`Command`] as a value.
pub enum CommandView {
    Resolve { handle: ElementHandle, id: Seq<char> },
    SetDisplayState { element: ElementHandle, state: DisplayState },
    SetCaretVisible { caret: ElementHandle, visible: bool },
    SetText { target: ElementHandle, text: Seq<char> },
    Sleep { ms: u32 },
    Subscribe { element: ElementHandle },
    StartTimer { ms: u32 },
    AwaitSignal,
    Unsubscribe { element: ElementHandle },
}

impl View for Command {
    type V = CommandView;

    open spec fn view(&self) -> CommandView {
        match *self {
            Command::Resolve { handle, id } => CommandView::Resolve { handle, id: id@ },
            Command::SetDisplayState { element, state } => CommandView::SetDisplayState {
                element,
                state,
            },
            Command::SetCaretVisible { caret, visible } => CommandView::SetCaretVisible {
                caret,
                visible,
            },
            Command::SetText { target, text } => CommandView::SetText { target, text: text@ },
            Command::Sleep { ms } => CommandView::Sleep { ms },
            Command::Subscribe { element } => CommandView::Subscribe { element },
            Command::StartTimer { ms } => CommandView::StartTimer { ms },
            Command::AwaitSignal => CommandView::AwaitSignal,
            Command::Unsubscribe { element } => CommandView::Unsubscribe { element },
        }
    }
}

impl Command {
    /// The element this command acts on, if it acts on one.
    pub fn element(&self) -> (element: Option<ElementHandle>)
        ensures
            element == self@.element(),
    {
        match self {
            Command::Resolve { handle, .. } => Some(*handle),
            Command::SetDisplayState { element, .. } => Some(*element),
            Command::SetCaretVisible { caret, .. } => Some(*caret),
            Command::SetText { target, .. } => Some(*target),
            Command::Subscribe { element } => Some(*element),
            Command::Unsubscribe { element } => Some(*element),
            Command::Sleep { .. } | Command::StartTimer { .. } | Command::AwaitSignal => None,
        }
    }
}

impl CommandView {
    /// The element a command acts on, if it acts on one.
    pub open spec fn element(self) -> Option<ElementHandle> {
        match self {
            CommandView::Resolve { handle, .. } => Some(handle),
            CommandView::SetDisplayState { element, .. } => Some(element),
            CommandView::SetCaretVisible { caret, .. } => Some(caret),
            CommandView::SetText { target, .. } => Some(target),
            CommandView::Subscribe { element } => Some(element),
            CommandView::Unsubscribe { element } => Some(element),
            CommandView::Sleep { .. } | CommandView::StartTimer { .. } | CommandView::AwaitSignal => None,
        }
    }
}

/// What the host reports back.
#[derive(Clone, Debug, PartialEq, Eq)]
pub enum Event {
    /// The host is ready for the first command.
    Begin,
    /// The pending command was carried out.
    Completed,
    /// The element that the pending command names does not exist. Reported
    /// for a command that names no element, it counts as a failure of the
    /// binding that has no text.
    NotFound,
    /// The pending command failed in the binding; the text says how.
    Failed(String),
    /// A source of the race completed.
    Signal(Signal),
}

/// An [`Event`] as a value.
pub enum EventView {
    Begin,
    Completed,
    NotFound,
    Failed(Seq<char>),
    Signal(Signal),
}

impl View for Event {
    type V = EventView;

    open spec fn view(&self) -> EventView {
        match *self {
            Event::Begin => EventView::Begin,
            Event::Completed => EventView::Completed,
            Event::NotFound => EventView::NotFound,
            Event::Failed(detail) => EventView::Failed(detail@),
            Event::Signal(signal) => EventView::Signal(signal),
        }
    }
}

/// Why a run was aborted.
#[derive(Clone, Debug, PartialEq, Eq)]
pub enum SequenceError {
    /// No element has this identifier.
    ElementNotFound { id: String },
    /// An operation on an element failed; the text is the binding's own.
    BindingFailure { detail: String },
}

/// A [`SequenceError`] as a value.
pub enum SequenceErrorView {
    ElementNotFound { id: Seq<char> },
    BindingFailure { detail: Seq<char> },
}

impl View for SequenceError {
    type V = SequenceErrorView;

    open spec fn view(&self) -> SequenceErrorView {
        match *self {
            SequenceError::ElementNotFound { id } => SequenceErrorView::ElementNotFound { id: id@ },
            SequenceError::BindingFailure { detail } => SequenceErrorView::BindingFailure {
                detail: detail@,
            },
        }
    }
}

impl SequenceErrorView {
    /// The text that describes an error to the host: the missing identifier
    /// behind `missing #`, or the binding's own words.
    pub open spec fn message(self) -> Seq<char> {
        match self {
            SequenceErrorView::ElementNotFound { id } => "missing #"@ + id,
            SequenceErrorView::BindingFailure { detail } => detail,
        }
    }
}

impl SequenceError {
    /// The text that describes this error to the host.
    pub fn message(&self) -> (text: String)
        ensures
            text@ == self@.message(),
    {
        match self {
            SequenceError::ElementNotFound { id } => String::from_str("missing #").concat(
                id.as_str(),
            ),
            SequenceError::BindingFailure { detail } => detail.clone(),
        }
    }
}

/// What the sequencer tells the host after an event.
#[derive(Clone, Debug, PartialEq, Eq)]
pub enum Action {
    /// Carry out this command, then report one event for it.
    Perform(Command),
    /// The run is over and every step was taken.
    Complete,
    /// The run is over and ended with this error.
    Abort(SequenceError),
    /// The event had no bearing on the run: nothing is to be done for it.
    Ignore,
}

/// An [`Action`] as a value.
pub enum ActionView {
    Perform(CommandView),
    Complete,
    Abort(SequenceErrorView),
    Ignore,
}

impl View for Action {
    type V = ActionView;

    open spec fn view(&self) -> ActionView {
        match *self {
            Action::Perform(command) => ActionView::Perform(command@),
            Action::Complete => ActionView::Complete,
            Action::Abort(error) => ActionView::Abort(error@),
            Action::Ignore => ActionView::Ignore,
        }
    }
}

} // verus!
