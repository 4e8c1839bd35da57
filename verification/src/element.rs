//! Handles for the elements a script names, and the display states applied to them.
use vstd::prelude::*;

verus! {

/// Stands for one element of the page by the role it plays in a script.
///
/// A handle means nothing until the host has resolved it: the sequencer asks
/// for every handle of its script once, before the first mutation, and the
/// host keeps the element it found under that handle for the rest of the run.
#[derive(Clone, Copy, Debug, PartialEq, Eq, Hash, Structural)]
pub enum ElementHandle {
    /// The container of the line with this index.
    Container(usize),
    /// The slot that receives the text of the line with this index.
    TextTarget(usize),
    /// The caret of the line with this index.
    Caret(usize),
    /// The block that fades out once all lines are typed.
    FadeTarget,
    /// The element shown last.
    Finale,
}

/// A named visual mode of an element.
#[derive(Clone, Copy, Debug, PartialEq, Eq, Structural)]
pub enum DisplayState {
    Shown,
    Fading,
}

impl DisplayState {
    /// The style class that puts an element into this state.
    pub open spec fn spec_class_name(self) -> Seq<char> {
        match self {
            DisplayState::Shown => "show"@,
            DisplayState::Fading => "fadeout"@,
        }
    }

    /// The style class that puts an element into this state.
    pub fn class_name(&self) -> (name: &'static str)
        ensures
            name@ == self.spec_class_name(),
    {
        match self {
            DisplayState::Shown => "show",
            DisplayState::Fading => "fadeout",
        }
    }
}

} // verus!
