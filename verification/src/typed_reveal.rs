//! The typed reveal: a text shown one code point at a time, with a caret
//! that is visible for as long as the typing lasts.
use crate::command::{Command, CommandView};
use crate::element::ElementHandle;
use vstd::prelude::*;
use vstd::string::*;

verus! {

/// The first `count` code points of `text`, or all of it where it has fewer.
pub open spec fn spec_prefix(text: Seq<char>, count: nat) -> Seq<char> {
    if count <= text.len() {
        text.take(count as int)
    } else {
        text
    }
}

/// The first `count` code points of `text`, or all of it where it has fewer.
/// A code point counts as one, however many bytes encode it.
pub fn prefix(text: &str, count: usize) -> (shown: String)
    ensures
        shown@ == spec_prefix(text@, count as nat),
{
    let total = text.unicode_len();
    if count <= total {
        text.substring_char(0, count).to_owned()
    } else {
        text.to_owned()
    }
}

/// The ticks of a reveal: for each prefix length from 0 to the length of the
/// text, the text is set to that prefix and the host then sleeps.
pub open spec fn reveal_ticks(target: ElementHandle, text: Seq<char>, ms_per_char: u32) -> Seq<
    CommandView,
> {
    Seq::new(
        2 * (text.len() + 1),
        |j: int|
            if j % 2 == 0 {
                CommandView::SetText { target, text: text.take(j / 2) }
            } else {
                CommandView::Sleep { ms: ms_per_char }
            },
    )
}

/// Everything a reveal asks of the host, in order: the caret is shown, the
/// ticks run, the caret is hidden.
pub open spec fn reveal_commands(
    target: ElementHandle,
    caret: ElementHandle,
    text: Seq<char>,
    ms_per_char: u32,
) -> Seq<CommandView> {
    seq![CommandView::SetCaretVisible { caret, visible: true }] + reveal_ticks(
        target,
        text,
        ms_per_char,
    ) + seq![CommandView::SetCaretVisible { caret, visible: false }]
}

/// The texts that `commands` write to `target`, in the order they are written.
pub open spec fn snapshots_on(commands: Seq<CommandView>, target: ElementHandle) -> Seq<Seq<char>>
    decreases commands.len(),
{
    if commands.len() == 0 {
        Seq::empty()
    } else {
        let earlier = snapshots_on(commands.drop_last(), target);
        match commands.last() {
            CommandView::SetText { target: written, text } if written == target => earlier.push(
                text,
            ),
            _ => earlier,
        }
    }
}

/// Whether `caret` is visible once `commands` have been carried out, given
/// that it was hidden before.
pub open spec fn caret_visible_after(commands: Seq<CommandView>, caret: ElementHandle) -> bool
    decreases commands.len(),
{
    if commands.len() == 0 {
        false
    } else {
        match commands.last() {
            CommandView::SetCaretVisible { caret: toggled, visible } if toggled == caret => visible,
            _ => caret_visible_after(commands.drop_last(), caret),
        }
    }
}

/// The command at each position of a reveal.
pub proof fn lemma_reveal_command_at(
    target: ElementHandle,
    caret: ElementHandle,
    text: Seq<char>,
    ms_per_char: u32,
    at: int,
)
    requires
        0 <= at < 2 * text.len() + 4,
    ensures
        reveal_commands(target, caret, text, ms_per_char).len() == 2 * text.len() + 4,
        at == 0 ==> reveal_commands(target, caret, text, ms_per_char)[at]
            == (CommandView::SetCaretVisible { caret, visible: true }),
        0 < at < 2 * text.len() + 3 && at % 2 == 1 ==> reveal_commands(
            target,
            caret,
            text,
            ms_per_char,
        )[at] == (CommandView::SetText { target, text: text.take((at - 1) / 2) }),
        0 < at < 2 * text.len() + 3 && at % 2 == 0 ==> reveal_commands(
            target,
            caret,
            text,
            ms_per_char,
        )[at] == (CommandView::Sleep { ms: ms_per_char }),
        at == 2 * text.len() + 3 ==> reveal_commands(target, caret, text, ms_per_char)[at]
            == (CommandView::SetCaretVisible { caret, visible: false }),
{
    let ticks = reveal_ticks(target, text, ms_per_char);
    let opening = seq![CommandView::SetCaretVisible { caret, visible: true }];
    assert(ticks.len() == 2 * text.len() + 2);
    assert(opening.len() == 1);
    if 0 < at < 2 * text.len() + 3 {
        assert((opening + ticks)[at] == ticks[at - 1]);
    }
}

/// How many texts the first `count` commands of a reveal of `len` code points
/// have written.
spec fn written_by(count: int, len: nat) -> nat {
    if count < 2 {
        0
    } else if count / 2 <= len + 1 {
        (count / 2) as nat
    } else {
        len + 1
    }
}

proof fn lemma_snapshots_of_prefix(
    target: ElementHandle,
    caret: ElementHandle,
    text: Seq<char>,
    ms_per_char: u32,
    count: int,
)
    requires
        0 <= count <= 2 * text.len() + 4,
    ensures
        snapshots_on(reveal_commands(target, caret, text, ms_per_char).take(count), target)
            == Seq::new(written_by(count, text.len()), |i: int| text.take(i)),
    decreases count,
{
    let commands = reveal_commands(target, caret, text, ms_per_char);
    let head = commands.take(count);
    let expected = Seq::new(written_by(count, text.len()), |i: int| text.take(i));
    lemma_reveal_command_at(target, caret, text, ms_per_char, 0);
    if count == 0 {
        assert(snapshots_on(head, target) =~= expected);
    } else {
        lemma_reveal_command_at(target, caret, text, ms_per_char, count - 1);
        lemma_snapshots_of_prefix(target, caret, text, ms_per_char, count - 1);
        assert(head.drop_last() =~= commands.take(count - 1));
        assert(head.last() == commands[count - 1]);
        assert(snapshots_on(head, target) =~= expected);
    }
}

/// A reveal of a text of `n` code points writes exactly `n + 1` texts to its
/// target: the prefixes of length 0, 1, .. `n`, in that order. None is left
/// out and none comes twice.
pub proof fn lemma_reveal_writes_each_prefix_once(
    target: ElementHandle,
    caret: ElementHandle,
    text: Seq<char>,
    ms_per_char: u32,
)
    ensures
        snapshots_on(reveal_commands(target, caret, text, ms_per_char), target).len() == text.len()
            + 1,
        forall|i: int|
            0 <= i <= text.len() ==> #[trigger] snapshots_on(
                reveal_commands(target, caret, text, ms_per_char),
                target,
            )[i] == text.take(i),
        forall|i: int, j: int|
            0 <= i < j <= text.len() ==> #[trigger] snapshots_on(
                reveal_commands(target, caret, text, ms_per_char),
                target,
            )[i] != #[trigger] snapshots_on(
                reveal_commands(target, caret, text, ms_per_char),
                target,
            )[j],
{
    let commands = reveal_commands(target, caret, text, ms_per_char);
    lemma_reveal_command_at(target, caret, text, ms_per_char, 0);
    lemma_snapshots_of_prefix(target, caret, text, ms_per_char, commands.len() as int);
    assert(commands.take(commands.len() as int) =~= commands);
    let snapshots = snapshots_on(commands, target);
    assert forall|i: int, j: int| 0 <= i < j <= text.len() implies #[trigger] snapshots[i]
        != #[trigger] snapshots[j] by {
        assert(snapshots[i].len() == i);
        assert(snapshots[j].len() == j);
    }
}

proof fn lemma_caret_during(
    target: ElementHandle,
    caret: ElementHandle,
    text: Seq<char>,
    ms_per_char: u32,
    count: int,
)
    requires
        0 < count < 2 * text.len() + 4,
    ensures
        caret_visible_after(reveal_commands(target, caret, text, ms_per_char).take(count), caret),
    decreases count,
{
    let commands = reveal_commands(target, caret, text, ms_per_char);
    let head = commands.take(count);
    lemma_reveal_command_at(target, caret, text, ms_per_char, count - 1);
    assert(head.last() == commands[count - 1]);
    if count > 1 {
        lemma_caret_during(target, caret, text, ms_per_char, count - 1);
        assert(head.drop_last() =~= commands.take(count - 1));
    }
}

/// The caret is visible after each command of a reveal but the last, and
/// hidden after the last, whatever the text, the empty text included.
pub proof fn lemma_caret_visible_until_done(
    target: ElementHandle,
    caret: ElementHandle,
    text: Seq<char>,
    ms_per_char: u32,
)
    ensures
        forall|count: int|
            0 < count < reveal_commands(target, caret, text, ms_per_char).len()
                ==> caret_visible_after(
                #[trigger] reveal_commands(target, caret, text, ms_per_char).take(count),
                caret,
            ),
        !caret_visible_after(reveal_commands(target, caret, text, ms_per_char), caret),
{
    let commands = reveal_commands(target, caret, text, ms_per_char);
    lemma_reveal_command_at(target, caret, text, ms_per_char, (2 * text.len() + 3) as int);
    assert forall|count: int| 0 < count < commands.len() implies caret_visible_after(
        #[trigger] commands.take(count),
        caret,
    ) by {
        lemma_caret_during(target, caret, text, ms_per_char, count);
    }
}

/// Where a reveal stands, as the host can observe it.
#[derive(Clone, Copy, Debug, PartialEq, Eq, Structural)]
pub struct RevealState {
    /// The length, in code points, of the prefix last written to the target.
    pub prefix_len: usize,
    /// Whether the caret is visible.
    pub caret_visible: bool,
}

/// The part of a reveal that comes next.
#[derive(Clone, Copy, Debug, PartialEq, Eq, Structural)]
enum Phase {
    Start,
    Write,
    Wait,
    Finish,
    Done,
}

/// A reveal in progress. It hands out its commands one by one, in order.
#[derive(Debug)]
pub struct TypedReveal {
    target: ElementHandle,
    caret: ElementHandle,
    text: String,
    total: usize,
    ms_per_char: u32,
    index: usize,
    phase: Phase,
}

/// A [`TypedReveal`] as a value: what it reveals, where and how fast, and how
/// many of its commands it has handed out.
pub struct RevealView {
    pub target: ElementHandle,
    pub caret: ElementHandle,
    pub text: Seq<char>,
    pub ms_per_char: u32,
    pub issued: nat,
}

impl RevealView {
    /// The commands of this reveal.
    pub open spec fn commands(self) -> Seq<CommandView> {
        reveal_commands(self.target, self.caret, self.text, self.ms_per_char)
    }

    /// Whether every command has been handed out.
    pub open spec fn is_complete(self) -> bool {
        self.issued >= self.commands().len()
    }

    /// The caret is visible from the first command until the last.
    pub open spec fn caret_visible(self) -> bool {
        0 < self.issued < self.commands().len()
    }

    /// The length of the prefix last written: none is written by the first
    /// two commands, and each later pair of commands writes one code point more.
    pub open spec fn prefix_len(self) -> nat {
        if self.issued < 2 {
            0
        } else if (self.issued - 2) / 2 <= self.text.len() {
            ((self.issued - 2) / 2) as nat
        } else {
            self.text.len()
        }
    }
}

impl View for TypedReveal {
    type V = RevealView;

    closed spec fn view(&self) -> RevealView {
        RevealView {
            target: self.target,
            caret: self.caret,
            text: self.text@,
            ms_per_char: self.ms_per_char,
            issued: match self.phase {
                Phase::Start => 0,
                Phase::Write => (1 + 2 * self.index) as nat,
                Phase::Wait => (2 + 2 * self.index) as nat,
                Phase::Finish => (2 * self.total + 3) as nat,
                Phase::Done => (2 * self.total + 4) as nat,
            },
        }
    }
}

impl TypedReveal {
    /// The invariant of a reveal: its position lies within its text.
    pub closed spec fn wf(&self) -> bool {
        &&& self.total == self.text@.len()
        &&& self.index <= self.total
        &&& self.phase is Start ==> self.index == 0
        &&& (self.phase is Finish || self.phase is Done) ==> self.index == self.total
    }

    /// A reveal of `text` into `target` that has handed out nothing yet.
    pub fn new(target: ElementHandle, caret: ElementHandle, text: &str, ms_per_char: u32) -> (reveal:
        TypedReveal)
        ensures
            reveal.wf(),
            reveal@ == (RevealView { target, caret, text: text@, ms_per_char, issued: 0 }),
    {
        TypedReveal {
            target,
            caret,
            text: text.to_owned(),
            total: text.unicode_len(),
            ms_per_char,
            index: 0,
            phase: Phase::Start,
        }
    }

    /// Hands out the next command of the reveal, or `None` once all are out.
    pub fn next(&mut self) -> (command: Option<Command>)
        requires
            old(self).wf(),
        ensures
            final(self).wf(),
            !old(self)@.is_complete() ==> command is Some && command->0@ == old(self)@.commands()[old(
                self,
            )@.issued as int] && final(self)@ == (RevealView {
                issued: old(self)@.issued + 1,
                ..old(self)@
            }),
            old(self)@.is_complete() ==> command is None && final(self)@ == old(self)@,
    {
        proof {
            if !self@.is_complete() {
                lemma_reveal_command_at(
                    self.target,
                    self.caret,
                    self.text@,
                    self.ms_per_char,
                    self@.issued as int,
                );
            } else {
                lemma_reveal_command_at(self.target, self.caret, self.text@, self.ms_per_char, 0);
            }
        }
        match self.phase {
            Phase::Start => {
                self.phase = Phase::Write;
                Some(Command::SetCaretVisible { caret: self.caret, visible: true })
            },
            Phase::Write => {
                let shown = prefix(self.text.as_str(), self.index);
                self.phase = Phase::Wait;
                Some(Command::SetText { target: self.target, text: shown })
            },
            Phase::Wait => {
                if self.index < self.total {
                    self.index = self.index + 1;
                    self.phase = Phase::Write;
                } else {
                    self.phase = Phase::Finish;
                }
                Some(Command::Sleep { ms: self.ms_per_char })
            },
            Phase::Finish => {
                self.phase = Phase::Done;
                Some(Command::SetCaretVisible { caret: self.caret, visible: false })
            },
            Phase::Done => None,
        }
    }

    /// Where the reveal stands: the prefix last written and the caret.
    pub fn state(&self) -> (state: RevealState)
        requires
            self.wf(),
        ensures
            state.prefix_len == self@.prefix_len(),
            state.caret_visible == self@.caret_visible(),
    {
        proof {
            lemma_reveal_command_at(self.target, self.caret, self.text@, self.ms_per_char, 0);
        }
        match self.phase {
            Phase::Start => RevealState { prefix_len: 0, caret_visible: false },
            Phase::Write => RevealState {
                prefix_len: if self.index == 0 {
                    0
                } else {
                    self.index - 1
                },
                caret_visible: true,
            },
            Phase::Wait => RevealState { prefix_len: self.index, caret_visible: true },
            Phase::Finish => RevealState { prefix_len: self.index, caret_visible: true },
            Phase::Done => RevealState { prefix_len: self.index, caret_visible: false },
        }
    }
}

} // verus!
