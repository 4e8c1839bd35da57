//! The plan of a run: every command of a run in which nothing fails, in order.
use crate::command::CommandView;
use crate::element::{DisplayState, ElementHandle};
use crate::script::{lemma_resolution_order, ScriptView};
use crate::typed_reveal::{lemma_reveal_command_at, reveal_commands};
use vstd::prelude::*;

verus! {

/// The lookups that open a run: one for each handle, in resolution order.
pub open spec fn resolve_commands(script: ScriptView) -> Seq<CommandView> {
    Seq::new(
        script.resolution_order().len(),
        |i: int|
            CommandView::Resolve {
                handle: script.resolution_order()[i],
                id: script.id_of(script.resolution_order()[i]),
            },
    )
}

/// The commands of one line: its container is shown, its text is revealed,
/// and the pause after the line is taken.
pub open spec fn line_commands(script: ScriptView, line: int) -> Seq<CommandView> {
    seq![
        CommandView::SetDisplayState {
            element: ElementHandle::Container(line as usize),
            state: DisplayState::Shown,
        },
    ] + reveal_commands(
        ElementHandle::TextTarget(line as usize),
        ElementHandle::Caret(line as usize),
        script.lines[line].text,
        script.speed,
    ) + seq![CommandView::Sleep { ms: script.gap_after(line) }]
}

/// The commands of the first `count` lines.
pub open spec fn lines_commands(script: ScriptView, count: nat) -> Seq<CommandView>
    decreases count,
{
    if count == 0 {
        Seq::empty()
    } else {
        lines_commands(script, (count - 1) as nat) + line_commands(script, count - 1)
    }
}

/// The commands that close a run: the block is put into its fading state,
/// the race between the notification and the fallback timer is set up, waited
/// for and cleaned up, the pause before the finale is taken, and the finale
/// is shown.
pub open spec fn closing_commands(script: ScriptView) -> Seq<CommandView> {
    seq![
        CommandView::SetDisplayState {
            element: ElementHandle::FadeTarget,
            state: DisplayState::Fading,
        },
        CommandView::Subscribe { element: ElementHandle::FadeTarget },
        CommandView::StartTimer { ms: script.fade_fallback_ms },
        CommandView::AwaitSignal,
        CommandView::Unsubscribe { element: ElementHandle::FadeTarget },
        CommandView::Sleep { ms: script.gap_before_finale },
        CommandView::SetDisplayState { element: ElementHandle::Finale, state: DisplayState::Shown },
    ]
}

/// Every command of a run of `script` in which nothing fails, in order.
pub open spec fn plan(script: ScriptView) -> Seq<CommandView> {
    resolve_commands(script) + lines_commands(script, script.lines.len()) + closing_commands(
        script,
    )
}

/// The position in the plan of the first command of a line.
pub open spec fn line_start(script: ScriptView, line: nat) -> nat {
    resolve_commands(script).len() + lines_commands(script, line).len()
}

/// The position in the plan of the first closing command.
pub open spec fn closing_start(script: ScriptView) -> nat {
    line_start(script, script.lines.len())
}

/// The number of commands of a line.
pub open spec fn line_len(script: ScriptView, line: int) -> nat {
    2 * script.lines[line].text.len() + 6
}

/// A line has two commands for each prefix of its text and four around them.
pub proof fn lemma_line_commands(script: ScriptView, line: int)
    ensures
        line_commands(script, line).len() == line_len(script, line),
        line_commands(script, line)[0] == (CommandView::SetDisplayState {
            element: ElementHandle::Container(line as usize),
            state: DisplayState::Shown,
        }),
        forall|j: int|
            0 <= j < 2 * script.lines[line].text.len() + 4 ==> #[trigger] line_commands(
                script,
                line,
            )[1 + j] == reveal_commands(
                ElementHandle::TextTarget(line as usize),
                ElementHandle::Caret(line as usize),
                script.lines[line].text,
                script.speed,
            )[j],
        line_commands(script, line)[line_len(script, line) - 1] == (CommandView::Sleep {
            ms: script.gap_after(line),
        }),
{
    let typing = reveal_commands(
        ElementHandle::TextTarget(line as usize),
        ElementHandle::Caret(line as usize),
        script.lines[line].text,
        script.speed,
    );
    lemma_reveal_command_at(
        ElementHandle::TextTarget(line as usize),
        ElementHandle::Caret(line as usize),
        script.lines[line].text,
        script.speed,
        0,
    );
    assert(typing.len() == 2 * script.lines[line].text.len() + 4);
}

/// The commands of the first lines stay where they are when lines are added.
pub proof fn lemma_lines_commands(script: ScriptView, line: int, count: nat, j: int)
    requires
        0 <= line < count,
        0 <= j < line_len(script, line),
    ensures
        lines_commands(script, (line + 1) as nat).len() == lines_commands(script, line as nat).len()
            + line_len(script, line),
        lines_commands(script, (line + 1) as nat).len() <= lines_commands(script, count).len(),
        lines_commands(script, count)[lines_commands(script, line as nat).len() + j]
            == line_commands(script, line)[j],
    decreases count,
{
    lemma_line_commands(script, line);
    if count == line + 1 {
    } else {
        lemma_lines_commands(script, line, (count - 1) as nat, j);
    }
}

/// The length of the plan, and the first command that it holds.
pub proof fn lemma_plan_len(script: ScriptView)
    requires
        script.fits(),
    ensures
        resolve_commands(script).len() == 3 * script.lines.len() + 2,
        plan(script).len() == closing_start(script) + 7,
        closing_start(script) >= resolve_commands(script).len(),
{
    lemma_resolution_order(script);
}

/// The plan opens with the lookups.
pub proof fn lemma_plan_resolve(script: ScriptView, at: int)
    requires
        script.fits(),
        0 <= at < script.resolution_order().len(),
    ensures
        at < plan(script).len(),
        plan(script)[at] == (CommandView::Resolve {
            handle: script.resolution_order()[at],
            id: script.id_of(script.resolution_order()[at]),
        }),
{
}

/// Where the commands of a line stand in the plan.
pub proof fn lemma_plan_line(script: ScriptView, line: int, j: int)
    requires
        script.fits(),
        0 <= line < script.lines.len(),
        0 <= j < line_len(script, line),
    ensures
        line_start(script, (line + 1) as nat) == line_start(script, line as nat) + line_len(
            script,
            line,
        ),
        line_start(script, (line + 1) as nat) <= closing_start(script),
        plan(script)[line_start(script, line as nat) + j] == line_commands(script, line)[j],
{
    lemma_lines_commands(script, line, script.lines.len(), j);
}

/// Where the closing commands stand in the plan.
pub proof fn lemma_plan_closing(script: ScriptView, j: int)
    requires
        script.fits(),
        0 <= j < 7,
    ensures
        closing_start(script) + j < plan(script).len(),
        plan(script)[closing_start(script) + j] == closing_commands(script)[j],
{
}

/// Whether a command belongs to the lookups or to the race: none of these
/// occurs among the commands of a line.
spec fn is_lookup_or_race(command: CommandView) -> bool {
    command is Resolve || command is Subscribe || command is StartTimer || command is AwaitSignal
        || command is Unsubscribe
}

proof fn lemma_lines_hold_no_lookup(script: ScriptView, count: nat, at: int)
    requires
        0 <= at < lines_commands(script, count).len(),
    ensures
        !is_lookup_or_race(lines_commands(script, count)[at]),
    decreases count,
{
    if count > 0 {
        let earlier = lines_commands(script, (count - 1) as nat);
        if at < earlier.len() {
            lemma_lines_hold_no_lookup(script, (count - 1) as nat, at);
        } else {
            let line = count - 1;
            let j = at - earlier.len();
            let text = script.lines[line].text;
            lemma_line_commands(script, line);
            if 0 < j < line_len(script, line) - 1 {
                lemma_reveal_command_at(
                    ElementHandle::TextTarget(line as usize),
                    ElementHandle::Caret(line as usize),
                    text,
                    script.speed,
                    j - 1,
                );
                assert(line_commands(script, line)[1 + (j - 1)] == reveal_commands(
                    ElementHandle::TextTarget(line as usize),
                    ElementHandle::Caret(line as usize),
                    text,
                    script.speed,
                )[j - 1]);
            }
        }
    }
}

/// Every element is looked up before anything is changed: the lookups are
/// the first commands of the plan, and no command after them is a lookup.
pub proof fn lemma_lookups_come_first(script: ScriptView)
    requires
        script.fits(),
    ensures
        forall|at: int|
            0 <= at < plan(script).len() ==> (#[trigger] plan(script)[at] is Resolve <==> at
                < script.resolution_order().len()),
{
    assert forall|at: int| 0 <= at < plan(script).len() implies (#[trigger] plan(script)[at]
        is Resolve <==> at < script.resolution_order().len()) by {
        let lookups = resolve_commands(script).len();
        let typed = lines_commands(script, script.lines.len()).len();
        if at < lookups {
        } else if at < lookups + typed {
            lemma_lines_hold_no_lookup(script, script.lines.len(), at - lookups);
        } else {
            assert(plan(script)[at] == closing_commands(script)[at - lookups - typed]);
        }
    }
}

/// The commands of the race stand in the closing part of the plan and
/// nowhere else, in this order: the listener is registered, the timer is
/// started, the first completion is waited for, the listener is removed.
pub proof fn lemma_race_commands(script: ScriptView)
    requires
        script.fits(),
    ensures
        forall|at: int|
            0 <= at < plan(script).len() ==> {
                &&& (#[trigger] plan(script)[at] is Subscribe <==> at == closing_start(script) + 1)
                &&& (plan(script)[at] is StartTimer <==> at == closing_start(script) + 2)
                &&& (plan(script)[at] is AwaitSignal <==> at == closing_start(script) + 3)
                &&& (plan(script)[at] is Unsubscribe <==> at == closing_start(script) + 4)
            },
{
    assert forall|at: int| 0 <= at < plan(script).len() implies {
        &&& (#[trigger] plan(script)[at] is Subscribe <==> at == closing_start(script) + 1)
        &&& (plan(script)[at] is StartTimer <==> at == closing_start(script) + 2)
        &&& (plan(script)[at] is AwaitSignal <==> at == closing_start(script) + 3)
        &&& (plan(script)[at] is Unsubscribe <==> at == closing_start(script) + 4)
    } by {
        let lookups = resolve_commands(script).len();
        let typed = lines_commands(script, script.lines.len()).len();
        if at < lookups {
        } else if at < lookups + typed {
            lemma_lines_hold_no_lookup(script, script.lines.len(), at - lookups);
        } else {
            assert(plan(script)[at] == closing_commands(script)[at - lookups - typed]);
        }
    }
}

} // verus!
