//! The script of a run: its lines, its pauses, and the elements it names.
use crate::element::ElementHandle;
use vstd::prelude::*;
use vstd::string::*;

verus! {

/// One line of text, with the identifiers of the three elements it is shown in.
#[derive(Clone, Debug, PartialEq, Eq)]
pub struct Line {
    /// The element that is marked shown before the line is typed.
    pub container: String,
    /// The element whose text the line becomes.
    pub text_target: String,
    /// The caret that is visible while the line is typed.
    pub caret: String,
    /// The text of the line.
    pub text: String,
}

/// A [`Line`] as a value.
pub struct LineView {
    pub container: Seq<char>,
    pub text_target: Seq<char>,
    pub caret: Seq<char>,
    pub text: Seq<char>,
}

impl View for Line {
    type V = LineView;

    open spec fn view(&self) -> LineView {
        LineView {
            container: self.container@,
            text_target: self.text_target@,
            caret: self.caret@,
            text: self.text@,
        }
    }
}

/// A script: the lines in the order they are typed, the durations in
/// milliseconds, and the identifiers of the block that fades and of the finale.
#[derive(Clone, Debug, PartialEq, Eq)]
pub struct Script {
    pub lines: Vec<Line>,
    /// The pause after each prefix of a line.
    pub speed: u32,
    /// The pause after each line but the last.
    pub gap_between_lines: u32,
    /// The pause after the last line.
    pub gap_before_fade: u32,
    /// The pause between the fade and the finale.
    pub gap_before_finale: u32,
    /// How long the fade is waited for before the run goes on without it.
    pub fade_fallback_ms: u32,
    pub fade_target: String,
    pub finale: String,
}

/// A [`Script`] as a value.
pub struct ScriptView {
    pub lines: Seq<LineView>,
    pub speed: u32,
    pub gap_between_lines: u32,
    pub gap_before_fade: u32,
    pub gap_before_finale: u32,
    pub fade_fallback_ms: u32,
    pub fade_target: Seq<char>,
    pub finale: Seq<char>,
}

impl View for Script {
    type V = ScriptView;

    open spec fn view(&self) -> ScriptView {
        ScriptView {
            lines: Seq::new(self.lines@.len(), |k: int| self.lines@[k]@),
            speed: self.speed,
            gap_between_lines: self.gap_between_lines,
            gap_before_fade: self.gap_before_fade,
            gap_before_finale: self.gap_before_finale,
            fade_fallback_ms: self.fade_fallback_ms,
            fade_target: self.fade_target@,
            finale: self.finale@,
        }
    }
}

impl ScriptView {
    /// Whether the number of lines is one that a machine can hold.
    pub open spec fn fits(self) -> bool {
        self.lines.len() <= usize::MAX
    }

    /// Whether the script names an element for this handle.
    pub open spec fn has(self, handle: ElementHandle) -> bool {
        match handle {
            ElementHandle::Container(k) | ElementHandle::TextTarget(k) | ElementHandle::Caret(k) => k
                < self.lines.len(),
            ElementHandle::FadeTarget | ElementHandle::Finale => true,
        }
    }

    /// The identifier of the element behind a handle.
    pub open spec fn id_of(self, handle: ElementHandle) -> Seq<char> {
        match handle {
            ElementHandle::Container(k) => self.lines[k as int].container,
            ElementHandle::TextTarget(k) => self.lines[k as int].text_target,
            ElementHandle::Caret(k) => self.lines[k as int].caret,
            ElementHandle::FadeTarget => self.fade_target,
            ElementHandle::Finale => self.finale,
        }
    }

    /// The pause after a line: the last line is followed by the pause before
    /// the fade, every other line by the pause between lines.
    pub open spec fn gap_after(self, line: int) -> u32 {
        if line + 1 == self.lines.len() {
            self.gap_before_fade
        } else {
            self.gap_between_lines
        }
    }

    /// The handles of the script in the order they are resolved: the
    /// containers of all lines, then their text targets, then their carets,
    /// then the block that fades, then the finale.
    pub open spec fn resolution_order(self) -> Seq<ElementHandle> {
        Seq::new(self.lines.len(), |k: int| ElementHandle::Container(k as usize)) + Seq::new(
            self.lines.len(),
            |k: int| ElementHandle::TextTarget(k as usize),
        ) + Seq::new(self.lines.len(), |k: int| ElementHandle::Caret(k as usize))
            + seq![ElementHandle::FadeTarget, ElementHandle::Finale]
    }

    /// The place of a handle in the resolution order.
    pub open spec fn order_index(self, handle: ElementHandle) -> int {
        match handle {
            ElementHandle::Container(k) => k as int,
            ElementHandle::TextTarget(k) => self.lines.len() + k,
            ElementHandle::Caret(k) => 2 * self.lines.len() + k,
            ElementHandle::FadeTarget => (3 * self.lines.len()) as int,
            ElementHandle::Finale => (3 * self.lines.len() + 1) as int,
        }
    }

    /// The handle that is resolved after `handle`, if one is.
    pub open spec fn handle_after(self, handle: ElementHandle) -> Option<ElementHandle> {
        if self.has(handle) && self.order_index(handle) + 1 < self.resolution_order().len() {
            Some(self.resolution_order()[self.order_index(handle) + 1])
        } else {
            None
        }
    }

    /// The script of the standard presentation.
    pub open spec fn standard() -> ScriptView {
        ScriptView {
            lines: seq![
                LineView {
                    container: "l1"@,
                    text_target: "t1"@,
                    caret: "c1"@,
                    text: " Amid a global arms race, AGI was achieved \u{2014} quietly, then everywhere."@,
                },
                LineView {
                    container: "l2"@,
                    text_target: "t2"@,
                    caret: "c2"@,
                    text: " Autonomous agents went mainstream. 2028 was the last year humans had a monopoly on labour."@,
                },
                LineView {
                    container: "l3"@,
                    text_target: "t3"@,
                    caret: "c3"@,
                    text: " By 2030, synthetic corporations (\"synths\") \u{2014} indistinguishable blends of humans and thinking machines \u{2014} had become the norm."@,
                },
            ],
            speed: 58,
            gap_between_lines: 1500,
            gap_before_fade: 1600,
            gap_before_finale: 800,
            fade_fallback_ms: 1600,
            fade_target: "block"@,
            finale: "finale"@,
        }
    }
}

/// The resolution order holds each handle of the script once, at its index.
pub proof fn lemma_resolution_order(script: ScriptView)
    requires
        script.fits(),
    ensures
        script.resolution_order().len() == 3 * script.lines.len() + 2,
        forall|handle: ElementHandle|
            script.has(handle) ==> 0 <= #[trigger] script.order_index(handle)
                < script.resolution_order().len() && script.resolution_order()[script.order_index(
                handle,
            )] == handle,
        forall|i: int|
            0 <= i < script.resolution_order().len() ==> script.has(
                #[trigger] script.resolution_order()[i],
            ) && script.order_index(script.resolution_order()[i]) == i,
{
    let n = script.lines.len();
    let containers = Seq::new(n, |k: int| ElementHandle::Container(k as usize));
    let targets = Seq::new(n, |k: int| ElementHandle::TextTarget(k as usize));
    let carets = Seq::new(n, |k: int| ElementHandle::Caret(k as usize));
    let tail = seq![ElementHandle::FadeTarget, ElementHandle::Finale];
    let order = script.resolution_order();
    assert(order == containers + targets + carets + tail);
    assert(order.len() == 3 * n + 2);
    assert forall|i: int| 0 <= i < order.len() implies script.has(#[trigger] order[i])
        && script.order_index(order[i]) == i by {
        if i < n {
            assert(order[i] == containers[i]);
        } else if i < 2 * n {
            assert(order[i] == targets[i - n]);
        } else if i < 3 * n {
            assert(order[i] == carets[i - 2 * n]);
        } else {
            assert(order[i] == tail[i - 3 * n]);
        }
    }
    assert forall|handle: ElementHandle| script.has(handle) implies 0 <= #[trigger] script.order_index(
        handle,
    ) < order.len() && order[script.order_index(handle)] == handle by {
        let i = script.order_index(handle);
        assert(script.has(order[i]) && script.order_index(order[i]) == i);
    }
}

/// A script that a machine holds has a number of lines that fits.
pub proof fn lemma_script_fits(script: &Script)
    ensures
        script@.fits(),
{
    assert(script.lines@.len() == script.lines.len());
}

impl Script {
    /// The script of the standard presentation: three lines typed at 58 ms
    /// per code point.
    pub fn standard() -> (script: Script)
        ensures
            script@ == ScriptView::standard(),
    {
        let mut lines: Vec<Line> = Vec::new();
        lines.push(
            Line {
                container: String::from_str("l1"),
                text_target: String::from_str("t1"),
                caret: String::from_str("c1"),
                text: String::from_str(
                    " Amid a global arms race, AGI was achieved \u{2014} quietly, then everywhere.",
                ),
            },
        );
        lines.push(
            Line {
                container: String::from_str("l2"),
                text_target: String::from_str("t2"),
                caret: String::from_str("c2"),
                text: String::from_str(
                    " Autonomous agents went mainstream. 2028 was the last year humans had a monopoly on labour.",
                ),
            },
        );
        lines.push(
            Line {
                container: String::from_str("l3"),
                text_target: String::from_str("t3"),
                caret: String::from_str("c3"),
                text: String::from_str(
                    " By 2030, synthetic corporations (\"synths\") \u{2014} indistinguishable blends of humans and thinking machines \u{2014} had become the norm.",
                ),
            },
        );
        let script = Script {
            lines,
            speed: 58,
            gap_between_lines: 1500,
            gap_before_fade: 1600,
            gap_before_finale: 800,
            fade_fallback_ms: 1600,
            fade_target: String::from_str("block"),
            finale: String::from_str("finale"),
        };
        proof {
            assert(script@.lines =~= ScriptView::standard().lines);
        }
        script
    }

    /// The identifier of the element behind a handle, where the script names one.
    pub fn element_id(&self, handle: ElementHandle) -> (id: Option<String>)
        ensures
            self@.has(handle) ==> id is Some && id->0@ == self@.id_of(handle),
            !self@.has(handle) ==> id is None,
    {
        match handle {
            ElementHandle::Container(k) => {
                if k < self.lines.len() {
                    Some(self.lines[k].container.clone())
                } else {
                    None
                }
            },
            ElementHandle::TextTarget(k) => {
                if k < self.lines.len() {
                    Some(self.lines[k].text_target.clone())
                } else {
                    None
                }
            },
            ElementHandle::Caret(k) => {
                if k < self.lines.len() {
                    Some(self.lines[k].caret.clone())
                } else {
                    None
                }
            },
            ElementHandle::FadeTarget => Some(self.fade_target.clone()),
            ElementHandle::Finale => Some(self.finale.clone()),
        }
    }

    /// The pause after the line with this index.
    pub fn gap_after(&self, line: usize) -> (ms: u32)
        ensures
            ms == self@.gap_after(line as int),
    {
        if self.lines.len() > 0 && line == self.lines.len() - 1 {
            self.gap_before_fade
        } else {
            self.gap_between_lines
        }
    }

    /// The handle that is resolved first.
    pub fn first_handle(&self) -> (handle: ElementHandle)
        ensures
            handle == self@.resolution_order()[0],
            self@.has(handle),
            self@.order_index(handle) == 0,
    {
        proof {
            lemma_script_fits(self);
            lemma_resolution_order(self@);
        }
        if self.lines.len() > 0 {
            ElementHandle::Container(0)
        } else {
            ElementHandle::FadeTarget
        }
    }

    /// The handle that is resolved after `handle`: `None` after the last one,
    /// and for a handle that the script does not name.
    pub fn handle_after(&self, handle: ElementHandle) -> (next: Option<ElementHandle>)
        ensures
            next == self@.handle_after(handle),
    {
        proof {
            lemma_script_fits(self);
            lemma_resolution_order(self@);
        }
        let n = self.lines.len();
        let next = match handle {
            ElementHandle::Container(k) => {
                if k >= n {
                    None
                } else if k + 1 < n {
                    Some(ElementHandle::Container(k + 1))
                } else {
                    Some(ElementHandle::TextTarget(0))
                }
            },
            ElementHandle::TextTarget(k) => {
                if k >= n {
                    None
                } else if k + 1 < n {
                    Some(ElementHandle::TextTarget(k + 1))
                } else {
                    Some(ElementHandle::Caret(0))
                }
            },
            ElementHandle::Caret(k) => {
                if k >= n {
                    None
                } else if k + 1 < n {
                    Some(ElementHandle::Caret(k + 1))
                } else {
                    Some(ElementHandle::FadeTarget)
                }
            },
            ElementHandle::FadeTarget => Some(ElementHandle::Finale),
            ElementHandle::Finale => None,
        };
        proof {
            if self@.has(handle) && next is Some {
                let i = self@.order_index(handle) + 1;
                assert(self@.has(next->0));
                assert(self@.order_index(next->0) == i);
            }
        }
        next
    }
}

} // verus!
