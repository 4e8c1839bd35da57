use reveal_sequencer::command::SequenceError;
use reveal_sequencer::element::{DisplayState, ElementHandle};
use reveal_sequencer::script::{Line, Script};

fn line(n: usize, text: &str) -> Line {
    Line {
        container: format!("l{n}"),
        text_target: format!("t{n}"),
        caret: format!("c{n}"),
        text: text.to_string(),
    }
}

fn script(texts: &[&str]) -> Script {
    Script {
        lines: texts.iter().enumerate().map(|(i, t)| line(i + 1, t)).collect(),
        speed: 10,
        gap_between_lines: 20,
        gap_before_fade: 30,
        gap_before_finale: 40,
        fade_fallback_ms: 50,
        fade_target: "block".to_string(),
        finale: "finale".to_string(),
    }
}

fn resolution_order(s: &Script) -> Vec<ElementHandle> {
    let mut order = vec![s.first_handle()];
    while let Some(next) = s.handle_after(*order.last().unwrap()) {
        order.push(next);
    }
    order
}

#[test]
fn standard_script_has_the_three_lines() {
    let s = Script::standard();
    assert_eq!(s.lines.len(), 3);
    assert_eq!(
        s.lines[0],
        Line {
            container: "l1".to_string(),
            text_target: "t1".to_string(),
            caret: "c1".to_string(),
            text: " Amid a global arms race, AGI was achieved \u{2014} quietly, then everywhere."
                .to_string(),
        }
    );
    assert_eq!(
        s.lines[1].text,
        " Autonomous agents went mainstream. 2028 was the last year humans had a monopoly on labour."
    );
    assert_eq!(
        s.lines[2].text,
        " By 2030, synthetic corporations (\"synths\") \u{2014} indistinguishable blends of humans and thinking machines \u{2014} had become the norm."
    );
    assert_eq!(s.lines[1].container, "l2");
    assert_eq!(s.lines[1].text_target, "t2");
    assert_eq!(s.lines[1].caret, "c2");
    assert_eq!(s.lines[2].container, "l3");
    assert_eq!(s.lines[2].text_target, "t3");
    assert_eq!(s.lines[2].caret, "c3");
}

#[test]
fn standard_script_has_the_standard_timing() {
    let s = Script::standard();
    assert_eq!(s.speed, 58);
    assert_eq!(s.gap_between_lines, 1500);
    assert_eq!(s.gap_before_fade, 1600);
    assert_eq!(s.gap_before_finale, 800);
    assert_eq!(s.fade_fallback_ms, 1600);
    assert_eq!(s.fade_target, "block");
    assert_eq!(s.finale, "finale");
}

#[test]
fn standard_script_is_the_same_each_time() {
    assert_eq!(Script::standard(), Script::standard());
}

#[test]
fn handles_are_resolved_by_kind_then_by_line() {
    let s = script(&["a", "b", "c"]);
    assert_eq!(
        resolution_order(&s),
        vec![
            ElementHandle::Container(0),
            ElementHandle::Container(1),
            ElementHandle::Container(2),
            ElementHandle::TextTarget(0),
            ElementHandle::TextTarget(1),
            ElementHandle::TextTarget(2),
            ElementHandle::Caret(0),
            ElementHandle::Caret(1),
            ElementHandle::Caret(2),
            ElementHandle::FadeTarget,
            ElementHandle::Finale,
        ]
    );
}

#[test]
fn script_without_lines_resolves_block_and_finale() {
    let s = script(&[]);
    assert_eq!(resolution_order(&s), vec![ElementHandle::FadeTarget, ElementHandle::Finale]);
}

#[test]
fn script_with_one_line_resolves_five_handles() {
    let s = script(&["only"]);
    assert_eq!(
        resolution_order(&s),
        vec![
            ElementHandle::Container(0),
            ElementHandle::TextTarget(0),
            ElementHandle::Caret(0),
            ElementHandle::FadeTarget,
            ElementHandle::Finale,
        ]
    );
}

#[test]
fn handle_after_an_unknown_handle_is_none() {
    let s = script(&["a", "b"]);
    assert_eq!(s.handle_after(ElementHandle::Container(2)), None);
    assert_eq!(s.handle_after(ElementHandle::TextTarget(7)), None);
    assert_eq!(s.handle_after(ElementHandle::Caret(usize::MAX)), None);
    assert_eq!(s.handle_after(ElementHandle::Finale), None);
}

#[test]
fn element_ids_by_handle() {
    let s = script(&["a", "b"]);
    assert_eq!(s.element_id(ElementHandle::Container(0)), Some("l1".to_string()));
    assert_eq!(s.element_id(ElementHandle::Container(1)), Some("l2".to_string()));
    assert_eq!(s.element_id(ElementHandle::TextTarget(0)), Some("t1".to_string()));
    assert_eq!(s.element_id(ElementHandle::TextTarget(1)), Some("t2".to_string()));
    assert_eq!(s.element_id(ElementHandle::Caret(0)), Some("c1".to_string()));
    assert_eq!(s.element_id(ElementHandle::Caret(1)), Some("c2".to_string()));
    assert_eq!(s.element_id(ElementHandle::FadeTarget), Some("block".to_string()));
    assert_eq!(s.element_id(ElementHandle::Finale), Some("finale".to_string()));
}

#[test]
fn element_id_of_a_line_that_is_not_there() {
    let s = script(&["a", "b"]);
    assert_eq!(s.element_id(ElementHandle::Container(2)), None);
    assert_eq!(s.element_id(ElementHandle::TextTarget(2)), None);
    assert_eq!(s.element_id(ElementHandle::Caret(usize::MAX)), None);
    let empty = script(&[]);
    assert_eq!(empty.element_id(ElementHandle::Container(0)), None);
    assert_eq!(empty.element_id(ElementHandle::Finale), Some("finale".to_string()));
}

#[test]
fn last_line_is_followed_by_the_gap_before_the_fade() {
    let s = script(&["a", "b", "c"]);
    assert_eq!(s.gap_after(0), 20);
    assert_eq!(s.gap_after(1), 20);
    assert_eq!(s.gap_after(2), 30);
    assert_eq!(s.gap_after(3), 20);
    let one = script(&["a"]);
    assert_eq!(one.gap_after(0), 30);
    let none = script(&[]);
    assert_eq!(none.gap_after(0), 20);
}

#[test]
fn display_states_have_their_class_names() {
    assert_eq!(DisplayState::Shown.class_name(), "show");
    assert_eq!(DisplayState::Fading.class_name(), "fadeout");
}

#[test]
fn error_messages() {
    let missing = SequenceError::ElementNotFound { id: "l2".to_string() };
    assert_eq!(missing.message(), "missing #l2");
    let empty = SequenceError::ElementNotFound { id: String::new() };
    assert_eq!(empty.message(), "missing #");
    let failed = SequenceError::BindingFailure { detail: "InvalidCharacterError".to_string() };
    assert_eq!(failed.message(), "InvalidCharacterError");
}
