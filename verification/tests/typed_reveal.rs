use reveal_sequencer::command::Command;
use reveal_sequencer::element::ElementHandle;
use reveal_sequencer::typed_reveal::{prefix, RevealState, TypedReveal};

const TARGET: ElementHandle = ElementHandle::TextTarget(0);
const CARET: ElementHandle = ElementHandle::Caret(0);

fn text(s: &str) -> Command {
    Command::SetText { target: TARGET, text: s.to_string() }
}

fn sleep(ms: u32) -> Command {
    Command::Sleep { ms }
}

fn caret(visible: bool) -> Command {
    Command::SetCaretVisible { caret: CARET, visible }
}

fn all_commands(s: &str, ms: u32) -> Vec<Command> {
    let mut reveal = TypedReveal::new(TARGET, CARET, s, ms);
    let mut commands = Vec::new();
    while let Some(command) = reveal.next() {
        commands.push(command);
    }
    commands
}

fn snapshots(commands: &[Command]) -> Vec<String> {
    let mut texts = Vec::new();
    for command in commands {
        if let Command::SetText { target, text } = command {
            assert_eq!(*target, TARGET);
            texts.push(text.clone());
        }
    }
    texts
}

#[test]
fn prefix_counts_code_points_not_bytes() {
    let s = "a\u{2014}b\u{201c}c";
    assert_eq!(prefix(s, 0), "");
    assert_eq!(prefix(s, 1), "a");
    assert_eq!(prefix(s, 2), "a\u{2014}");
    assert_eq!(prefix(s, 3), "a\u{2014}b");
    assert_eq!(prefix(s, 4), "a\u{2014}b\u{201c}");
    assert_eq!(prefix(s, 5), s);
}

#[test]
fn prefix_longer_than_the_text_is_the_text() {
    assert_eq!(prefix("Hi", 3), "Hi");
    assert_eq!(prefix("Hi", usize::MAX), "Hi");
    assert_eq!(prefix("", 0), "");
    assert_eq!(prefix("", 7), "");
}

#[test]
fn reveal_of_two_characters() {
    assert_eq!(
        all_commands("Hi", 10),
        vec![
            caret(true),
            text(""),
            sleep(10),
            text("H"),
            sleep(10),
            text("Hi"),
            sleep(10),
            caret(false),
        ]
    );
}

#[test]
fn reveal_of_the_empty_text_still_ticks_once() {
    assert_eq!(all_commands("", 25), vec![caret(true), text(""), sleep(25), caret(false)]);
}

#[test]
fn reveal_with_zero_interval() {
    assert_eq!(
        all_commands("a", 0),
        vec![caret(true), text(""), sleep(0), text("a"), sleep(0), caret(false)]
    );
}

#[test]
fn reveal_sleeps_once_more_after_the_full_text() {
    let commands = all_commands("Yo", 7);
    let full = commands.iter().position(|c| *c == text("Yo")).unwrap();
    assert_eq!(commands[full + 1], sleep(7));
    assert_eq!(commands[full + 2], caret(false));
    assert_eq!(commands.len(), full + 3);
}

#[test]
fn snapshots_are_the_prefixes_in_order() {
    let samples = [
        "",
        "x",
        "Hi",
        "hello, world",
        " Amid a global arms race, AGI was achieved \u{2014} quietly, then everywhere.",
        " By 2030, synthetic corporations (\"synths\") \u{2014} indistinguishable blends",
        "\u{1f600}\u{e9}\u{4e2d}\u{6587}",
    ];
    for (ms, sample) in samples.iter().enumerate() {
        let chars: Vec<char> = sample.chars().collect();
        let commands = all_commands(sample, ms as u32);
        assert_eq!(commands.len(), 2 * chars.len() + 4);
        let shown = snapshots(&commands);
        assert_eq!(shown.len(), chars.len() + 1);
        for (i, snapshot) in shown.iter().enumerate() {
            let expected: String = chars.iter().take(i).collect();
            assert_eq!(*snapshot, expected);
            assert_eq!(snapshot.chars().count(), i);
        }
        for i in 0..shown.len() {
            for j in (i + 1)..shown.len() {
                assert_ne!(shown[i], shown[j]);
            }
        }
    }
}

#[test]
fn every_write_is_followed_by_one_sleep() {
    let commands = all_commands("abc", 3);
    let mut i = 1;
    while i + 1 < commands.len() {
        assert!(matches!(commands[i], Command::SetText { .. }));
        assert_eq!(commands[i + 1], sleep(3));
        i += 2;
    }
    assert_eq!(i, commands.len() - 1);
}

#[test]
fn caret_is_visible_from_first_to_last_command() {
    for sample in ["", "a", "Hi", "\u{2014}\u{2014}"] {
        let total = 2 * sample.chars().count() + 4;
        let mut reveal = TypedReveal::new(TARGET, CARET, sample, 1);
        assert!(!reveal.state().caret_visible);
        for issued in 1..=total {
            let command = reveal.next();
            assert!(command.is_some());
            assert_eq!(reveal.state().caret_visible, issued < total);
        }
        assert_eq!(reveal.next(), None);
        assert!(!reveal.state().caret_visible);
    }
}

#[test]
fn caret_is_toggled_only_at_both_ends() {
    let commands = all_commands("Hi", 10);
    let last = commands.len() - 1;
    for (i, command) in commands.iter().enumerate() {
        match command {
            Command::SetCaretVisible { caret, visible } => {
                assert_eq!(*caret, CARET);
                assert!(i == 0 || i == last);
                assert_eq!(*visible, i == 0);
            }
            _ => assert!(i != 0 && i != last),
        }
    }
}

#[test]
fn state_follows_the_prefix_last_written() {
    let mut reveal = TypedReveal::new(TARGET, CARET, "Hi", 5);
    let mut seen = vec![reveal.state()];
    while reveal.next().is_some() {
        seen.push(reveal.state());
    }
    let on = |prefix_len: usize| RevealState { prefix_len, caret_visible: true };
    let off = |prefix_len: usize| RevealState { prefix_len, caret_visible: false };
    assert_eq!(
        seen,
        vec![off(0), on(0), on(0), on(0), on(1), on(1), on(2), on(2), off(2)]
    );
}

#[test]
fn finished_reveal_hands_out_nothing_more() {
    let mut reveal = TypedReveal::new(TARGET, CARET, "", 1);
    for _ in 0..4 {
        assert!(reveal.next().is_some());
    }
    for _ in 0..3 {
        assert_eq!(reveal.next(), None);
        assert_eq!(reveal.state(), RevealState { prefix_len: 0, caret_visible: false });
    }
}

#[test]
fn reveal_uses_the_handles_it_was_given() {
    let target = ElementHandle::TextTarget(4);
    let caret = ElementHandle::Caret(9);
    let mut reveal = TypedReveal::new(target, caret, "z", 2);
    assert_eq!(reveal.next(), Some(Command::SetCaretVisible { caret, visible: true }));
    assert_eq!(reveal.next(), Some(Command::SetText { target, text: String::new() }));
    assert_eq!(reveal.next(), Some(Command::Sleep { ms: 2 }));
    assert_eq!(reveal.next(), Some(Command::SetText { target, text: "z".to_string() }));
    assert_eq!(reveal.next(), Some(Command::Sleep { ms: 2 }));
    assert_eq!(reveal.next(), Some(Command::SetCaretVisible { caret, visible: false }));
    assert_eq!(reveal.next(), None);
}
