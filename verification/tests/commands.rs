use sensa_companion::command::{is_whitespace, Command, CommandBuffer};

fn typed(text: &str) -> CommandBuffer {
    let mut buffer = CommandBuffer::new();
    for c in text.chars() {
        buffer.push(c);
    }
    buffer
}

#[test]
fn white_space_is_what_the_standard_library_calls_so() {
    for code in 0..=0x10ffffu32 {
        if let Some(c) = char::from_u32(code) {
            assert_eq!(is_whitespace(c), c.is_whitespace(), "U+{:04X}", code);
        }
    }
}

#[test]
fn white_space_examples() {
    for c in [' ', '\t', '\n', '\r', '\u{b}', '\u{c}', '\u{85}', '\u{a0}', '\u{3000}'] {
        assert!(is_whitespace(c));
    }
    for c in ['a', '0', '-', '_', '\u{0}', '\u{8}', '\u{e}', '\u{200b}', '\u{feff}'] {
        assert!(!is_whitespace(c));
    }
}

#[test]
fn buffer_appends_and_removes_at_the_end() {
    let mut buffer = CommandBuffer::new();
    assert_eq!(buffer.len(), 0);
    assert_eq!(buffer.text(), "");
    buffer.push('a');
    buffer.push('b');
    buffer.push('\u{e9}');
    assert_eq!(buffer.len(), 3);
    assert_eq!(buffer.text(), "ab\u{e9}");
    buffer.backspace();
    assert_eq!(buffer.text(), "ab");
    buffer.backspace();
    buffer.backspace();
    assert_eq!(buffer.text(), "");
    buffer.backspace();
    assert_eq!(buffer.text(), "");
    assert_eq!(buffer.len(), 0);
}

#[test]
fn buffer_clears() {
    let mut buffer = typed("hello");
    buffer.clear();
    assert_eq!(buffer.len(), 0);
    assert_eq!(buffer.text(), "");
}

#[test]
fn start_and_stop_are_commands() {
    assert_eq!(typed("start").classify(), Command::Start);
    assert_eq!(typed("stop").classify(), Command::Stop);
}

#[test]
fn white_space_around_a_command_is_ignored() {
    assert_eq!(typed("  start").classify(), Command::Start);
    assert_eq!(typed("start \t").classify(), Command::Start);
    assert_eq!(typed("\u{a0}start\u{3000}").classify(), Command::Start);
    assert_eq!(typed(" \r\n stop \n").classify(), Command::Stop);
}

#[test]
fn everything_else_goes_to_the_device() {
    for line in [
        "", " ", "   ", "foo", "Start", "START", "stop!", "starts", "star", "sto", "st art",
        "start stop", "stopstart", "s", "restart", "\u{200b}start",
    ] {
        assert_eq!(typed(line).classify(), Command::Passthrough, "{:?}", line);
    }
}

#[test]
fn classification_agrees_with_trimming() {
    let alphabet = ['s', 't', 'a', 'r', 'o', 'p', ' ', '\t', 'x'];
    let mut lines: Vec<String> = vec![String::new()];
    for _ in 0..5 {
        let mut longer = Vec::new();
        for line in &lines {
            for c in alphabet {
                let mut next = line.clone();
                next.push(c);
                longer.push(next);
            }
        }
        for line in &longer {
            let expected = match line.trim() {
                "start" => Command::Start,
                "stop" => Command::Stop,
                _ => Command::Passthrough,
            };
            assert_eq!(typed(line).classify(), expected, "{:?}", line);
        }
        lines = longer;
        if lines.len() > 7000 {
            lines.truncate(7000);
        }
    }
    for line in ["  start  ", "\tstop\t\t", " start x", "x stop "] {
        let expected = match line.trim() {
            "start" => Command::Start,
            "stop" => Command::Stop,
            _ => Command::Passthrough,
        };
        assert_eq!(typed(line).classify(), expected);
    }
}

#[test]
fn classifying_leaves_the_line_as_it_is() {
    let buffer = typed("  start ");
    assert_eq!(buffer.classify(), Command::Start);
    assert_eq!(buffer.text(), "  start ");
}
