use sensa_companion::control::{
    Companion, ReadOutcome, BAUD_RATE, READ_BUFFER_SIZE, READ_TIMEOUT_MILLIS,
};
use sensa_companion::effect::{Effect, Fault};
use sensa_companion::interpreter::{Key, KeyInput, KeyKind};
use sensa_companion::session::SessionStatus;

const HEADER: &str = "Time,MQ3,MQ5,MQ131,MQ135,MP503,Temperature,Humidity\n";

fn press(key: Key) -> KeyInput {
    KeyInput {
        key,
        kind: KeyKind::Press,
    }
}

fn type_line(companion: &mut Companion, text: &str, stamp: &str) {
    for c in text.chars() {
        let effects = companion.on_key_at(press(Key::Char(c)), stamp);
        assert!(effects.is_empty());
    }
}

fn submit(companion: &mut Companion, text: &str, stamp: &str) -> Vec<Effect> {
    type_line(companion, text, stamp);
    companion.on_key_at(press(Key::Enter), stamp)
}

#[test]
fn link_settings() {
    assert_eq!(BAUD_RATE, 115200);
    assert_eq!(READ_TIMEOUT_MILLIS, 10);
    assert_eq!(READ_BUFFER_SIZE, 1000);
}

#[test]
fn new_companion_is_idle() {
    let companion = Companion::new();
    assert!(companion.pending().is_empty());
    assert!(!companion.session().is_active());
    assert_eq!(companion.session().sink_name(), None);
    assert_eq!(companion.command_line(), "");
}

#[test]
fn typing_start_and_submitting_begins_a_recording() {
    let mut companion = Companion::new();
    let stamp = "01-02-2024 10-00-00";
    for c in ['s', 't', 'a', 'r', 't'] {
        let effects = companion.on_key_at(press(Key::Char(c)), stamp);
        assert!(effects.is_empty());
        assert!(!companion.session().is_active());
    }
    assert_eq!(companion.command_line(), "start");
    let effects = companion.on_key_at(press(Key::Enter), stamp);
    assert_eq!(
        effects,
        vec![
            Effect::Notify(SessionStatus::Started),
            Effect::CreateSink {
                name: "Session 01-02-2024 10-00-00 .csv".to_string(),
                header: HEADER.to_string(),
            },
        ]
    );
    assert!(companion.session().is_active());
    assert_eq!(
        companion.session().sink_name(),
        Some("Session 01-02-2024 10-00-00 .csv".to_string())
    );
    assert_eq!(companion.command_line(), "");
}

#[test]
fn frame_read_while_recording_is_stored_as_one_line() {
    let mut companion = Companion::new();
    submit(&mut companion, "start", "01-02-2024 10-00-00");
    let effects = companion.on_read(&ReadOutcome::Data(b"-MQ3 : 12 MQ5 : 3_".to_vec()));
    assert_eq!(effects.len(), 1);
    match &effects[0] {
        Effect::Append { line } => {
            assert_eq!(line.len(), "10:00:00,12 ,3\n".len());
            assert_eq!(&line[8..], ",12 ,3\n");
            let stamp = line[..8].as_bytes();
            for (i, b) in stamp.iter().enumerate() {
                if i == 2 || i == 5 {
                    assert_eq!(*b, b':');
                } else {
                    assert!(b.is_ascii_digit());
                }
            }
        }
        other => panic!("unexpected effect {:?}", other),
    }
    assert!(companion.pending().is_empty());
}

#[test]
fn submitting_other_text_sends_it_to_the_device() {
    let mut companion = Companion::new();
    let effects = submit(&mut companion, "foo", "unused");
    assert_eq!(
        effects,
        vec![Effect::Send {
            text: "foo".to_string()
        }]
    );
    assert!(!companion.session().is_active());
    assert_eq!(companion.session().sink_name(), None);
    assert_eq!(companion.command_line(), "");
}

#[test]
fn submitting_other_text_while_recording_leaves_the_sink_alone() {
    let mut companion = Companion::new();
    submit(&mut companion, "start", "a");
    let effects = submit(&mut companion, "foo", "b");
    assert_eq!(
        effects,
        vec![Effect::Send {
            text: "foo".to_string()
        }]
    );
    assert!(companion.session().is_active());
    assert_eq!(
        companion.session().sink_name(),
        Some("Session a .csv".to_string())
    );
}

#[test]
fn passthrough_keeps_the_white_space_that_was_typed() {
    let mut companion = Companion::new();
    let effects = submit(&mut companion, "  set rate 5 ", "unused");
    assert_eq!(
        effects,
        vec![Effect::Send {
            text: "  set rate 5 ".to_string()
        }]
    );
}

#[test]
fn empty_line_is_sent_as_it_is() {
    let mut companion = Companion::new();
    let effects = companion.on_key_at(press(Key::Enter), "unused");
    assert_eq!(
        effects,
        vec![Effect::Send {
            text: String::new()
        }]
    );
    let effects = submit(&mut companion, "   ", "unused");
    assert_eq!(
        effects,
        vec![Effect::Send {
            text: "   ".to_string()
        }]
    );
}

#[test]
fn start_while_recording_is_answered_with_a_notice() {
    let mut companion = Companion::new();
    submit(&mut companion, "start", "first");
    let effects = submit(&mut companion, " start ", "second");
    assert_eq!(effects, vec![Effect::Notify(SessionStatus::AlreadyActive)]);
    assert!(companion.session().is_active());
    assert_eq!(
        companion.session().sink_name(),
        Some("Session first .csv".to_string())
    );
}

#[test]
fn stop_ends_the_recording_and_keeps_the_sink() {
    let mut companion = Companion::new();
    submit(&mut companion, "start", "first");
    let effects = submit(&mut companion, "stop", "second");
    assert_eq!(effects, vec![Effect::Notify(SessionStatus::Stopped)]);
    assert!(!companion.session().is_active());
    assert_eq!(
        companion.session().sink_name(),
        Some("Session first .csv".to_string())
    );
    let effects = companion.on_read(&ReadOutcome::Data(b"-MQ3 : 1_".to_vec()));
    assert!(effects.is_empty());
}

#[test]
fn stop_without_recording_is_answered_with_a_notice() {
    let mut companion = Companion::new();
    let effects = submit(&mut companion, "stop", "unused");
    assert_eq!(effects, vec![Effect::Notify(SessionStatus::NotActive)]);
    assert!(!companion.session().is_active());
    assert_eq!(companion.session().sink_name(), None);
}

#[test]
fn restart_creates_a_new_sink() {
    let mut companion = Companion::new();
    submit(&mut companion, "start", "first");
    submit(&mut companion, "stop", "x");
    let effects = submit(&mut companion, "start", "second");
    assert_eq!(
        effects,
        vec![
            Effect::Notify(SessionStatus::Started),
            Effect::CreateSink {
                name: "Session second .csv".to_string(),
                header: HEADER.to_string(),
            },
        ]
    );
}

#[test]
fn backspace_removes_the_last_character() {
    let mut companion = Companion::new();
    type_line(&mut companion, "stopp", "unused");
    assert!(companion
        .on_key_at(press(Key::Backspace), "unused")
        .is_empty());
    assert_eq!(companion.command_line(), "stop");
    let effects = companion.on_key_at(press(Key::Enter), "unused");
    assert_eq!(effects, vec![Effect::Notify(SessionStatus::NotActive)]);
}

#[test]
fn backspace_on_an_empty_line_does_nothing() {
    let mut companion = Companion::new();
    assert!(companion
        .on_key_at(press(Key::Backspace), "unused")
        .is_empty());
    assert_eq!(companion.command_line(), "");
}

#[test]
fn released_keys_are_ignored() {
    let mut companion = Companion::new();
    type_line(&mut companion, "start", "unused");
    for key in [Key::Char('x'), Key::Backspace, Key::Enter, Key::Other] {
        let effects = companion.on_key_at(
            KeyInput {
                key,
                kind: KeyKind::Release,
            },
            "unused",
        );
        assert!(effects.is_empty());
        assert_eq!(companion.command_line(), "start");
        assert!(!companion.session().is_active());
    }
}

#[test]
fn repeated_keys_count_like_pressed_keys() {
    let mut companion = Companion::new();
    for _ in 0..3 {
        companion.on_key_at(
            KeyInput {
                key: Key::Char('a'),
                kind: KeyKind::Repeat,
            },
            "unused",
        );
    }
    assert_eq!(companion.command_line(), "aaa");
}

#[test]
fn other_keys_are_ignored() {
    let mut companion = Companion::new();
    type_line(&mut companion, "ab", "unused");
    assert!(companion.on_key_at(press(Key::Other), "unused").is_empty());
    assert_eq!(companion.command_line(), "ab");
}

#[test]
fn keys_do_not_touch_the_stream_buffer() {
    let mut companion = Companion::new();
    companion.on_read(&ReadOutcome::Data(b"-MQ3 : 1".to_vec()));
    submit(&mut companion, "start", "a");
    submit(&mut companion, "foo", "a");
    assert_eq!(companion.pending(), &b"-MQ3 : 1".to_vec());
}

#[test]
fn frames_read_while_idle_are_consumed_and_not_stored() {
    let mut companion = Companion::new();
    let effects = companion.on_read(&ReadOutcome::Data(b"xx-MQ3 : 1_-MQ3 : 2_-MQ".to_vec()));
    assert!(effects.is_empty());
    assert_eq!(companion.pending(), &b"-MQ".to_vec());
    assert!(!companion.session().is_active());
}

#[test]
fn each_complete_frame_is_stored_in_order() {
    let mut companion = Companion::new();
    submit(&mut companion, "start", "a");
    let effects = companion.on_read(&ReadOutcome::Data(b"-MQ3 : 1_-_-MQ5 : 2".to_vec()));
    assert_eq!(effects.len(), 2);
    let tails: Vec<String> = effects
        .iter()
        .map(|e| match e {
            Effect::Append { line } => line[8..].to_string(),
            other => panic!("unexpected effect {:?}", other),
        })
        .collect();
    assert_eq!(tails, vec![",1\n".to_string(), "\n".to_string()]);
    let effects = companion.on_read(&ReadOutcome::Data(b" _".to_vec()));
    assert_eq!(effects.len(), 1);
    match &effects[0] {
        Effect::Append { line } => assert_eq!(&line[8..], ",2 \n"),
        other => panic!("unexpected effect {:?}", other),
    }
}

#[test]
fn timeout_changes_nothing() {
    let mut companion = Companion::new();
    companion.on_read(&ReadOutcome::Data(b"-MQ3".to_vec()));
    type_line(&mut companion, "st", "unused");
    let effects = companion.on_read(&ReadOutcome::TimedOut);
    assert!(effects.is_empty());
    assert_eq!(companion.pending(), &b"-MQ3".to_vec());
    assert_eq!(companion.command_line(), "st");
    assert!(!companion.session().is_active());
}

#[test]
fn empty_read_changes_nothing() {
    let mut companion = Companion::new();
    companion.on_read(&ReadOutcome::Data(b"-MQ3".to_vec()));
    let effects = companion.on_read(&ReadOutcome::Data(Vec::new()));
    assert!(effects.is_empty());
    assert_eq!(companion.pending(), &b"-MQ3".to_vec());
}

#[test]
fn lost_device_ends_the_program() {
    let mut companion = Companion::new();
    assert_eq!(
        companion.on_read(&ReadOutcome::Disconnected),
        vec![Effect::Terminate(Fault::Disconnected)]
    );
    assert_eq!(
        companion.on_read(&ReadOutcome::Failed),
        vec![Effect::Terminate(Fault::TransportFailure)]
    );
}

#[test]
fn on_key_reads_the_clock_when_a_recording_begins() {
    let mut companion = Companion::new();
    for c in "start".chars() {
        assert!(companion.on_key(press(Key::Char(c))).is_empty());
    }
    let effects = companion.on_key(press(Key::Enter));
    assert_eq!(effects.len(), 2);
    assert_eq!(effects[0], Effect::Notify(SessionStatus::Started));
    match &effects[1] {
        Effect::CreateSink { name, header } => {
            assert_eq!(header, HEADER);
            assert!(name.starts_with("Session "));
            assert!(name.ends_with(" .csv"));
            assert!(!name.contains('%'));
            assert_eq!(companion.session().sink_name(), Some(name.clone()));
        }
        other => panic!("unexpected effect {:?}", other),
    }
    for c in "foo".chars() {
        companion.on_key(press(Key::Char(c)));
    }
    assert_eq!(
        companion.on_key(press(Key::Enter)),
        vec![Effect::Send {
            text: "foo".to_string()
        }]
    );
}
