use key_purge::config::Config;
use key_purge::deleter::{decode_batch, Action, Command, Deleter, Event, Phase, State};
use key_purge::error::PurgeError;

fn key_list(count: usize) -> Vec<u8> {
    let mut text = String::new();
    for i in 0..count {
        text.push_str(&format!("key:{i}\n"));
    }
    text.into_bytes()
}

fn key_names(from: usize, to: usize) -> Vec<String> {
    (from..to).map(|i| format!("key:{i}")).collect()
}

/// Plays the caller: grants every permit, and lets the store acknowledge
/// every batch but the one numbered `fail_at`, counted from one.
fn drive(deleter: &mut Deleter, fail_at: Option<usize>) -> (Vec<usize>, Vec<Vec<String>>, Command) {
    let mut printed = Vec::new();
    let mut sent = Vec::new();
    let mut action = deleter.handle(Event::Connected);
    loop {
        if let Some(index) = action.progress {
            printed.push(index);
        }
        let event = match action.command {
            Command::AwaitPermit => Event::PermitGranted,
            Command::Unlink(keys) => {
                sent.push(keys);
                if fail_at == Some(sent.len()) {
                    Event::StoreFailed
                } else {
                    Event::Deleted
                }
            }
            last => return (printed, sent, last),
        };
        action = deleter.handle(event);
    }
}

#[test]
fn deleter_sends_250_keys_in_three_commands() {
    let mut deleter = Deleter::for_key_list(&key_list(250), 0, &Config::standard());
    assert_eq!(deleter.batch_count(), 3);
    let (printed, sent, last) = drive(&mut deleter, None);
    assert_eq!(sent.len(), 3);
    assert_eq!(sent[0], key_names(0, 100));
    assert_eq!(sent[1], key_names(100, 200));
    assert_eq!(sent[2], key_names(200, 250));
    assert_eq!(printed, vec![0]);
    assert!(matches!(last, Command::Finish));
    assert_eq!(deleter.state(), State::Done);
    assert_eq!(deleter.completed(), 3);
    assert_eq!(deleter.error(), None);
}

#[test]
fn deleter_resumes_behind_the_skipped_lines() {
    let mut deleter = Deleter::for_key_list(&key_list(250), 120, &Config::standard());
    let (_, sent, _) = drive(&mut deleter, None);
    assert_eq!(sent, vec![key_names(120, 220), key_names(220, 250)]);
}

#[test]
fn deleter_has_nothing_to_send_when_the_skip_reaches_the_end() {
    for skip in [5, 6, 1000] {
        let mut deleter = Deleter::for_key_list(&key_list(5), skip, &Config::standard());
        assert_eq!(deleter.batch_count(), 0);
        let action = deleter.handle(Event::Connected);
        assert_eq!(action.progress, None);
        assert!(matches!(action.command, Command::Finish));
        assert_eq!(deleter.state(), State::Done);
        assert_eq!(deleter.completed(), 0);
    }
}

#[test]
fn deleter_of_an_empty_key_list_is_done_at_once() {
    let mut deleter = Deleter::for_key_list(b"", 0, &Config::standard());
    let (printed, sent, last) = drive(&mut deleter, None);
    assert!(printed.is_empty());
    assert!(sent.is_empty());
    assert!(matches!(last, Command::Finish));
}

#[test]
fn deleter_prints_every_third_batch_index() {
    let config = Config::new(2, 3, 40).unwrap();
    let mut deleter = Deleter::for_key_list(&key_list(20), 0, &config);
    assert_eq!(deleter.batch_count(), 10);
    let (printed, sent, _) = drive(&mut deleter, None);
    assert_eq!(printed, vec![0, 3, 6, 9]);
    assert_eq!(sent.len(), 10);
}

#[test]
fn deleter_prints_before_it_asks_for_the_permit() {
    let config = Config::new(1, 2, 40).unwrap();
    let mut deleter = Deleter::for_key_list(b"a\nb\nc\n", 0, &config);
    let first = deleter.handle(Event::Connected);
    assert_eq!(first.progress, Some(0));
    assert!(matches!(first.command, Command::AwaitPermit));
    assert_eq!(deleter.state(), State::AwaitingPermit);
    let second = deleter.handle(Event::PermitGranted);
    assert_eq!(second.progress, None);
    assert!(matches!(&second.command, Command::Unlink(keys) if keys == &vec!["a".to_string()]));
    assert_eq!(deleter.state(), State::AwaitingStore);
    assert_eq!(deleter.completed(), 0);
    let third = deleter.handle(Event::Deleted);
    assert_eq!(third.progress, None);
    assert!(matches!(third.command, Command::AwaitPermit));
    assert_eq!(deleter.completed(), 1);
    deleter.handle(Event::PermitGranted);
    let fifth = deleter.handle(Event::Deleted);
    assert_eq!(fifth.progress, Some(2));
}

#[test]
fn deleter_stops_at_the_batch_that_the_store_fails_on() {
    for k in 1..=4usize {
        let config = Config::new(10, 100, 40).unwrap();
        let mut deleter = Deleter::for_key_list(&key_list(40), 0, &config);
        let (_, sent, last) = drive(&mut deleter, Some(k));
        assert_eq!(sent.len(), k);
        assert_eq!(deleter.completed(), k - 1);
        assert!(matches!(last, Command::Abort(PurgeError::Command)));
        assert_eq!(deleter.state(), State::Failed);
        assert_eq!(deleter.error(), Some(PurgeError::Command));
    }
}

#[test]
fn deleter_sends_nothing_after_a_failure() {
    let config = Config::new(10, 100, 40).unwrap();
    let mut deleter = Deleter::for_key_list(&key_list(40), 0, &config);
    drive(&mut deleter, Some(2));
    let events = [
        Event::Connected,
        Event::PermitGranted,
        Event::Deleted,
        Event::StoreFailed,
        Event::ConnectFailed,
    ];
    for event in events {
        let Action { progress, command } = deleter.handle(event);
        assert_eq!(progress, None);
        assert!(matches!(command, Command::Ignore));
        assert_eq!(deleter.state(), State::Failed);
        assert_eq!(deleter.completed(), 1);
    }
}

#[test]
fn deleter_sends_nothing_after_it_is_done() {
    let mut deleter = Deleter::for_key_list(b"a\n", 0, &Config::standard());
    drive(&mut deleter, None);
    for event in [Event::Connected, Event::PermitGranted, Event::Deleted, Event::StoreFailed] {
        assert!(matches!(deleter.handle(event).command, Command::Ignore));
        assert_eq!(deleter.state(), State::Done);
        assert_eq!(deleter.completed(), 1);
    }
}

#[test]
fn deleter_fails_when_the_connection_does() {
    let mut deleter = Deleter::for_key_list(&key_list(3), 0, &Config::standard());
    let action = deleter.handle(Event::ConnectFailed);
    assert_eq!(action.progress, None);
    assert!(matches!(action.command, Command::Abort(PurgeError::Connection)));
    assert_eq!(deleter.state(), State::Failed);
    assert_eq!(deleter.error(), Some(PurgeError::Connection));
    assert_eq!(deleter.completed(), 0);
}

#[test]
fn deleter_ignores_events_out_of_turn() {
    let mut deleter = Deleter::for_key_list(&key_list(3), 0, &Config::standard());
    assert_eq!(deleter.state(), State::Idle);
    for event in [Event::PermitGranted, Event::Deleted, Event::StoreFailed] {
        assert!(matches!(deleter.handle(event).command, Command::Ignore));
        assert_eq!(deleter.state(), State::Idle);
    }
    deleter.handle(Event::Connected);
    for event in [Event::Connected, Event::Deleted, Event::StoreFailed, Event::ConnectFailed] {
        assert!(matches!(deleter.handle(event).command, Command::Ignore));
        assert_eq!(deleter.state(), State::AwaitingPermit);
    }
    deleter.handle(Event::PermitGranted);
    for event in [Event::Connected, Event::PermitGranted, Event::ConnectFailed] {
        assert!(matches!(deleter.handle(event).command, Command::Ignore));
        assert_eq!(deleter.state(), State::AwaitingStore);
    }
}

#[test]
fn deleter_fails_on_a_line_that_is_no_text() {
    let config = Config::new(2, 1, 40).unwrap();
    let mut text = b"a\nb\nc\n".to_vec();
    text.extend_from_slice(&[0xff, b'\n', b'e', b'\n']);
    let mut deleter = Deleter::for_key_list(&text, 0, &config);
    assert_eq!(deleter.batch_count(), 3);
    let (printed, sent, last) = drive(&mut deleter, None);
    assert_eq!(sent, vec![vec!["a".to_string(), "b".to_string()]]);
    assert_eq!(printed, vec![0, 1]);
    assert!(matches!(last, Command::Abort(PurgeError::Io)));
    assert_eq!(deleter.state(), State::Failed);
    assert_eq!(deleter.error(), Some(PurgeError::Io));
    assert_eq!(deleter.completed(), 1);
}

#[test]
fn deleter_passes_empty_lines_on_as_keys() {
    let mut deleter = Deleter::for_key_list(b"a\n\n b \n", 0, &Config::standard());
    let (_, sent, _) = drive(&mut deleter, None);
    assert_eq!(sent, vec![vec!["a".to_string(), String::new(), " b ".to_string()]]);
}

#[test]
fn new_deleter_is_idle() {
    let deleter = Deleter::new(vec![vec![b"a".to_vec()], vec![b"b".to_vec()]], 7);
    assert_eq!(deleter.state(), State::Idle);
    assert_eq!(deleter.completed(), 0);
    assert_eq!(deleter.batch_count(), 2);
    assert_eq!(deleter.error(), None);
}

#[test]
fn decode_batch_reads_every_line() {
    let batch = vec![b"k1".to_vec(), vec![0xc3, 0xa9], Vec::new()];
    assert_eq!(
        decode_batch(&batch),
        Some(vec!["k1".to_string(), "\u{e9}".to_string(), String::new()])
    );
    assert_eq!(decode_batch(&Vec::new()), Some(Vec::new()));
}

#[test]
fn decode_batch_fails_on_one_bad_line() {
    assert_eq!(decode_batch(&vec![b"k1".to_vec(), vec![0xc3], b"k3".to_vec()]), None);
    assert_eq!(decode_batch(&vec![vec![0xed, 0xa0, 0x80]]), None);
}

#[test]
fn both_waiting_states_are_processing() {
    assert_eq!(State::Idle.phase(), Phase::Idle);
    assert_eq!(State::AwaitingPermit.phase(), Phase::Processing);
    assert_eq!(State::AwaitingStore.phase(), Phase::Processing);
    assert_eq!(State::Done.phase(), Phase::Done);
    assert_eq!(State::Failed.phase(), Phase::Failed);
}
