use chatbridge::relay::choose_display_name;
use chatbridge::relay::extract_speaker_message;
use chatbridge::relay::format_broadcast_command;
use chatbridge::relay::format_relay_text;
use chatbridge::relay::relay_line;

#[test]
fn chat_line_becomes_emphasized_message() {
    let line = b"[12:00:00] [Server thread/INFO]: <Alice> hello";
    let m = relay_line(line).expect("chat-relevant line");
    assert_eq!(m.text, b"Alice: hello".to_vec());
    assert_eq!(m.emphasis_offset, 0);
    assert_eq!(m.emphasis_len, 5);
}

#[test]
fn line_without_speaker_shape_is_dropped() {
    let line = b"[12:00:00] [Server thread/INFO]: Alice joined the game";
    assert!(relay_line(line).is_none());
}

#[test]
fn extraction_splits_speaker_and_message() {
    let line = b"[12:00:00] [Server thread/INFO]: <Bob42> ok then";
    let (speaker, message) = extract_speaker_message(line).expect("chat-relevant line");
    assert_eq!(speaker, b"Bob42".to_vec());
    assert_eq!(message, b"ok then".to_vec());
}

#[test]
fn empty_message_is_kept() {
    let line = b"[12:00:00] [Server thread/INFO]: <Bob> ";
    let (speaker, message) = extract_speaker_message(line).expect("chat-relevant line");
    assert_eq!(speaker, b"Bob".to_vec());
    assert_eq!(message, Vec::<u8>::new());
}

#[test]
fn empty_speaker_does_not_match() {
    let line = b"[12:00:00] [Server thread/INFO]: <> hello";
    assert!(extract_speaker_message(line).is_none());
}

#[test]
fn a_later_occurrence_may_match() {
    let line = b"INFO]: <!> INFO]: <Ann> hi";
    let (speaker, message) = extract_speaker_message(line).expect("second shape matches");
    assert_eq!(speaker, b"Ann".to_vec());
    assert_eq!(message, b"hi".to_vec());
}

#[test]
fn formatting_emphasizes_the_speaker() {
    let m = format_relay_text(b"Carol", b"out of words");
    assert_eq!(m.text, b"Carol: out of words".to_vec());
    assert_eq!(m.emphasis_offset, 0);
    assert_eq!(m.emphasis_len, 5);
}

#[test]
fn broadcast_command_has_expected_shape() {
    let cmd = format_broadcast_command(b"Alice", b"hello");
    let expected: &[u8] = b"tellraw @a [\"\",{\"text\":\"Alice\",\"bold\":true},\": hello\"]";
    assert_eq!(cmd, expected.to_vec());
}

#[test]
fn display_name_prefers_username() {
    let username = Some(b"alice_the_great".to_vec());
    assert_eq!(choose_display_name(&username, b"Alice"), b"alice_the_great");
    assert_eq!(choose_display_name(&None, b"Alice"), b"Alice");
}
