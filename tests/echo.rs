use embedded_recruitment_task::control::{
    accepting, next_step, start_request, stop_request, worker_count_ok, AcceptOutcome, LoopStep,
    Phase, StopAction, POLL_INTERVAL_MS,
};
use embedded_recruitment_task::envelope::{ClientMessage, ServerMessage};
use embedded_recruitment_task::handler::{respond, Reply, READ_BUFFER_SIZE};
use embedded_recruitment_task::message::EchoMessage;

fn encode(text: &str) -> Vec<u8> {
    EchoMessage { content: text.to_string() }.encode_to_vec()
}

fn request(text: &str) -> Vec<u8> {
    ClientMessage { message: Some(EchoMessage { content: text.to_string() }) }.encode_to_vec()
}

fn reply_text(payload: &[u8]) -> String {
    let response = ServerMessage::decode(payload).expect("reply decodes");
    response.message.expect("reply carries an echo").content
}

fn echoed(received: &[u8]) -> Vec<u8> {
    match respond(received) {
        Reply::Echo { payload, .. } => payload,
        Reply::Disconnected => panic!("unexpected disconnect"),
        Reply::NoEcho => panic!("unexpected request without echo"),
        Reply::Undecodable(e) => panic!("unexpected decode failure: {}", e),
    }
}

fn is_undecodable(received: &[u8]) -> bool {
    matches!(respond(received), Reply::Undecodable(_))
}

#[test]
fn encodes_hello_server_exactly() {
    let mut expected = vec![0x0A, 14];
    expected.extend_from_slice(b"Hello, Server!");
    assert_eq!(encode("Hello, Server!"), expected);
}

#[test]
fn hello_server_request_and_response_bytes() {
    let mut inner = vec![0x0A, 14];
    inner.extend_from_slice(b"Hello, Server!");
    let mut expected = vec![0x0A, 16];
    expected.extend_from_slice(&inner);
    assert_eq!(request("Hello, Server!"), expected);
    assert_eq!(echoed(&expected), expected);
}

#[test]
fn echo_round_trip_hello_server() {
    let payload = echoed(&request("Hello, Server!"));
    assert_eq!(reply_text(&payload), "Hello, Server!");
}

#[test]
fn echo_reply_carries_decoded_message() {
    match respond(&request("Hello, Server!")) {
        Reply::Echo { message, .. } => assert_eq!(message.content, "Hello, Server!"),
        _ => panic!("expected an echo"),
    }
}

#[test]
fn three_clients_each_get_their_own_text() {
    let messages = ["Hello from Client 1", "Hello from Client 2", "Hello from Client 3"];
    let replies: Vec<Vec<u8>> = messages.iter().map(|m| echoed(&request(m))).collect();
    for (i, message) in messages.iter().enumerate() {
        assert_eq!(reply_text(&replies[i]), *message, "client {}", i + 1);
    }
    assert_ne!(replies[0], replies[1]);
    assert_ne!(replies[1], replies[2]);
}

#[test]
fn empty_text_gets_a_response() {
    assert_eq!(request(""), vec![0x0A, 0x00]);
    let payload = echoed(&[0x0A, 0x00]);
    assert_eq!(payload, vec![0x0A, 0x00]);
    assert_eq!(reply_text(&payload), "");
}

#[test]
fn long_text_round_trips() {
    let text = "y".repeat(300);
    let bytes = request(&text);
    assert_eq!(&bytes[..6], &[0x0A, 0xAF, 0x02, 0x0A, 0xAC, 0x02]);
    assert_eq!(reply_text(&echoed(&bytes)), text);
}

#[test]
fn non_ascii_text_round_trips() {
    let bytes = request("héllo ✓");
    assert_eq!(bytes[3] as usize, "héllo ✓".len());
    assert_eq!(echoed(&bytes), bytes);
    assert_eq!(reply_text(&bytes), "héllo ✓");
}

#[test]
fn empty_read_is_a_disconnect() {
    assert!(matches!(respond(&[]), Reply::Disconnected));
}

#[test]
fn request_without_echo_gets_no_reply() {
    // only an unknown varint field 2
    assert!(matches!(respond(&[0x10, 0x05]), Reply::NoEcho));
}

#[test]
fn nested_zero_tag_is_undecodable() {
    assert!(is_undecodable(&[0x0A, 0x01, 0x00]));
}

#[test]
fn incomplete_varint_is_undecodable() {
    assert!(is_undecodable(&[0xFF]));
}

#[test]
fn length_past_end_is_undecodable() {
    assert!(is_undecodable(&[0x0A, 0x05, 0x0A]));
}

#[test]
fn nested_length_past_end_is_undecodable() {
    assert!(is_undecodable(&[0x0A, 0x02, 0x0A, 0x05]));
}

#[test]
fn invalid_utf8_is_undecodable() {
    assert!(is_undecodable(&[0x0A, 0x03, 0x0A, 0x01, 0xFF]));
}

#[test]
fn zero_tag_is_undecodable() {
    assert!(is_undecodable(&[0x00]));
}

#[test]
fn unknown_wire_type_is_undecodable() {
    assert!(is_undecodable(&[0x0F]));
}

#[test]
fn wrong_wire_type_for_echo_is_undecodable() {
    assert!(is_undecodable(&[0x08, 0x01]));
}

#[test]
fn stray_end_group_is_undecodable() {
    assert!(is_undecodable(&[0x14]));
}

#[test]
fn unknown_fields_are_skipped() {
    // field 2 as a varint, the echo, then field 3 as four fixed bytes
    let received = [0x10, 0x05, 0x0A, 0x03, 0x0A, 0x01, b'x', 0x1D, 1, 2, 3, 4];
    assert_eq!(ClientMessage::decode(&received).unwrap().message.unwrap().content, "x");
    assert_eq!(echoed(&received), vec![0x0A, 0x03, 0x0A, 0x01, b'x']);
}

#[test]
fn unknown_group_is_skipped() {
    // inside the echo: a group of field 2 holding a varint field 1, closed by its end key
    let received = [0x0A, 0x08, 0x13, 0x08, 0x07, 0x14, 0x0A, 0x02, b'o', b'k'];
    assert_eq!(reply_text(&echoed(&received)), "ok");
}

#[test]
fn repeated_echo_fields_merge() {
    // the second echo field holds no text, so the first text stays
    let received = [0x0A, 0x03, 0x0A, 0x01, b'a', 0x0A, 0x00];
    assert_eq!(reply_text(&echoed(&received)), "a");
    // a second text replaces the first
    let received = [0x0A, 0x03, 0x0A, 0x01, b'a', 0x0A, 0x03, 0x0A, 0x01, b'b'];
    assert_eq!(reply_text(&echoed(&received)), "b");
}

#[test]
fn last_text_field_wins() {
    let bytes = [0x0A, 0x01, b'a', 0x0A, 0x02, b'b', b'c'];
    assert_eq!(EchoMessage::decode(&bytes).unwrap().content, "bc");
}

#[test]
fn empty_text_encodes_to_nothing() {
    assert!(encode("").is_empty());
    assert_eq!(EchoMessage::decode(&[]).unwrap().content, "");
}

#[test]
fn response_without_echo_encodes_to_nothing() {
    assert!(ServerMessage { message: None }.encode_to_vec().is_empty());
    assert!(ServerMessage::decode(&[]).unwrap().message.is_none());
}

#[test]
fn message_cut_at_read_buffer_is_undecodable() {
    let bytes = request(&"z".repeat(600));
    assert_eq!(READ_BUFFER_SIZE, 512);
    assert!(is_undecodable(&bytes[..READ_BUFFER_SIZE]));
}

#[test]
fn accept_outcomes_map_to_steps() {
    assert_eq!(next_step(AcceptOutcome::Accepted), LoopStep::Dispatch);
    assert_eq!(next_step(AcceptOutcome::WouldBlock), LoopStep::Pause(10));
    assert_eq!(POLL_INTERVAL_MS, 10);
    assert_eq!(next_step(AcceptOutcome::Failed), LoopStep::Report);
}

#[test]
fn second_stop_does_nothing() {
    let (phase, starts) = start_request(Phase::Created);
    assert!(starts);
    assert!(accepting(phase));
    let (phase, first) = stop_request(phase);
    assert_eq!(phase, Phase::Stopped);
    assert_eq!(first, StopAction::Drain);
    assert!(!accepting(phase));
    let (phase, second) = stop_request(phase);
    assert_eq!(phase, Phase::Stopped);
    assert_eq!(second, StopAction::Nothing);
}

#[test]
fn stopped_server_does_not_run_again() {
    assert_eq!(start_request(Phase::Stopped), (Phase::Stopped, false));
    assert_eq!(start_request(Phase::Running), (Phase::Running, false));
}

#[test]
fn stop_before_run_stops_for_good() {
    assert_eq!(stop_request(Phase::Created), (Phase::Stopped, StopAction::Drain));
    assert!(!accepting(Phase::Created));
}

#[test]
fn zero_workers_are_refused() {
    assert!(!worker_count_ok(0));
    assert!(worker_count_ok(1));
    assert!(worker_count_ok(4));
}
