use rcon::RconError;
use rcon::client::{
    AUTHENTICATE, AUTH_FAILURE_ID, EXEC_COMMAND, PRIMARY_ID, SENTINEL_ID, ReplyStep,
    WriteAttempt, absorb_reply, auth_outcome, auth_packet, exec_request, reassemble,
    resolve_send, retry_write,
};
use rcon::packet::{RconPacket, decode_frame};

/// A server that always rejects: whatever the authenticate request said,
/// it replies with the failure sentinel id.
fn rejecting_server_reply(_request: &RconPacket) -> RconPacket {
    RconPacket::new(AUTH_FAILURE_ID, EXEC_COMMAND, "")
}

/// A server that accepts: it echoes the request's id back.
fn echoing_server_reply(request: &RconPacket) -> RconPacket {
    RconPacket::new(request.get_id(), EXEC_COMMAND, "")
}

#[test]
fn auth_request_carries_primary_id_and_password() {
    let p = auth_packet("hunter2");
    assert_eq!(p.get_id(), PRIMARY_ID);
    assert_eq!(p.get_cmd(), AUTHENTICATE);
    assert_eq!(p.get_data(), b"hunter2\0\0");
}

#[test]
fn rejecting_server_fails_auth_for_every_password() {
    for password in ["", "secret", "hunter2", "correct horse"] {
        let request = auth_packet(password);
        let reply = rejecting_server_reply(&request);
        assert_eq!(auth_outcome(&reply), Err(RconError::AuthenticationFailed));
    }
}

#[test]
fn echoing_server_passes_auth() {
    let request = auth_packet("secret");
    let reply = echoing_server_reply(&request);
    assert_eq!(auth_outcome(&reply), Ok(()));
}

#[test]
fn exec_request_sends_command_then_empty_sentinel() {
    let (cmd, follow_up) = exec_request("say hi");
    assert_eq!(cmd.get_id(), PRIMARY_ID);
    assert_eq!(cmd.get_cmd(), EXEC_COMMAND);
    assert_eq!(cmd.get_data(), b"say hi\0\0");
    assert_eq!(follow_up.get_id(), SENTINEL_ID);
    assert_eq!(follow_up.get_cmd(), EXEC_COMMAND);
    assert_eq!(follow_up.get_data(), &[0u8, 0u8]);
}

#[test]
fn three_fragments_concatenate_in_order() {
    let replies = vec![
        RconPacket::new(PRIMARY_ID, EXEC_COMMAND, "first "),
        RconPacket::new(PRIMARY_ID, EXEC_COMMAND, "second "),
        RconPacket::new(PRIMARY_ID, EXEC_COMMAND, "third"),
        RconPacket::new(SENTINEL_ID, EXEC_COMMAND, ""),
    ];
    // Each fragment's text is trimmed before concatenation.
    assert_eq!(reassemble(&replies), Ok(String::from("firstsecondthird")));
}

#[test]
fn sentinel_alone_yields_empty_response() {
    let replies = vec![RconPacket::new(SENTINEL_ID, EXEC_COMMAND, "")];
    assert_eq!(reassemble(&replies), Ok(String::new()));
}

#[test]
fn unexpected_id_fails_reassembly() {
    let replies = vec![
        RconPacket::new(PRIMARY_ID, EXEC_COMMAND, "partial"),
        RconPacket::new(0x1234, EXEC_COMMAND, "stray"),
    ];
    assert_eq!(reassemble(&replies), Err(RconError::UnexpectedResponseId));
}

#[test]
fn replies_without_sentinel_leave_the_response_incomplete() {
    let replies = vec![RconPacket::new(PRIMARY_ID, EXEC_COMMAND, "only")];
    assert_eq!(reassemble(&replies), Err(RconError::TruncatedStream));
}

#[test]
fn absorb_reply_distinguishes_the_three_ids() {
    let mut response = String::new();
    let fragment = RconPacket::new(PRIMARY_ID, EXEC_COMMAND, "data");
    assert_eq!(absorb_reply(&mut response, &fragment), ReplyStep::Fragment);
    assert_eq!(response, "data");
    let sentinel = RconPacket::new(SENTINEL_ID, EXEC_COMMAND, "");
    assert_eq!(absorb_reply(&mut response, &sentinel), ReplyStep::Complete);
    assert_eq!(response, "data");
    let stray = RconPacket::new(7, EXEC_COMMAND, "");
    assert_eq!(absorb_reply(&mut response, &stray), ReplyStep::Desync);
    assert_eq!(response, "data");
}

#[test]
fn fragmented_exchange_over_the_wire() {
    // The server's whole answer to one command, as one byte stream:
    // three primary-id fragments, then the sentinel's reply.
    let mut stream = Vec::new();
    for text in ["a", "b", "c"] {
        stream.extend(RconPacket::new(PRIMARY_ID, EXEC_COMMAND, text).into_bytes());
    }
    stream.extend(RconPacket::new(SENTINEL_ID, EXEC_COMMAND, "").into_bytes());

    let mut response = String::new();
    let mut pos = 0;
    loop {
        let (reply, next) = decode_frame(&stream, pos).unwrap();
        pos = next;
        match absorb_reply(&mut response, &reply) {
            ReplyStep::Fragment => continue,
            ReplyStep::Complete => break,
            ReplyStep::Desync => panic!("ids were chosen above"),
        }
    }
    assert_eq!(response, "abc");
}

#[test]
fn only_interruption_is_retried() {
    assert!(retry_write(&WriteAttempt::Interrupted));
    assert!(!retry_write(&WriteAttempt::Completed));
    assert!(!retry_write(&WriteAttempt::Failed));
}

#[test]
fn interrupted_write_resolves_on_the_retry() {
    let attempts = vec![WriteAttempt::Interrupted, WriteAttempt::Completed];
    assert_eq!(resolve_send(&attempts), Ok(1));
}

#[test]
fn clean_write_resolves_immediately() {
    let attempts = vec![WriteAttempt::Completed];
    assert_eq!(resolve_send(&attempts), Ok(0));
}

#[test]
fn fatal_write_error_is_not_retried() {
    let attempts = vec![WriteAttempt::Failed, WriteAttempt::Completed];
    assert_eq!(resolve_send(&attempts), Err(RconError::WriteFailed));
}

#[test]
fn the_three_protocol_ids_are_distinct() {
    assert_ne!(PRIMARY_ID, SENTINEL_ID);
    assert_ne!(PRIMARY_ID, AUTH_FAILURE_ID);
    assert_ne!(SENTINEL_ID, AUTH_FAILURE_ID);
}
