use soagents::sse_proxy::{
    cmd_start_sse_proxy, cmd_stop_sse_proxy, default_event, relay_channel, relay_chunk,
    release_relay,
    RelayInput, RelayPhase, RelaySession, SseConnection, SseDecoder, SseEvent, SseProxyState,
};

fn pairs(events: &[SseEvent]) -> Vec<(String, String)> {
    events
        .iter()
        .map(|e| {
            (
                String::from_utf8(e.event.clone()).unwrap(),
                String::from_utf8(e.data.clone()).unwrap(),
            )
        })
        .collect()
}

fn pair(event: &str, data: &str) -> (String, String) {
    (event.to_string(), data.to_string())
}

#[test]
fn payload_split_across_two_chunks_is_one_event() {
    let mut decoder = SseDecoder::new();
    let first = decoder.feed(b"da");
    assert!(first.is_empty());
    assert_eq!(decoder.pending(), &b"da".to_vec());
    let second = decoder.feed(b"ta: hello\n\n");
    assert_eq!(pairs(&second), vec![pair("message", "hello")]);
    assert!(decoder.pending().is_empty());
}

#[test]
fn named_event_in_a_single_chunk() {
    let mut decoder = SseDecoder::new();
    let events = decoder.feed(b"event: ping\ndata: 1\n\n");
    assert_eq!(pairs(&events), vec![pair("ping", "1")]);
    assert_eq!(decoder.event_type(), &b"message".to_vec());
}

#[test]
fn default_event_type_is_message() {
    assert_eq!(default_event(), b"message".to_vec());
    let decoder = SseDecoder::new();
    assert_eq!(decoder.event_type(), &b"message".to_vec());
    assert!(decoder.pending().is_empty());
}

#[test]
fn event_type_lasts_until_the_blank_line() {
    let mut decoder = SseDecoder::new();
    let events = decoder.feed(b"event: tick\ndata: a\ndata: b\n\ndata: c\n");
    assert_eq!(
        pairs(&events),
        vec![pair("tick", "a"), pair("tick", "b"), pair("message", "c")]
    );
}

#[test]
fn comments_and_unknown_lines_emit_nothing() {
    let mut decoder = SseDecoder::new();
    let events = decoder.feed(b": heartbeat\nretry: 10\ndata:nospace\nid: 7\nevent:x\n");
    assert!(events.is_empty());
    assert_eq!(decoder.event_type(), &b"message".to_vec());
    let events = decoder.feed(b"event: up\n: note\ndata: 1\n");
    assert_eq!(pairs(&events), vec![pair("up", "1")]);
}

#[test]
fn one_trailing_carriage_return_is_trimmed() {
    let mut decoder = SseDecoder::new();
    let events = decoder.feed(b"event: e\r\ndata: x\r\n\r\ndata: y\r\r\n");
    assert_eq!(pairs(&events), vec![pair("e", "x"), pair("message", "y\r")]);
}

#[test]
fn line_of_two_carriage_returns_is_no_blank_line() {
    let mut decoder = SseDecoder::new();
    let events = decoder.feed(b"event: keep\n\r\r\ndata: z\n");
    assert_eq!(pairs(&events), vec![pair("keep", "z")]);
}

#[test]
fn empty_payload_and_empty_event_name() {
    let mut decoder = SseDecoder::new();
    let events = decoder.feed(b"event: \ndata: \n");
    assert_eq!(pairs(&events), vec![pair("", "")]);
}

#[test]
fn unterminated_tail_is_kept_and_not_emitted() {
    let mut decoder = SseDecoder::new();
    let events = decoder.feed(b"data: one\ndata: tw");
    assert_eq!(pairs(&events), vec![pair("message", "one")]);
    assert_eq!(decoder.pending(), &b"data: tw".to_vec());
    let events = decoder.feed(b"");
    assert!(events.is_empty());
    let events = decoder.feed(b"o\n");
    assert_eq!(pairs(&events), vec![pair("message", "two")]);
}

#[test]
fn every_two_way_split_decodes_alike() {
    let stream: &[u8] =
        b": hi\nevent: ping\r\ndata: 1\n\ndata: caf\xc3\xa9\nevent: a\ndata: b\n\nda";
    let mut whole = SseDecoder::new();
    let expected = pairs_lossy(&whole.feed(stream));
    assert_eq!(expected.len(), 3);
    for cut in 0..=stream.len() {
        let mut decoder = SseDecoder::new();
        let mut got = pairs_lossy(&decoder.feed(&stream[..cut]));
        got.extend(pairs_lossy(&decoder.feed(&stream[cut..])));
        assert_eq!(got, expected);
        assert_eq!(decoder.pending(), whole.pending());
        assert_eq!(decoder.event_type(), whole.event_type());
    }
}

fn pairs_lossy(events: &[SseEvent]) -> Vec<(Vec<u8>, Vec<u8>)> {
    events.iter().map(|e| (e.event.clone(), e.data.clone())).collect()
}

#[test]
fn byte_by_byte_decodes_like_one_chunk() {
    let stream: &[u8] = b"event: ping\ndata: 1\n\ndata: hello\n\n";
    let mut whole = SseDecoder::new();
    let expected = pairs(&whole.feed(stream));
    let mut decoder = SseDecoder::new();
    let mut got = Vec::new();
    for b in stream {
        got.extend(pairs(&decoder.feed(&[*b])));
    }
    assert_eq!(got, expected);
    assert_eq!(got, vec![pair("ping", "1"), pair("message", "hello")]);
}

#[test]
fn channel_is_named_by_session_and_event_type() {
    assert_eq!(relay_channel("tab1", "message"), "stream:tab1:message");
    assert_eq!(relay_channel("", ""), "stream::");
    assert_eq!(relay_channel("a:b", "ping"), "stream:a:b:ping");
}

#[test]
fn session_walks_through_its_phases() {
    let mut session = RelaySession::new();
    assert_eq!(session.phase(), RelayPhase::Idle);
    assert!(!session.is_over());
    assert!(session.step(RelayInput::Open).is_empty());
    assert_eq!(session.phase(), RelayPhase::Connecting);
    assert!(session.step(RelayInput::Connected).is_empty());
    assert_eq!(session.phase(), RelayPhase::Streaming);
    let events = session.step(RelayInput::Chunk(b"data: x\n"));
    assert_eq!(pairs(&events), vec![pair("message", "x")]);
    assert_eq!(session.phase(), RelayPhase::Streaming);
    assert!(session.step(RelayInput::End).is_empty());
    assert_eq!(session.phase(), RelayPhase::Completed);
    assert!(session.is_over());
}

#[test]
fn connection_failure_ends_the_session() {
    let mut session = RelaySession::new();
    session.step(RelayInput::Open);
    session.step(RelayInput::ConnectFailed);
    assert_eq!(session.phase(), RelayPhase::Errored);
    session.step(RelayInput::Connected);
    assert_eq!(session.phase(), RelayPhase::Errored);
}

#[test]
fn read_failure_ends_the_session() {
    let mut session = RelaySession::new();
    session.step(RelayInput::Open);
    session.step(RelayInput::Connected);
    session.step(RelayInput::ReadFailed);
    assert_eq!(session.phase(), RelayPhase::Errored);
    assert!(session.step(RelayInput::Chunk(b"data: late\n")).is_empty());
}

#[test]
fn cancelled_session_publishes_nothing() {
    let mut session = RelaySession::new();
    assert!(session.step(RelayInput::Open).is_empty());
    assert!(session.step(RelayInput::Connected).is_empty());
    assert!(session.step(RelayInput::Chunk(b"data: par")).is_empty());
    assert!(session.step(RelayInput::Cancel).is_empty());
    assert_eq!(session.phase(), RelayPhase::Cancelled);
    assert!(session.step(RelayInput::Chunk(b"tial\ndata: late\n")).is_empty());
    assert!(session.step(RelayInput::End).is_empty());
    assert_eq!(session.phase(), RelayPhase::Cancelled);
}

#[test]
fn cancel_ends_a_session_in_any_live_phase() {
    let mut idle = RelaySession::new();
    idle.step(RelayInput::Cancel);
    assert_eq!(idle.phase(), RelayPhase::Cancelled);
    let mut connecting = RelaySession::new();
    connecting.step(RelayInput::Open);
    connecting.step(RelayInput::Cancel);
    assert_eq!(connecting.phase(), RelayPhase::Cancelled);
    let mut completed = RelaySession::new();
    completed.step(RelayInput::Open);
    completed.step(RelayInput::Connected);
    completed.step(RelayInput::End);
    completed.step(RelayInput::Cancel);
    assert_eq!(completed.phase(), RelayPhase::Completed);
}

#[test]
fn chunk_before_the_stream_is_open_is_not_decoded() {
    let mut session = RelaySession::new();
    assert!(session.step(RelayInput::Chunk(b"data: early\n")).is_empty());
    assert_eq!(session.phase(), RelayPhase::Idle);
    session.step(RelayInput::Open);
    assert!(session.step(RelayInput::End).is_empty());
    assert_eq!(session.phase(), RelayPhase::Connecting);
}

#[test]
fn second_relay_for_a_session_displaces_the_first() {
    let mut state: SseProxyState<&str> = SseProxyState::new();
    let (first, displaced) = cmd_start_sse_proxy(&mut state, "tab1".to_string(), "urlA");
    assert_eq!(first, 0);
    assert_eq!(displaced, None);
    let (second, displaced) = cmd_start_sse_proxy(&mut state, "tab1".to_string(), "urlB");
    assert_eq!(second, 1);
    assert_eq!(displaced, Some(SseConnection { cancel_tx: "urlA", serial: 0 }));
    assert_eq!(state.len(), 1);
    assert_eq!(state.active_serial("tab1"), Some(1));
}

#[test]
fn displaced_relay_cannot_release_its_successor() {
    let mut state: SseProxyState<u8> = SseProxyState::new();
    let (first, _) = cmd_start_sse_proxy(&mut state, "tab1".to_string(), 1);
    let (second, _) = cmd_start_sse_proxy(&mut state, "tab1".to_string(), 2);
    assert_eq!(release_relay(&mut state, "tab1", first), None);
    assert_eq!(state.active_serial("tab1"), Some(second));
    assert_eq!(
        release_relay(&mut state, "tab1", second),
        Some(SseConnection { cancel_tx: 2, serial: second })
    );
    assert_eq!(state.active_serial("tab1"), None);
    assert_eq!(release_relay(&mut state, "tab1", second), None);
}

#[test]
fn stop_relay_returns_the_relay_to_cancel() {
    let mut state: SseProxyState<u8> = SseProxyState::new();
    cmd_start_sse_proxy(&mut state, "tab1".to_string(), 1);
    cmd_start_sse_proxy(&mut state, "tab2".to_string(), 2);
    assert_eq!(state.len(), 2);
    assert_eq!(
        cmd_stop_sse_proxy(&mut state, "tab1"),
        Some(SseConnection { cancel_tx: 1, serial: 0 })
    );
    assert_eq!(state.len(), 1);
    assert_eq!(state.active_serial("tab1"), None);
    assert_eq!(state.active_serial("tab2"), Some(1));
}

#[test]
fn stop_relay_on_unknown_session_is_a_no_op() {
    let mut state: SseProxyState<u8> = SseProxyState::new();
    assert_eq!(cmd_stop_sse_proxy(&mut state, "nobody"), None);
    cmd_start_sse_proxy(&mut state, "tab1".to_string(), 1);
    assert_eq!(cmd_stop_sse_proxy(&mut state, "tab2"), None);
    assert_eq!(state.len(), 1);
    assert_eq!(state.active_serial("tab1"), Some(0));
}

fn streaming() -> RelaySession {
    let mut session = RelaySession::new();
    session.step(RelayInput::Open);
    session.step(RelayInput::Connected);
    session
}

#[test]
fn only_the_active_relay_delivers() {
    let mut state: SseProxyState<u8> = SseProxyState::new();
    let (first, _) = cmd_start_sse_proxy(&mut state, "tab1".to_string(), 1);
    let mut old_session = streaming();
    let events = relay_chunk(&state, &mut old_session, "tab1", first, b"data: a\n");
    assert_eq!(pairs(&events), vec![pair("message", "a")]);

    let (second, _) = cmd_start_sse_proxy(&mut state, "tab1".to_string(), 2);
    let mut new_session = streaming();
    let late = relay_chunk(&state, &mut old_session, "tab1", first, b"data: b\n");
    assert!(late.is_empty());
    assert_eq!(old_session.phase(), RelayPhase::Cancelled);
    let events = relay_chunk(&state, &mut new_session, "tab1", second, b"data: c\n");
    assert_eq!(pairs(&events), vec![pair("message", "c")]);
    assert_eq!(new_session.phase(), RelayPhase::Streaming);
}

#[test]
fn stopped_relay_delivers_nothing() {
    let mut state: SseProxyState<u8> = SseProxyState::new();
    let (serial, _) = cmd_start_sse_proxy(&mut state, "tab1".to_string(), 1);
    let mut session = streaming();
    cmd_stop_sse_proxy(&mut state, "tab1");
    assert!(relay_chunk(&state, &mut session, "tab1", serial, b"data: x\n").is_empty());
    assert_eq!(session.phase(), RelayPhase::Cancelled);
    let mut other = streaming();
    assert!(relay_chunk(&state, &mut other, "tab2", 0, b"data: x\n").is_empty());
}
