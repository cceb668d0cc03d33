use slotkeeper::codec::write_varint;
use slotkeeper::session::{classify_disconnect, Action, DisconnectKind, Phase, Session, Step,
    KEEP_ALIVE_IN_ID, KEEP_ALIVE_OUT_ID, LOGIN_SUCCESS_ID, SET_COMPRESSION_ID,
    THROTTLE_DELAY_UNITS};

const THROTTLE: &str = "{\"text\":\"Connection throttled! Please wait before reconnecting.\"}";
const DUPLICATE: &str =
    "{\"color\":\"dark_red\",\"text\":\"Игрок с данным никнеймом уже играет на сервере!\"}";

fn fresh() -> Session {
    Session::new(b"Steve".to_vec())
}

fn in_play() -> Session {
    let mut s = fresh();
    let step = s.handle_packet(LOGIN_SUCCESS_ID, &Vec::new());
    assert!(matches!(step, Step::Proceed { action: None }));
    assert!(matches!(s.phase, Phase::Play));
    s
}

fn string_body(text: &str) -> Vec<u8> {
    let mut body = Vec::new();
    write_varint(&mut body, text.len() as u32);
    body.extend_from_slice(text.as_bytes());
    body
}

#[test]
fn keep_alive_echoes_identical_payload_under_mapped_id() {
    // inbound 0x23 with an 8-byte payload P yields exactly one outbound
    // packet under 0x12 carrying the identical 8 bytes
    let mut s = in_play();
    let payload: Vec<u8> = vec![1, 2, 3, 4, 5, 6, 7, 8];
    match s.handle_packet(KEEP_ALIVE_IN_ID, &payload) {
        Step::Proceed { action: Some(Action::Send { id, payload: echoed }) } => {
            assert_eq!(id, KEEP_ALIVE_OUT_ID);
            assert_eq!(echoed, payload);
        },
        other => panic!("expected an echo, got {:?}", other),
    }
}

#[test]
fn keep_alive_under_legacy_pair_echoes_same_id() {
    let mut s = in_play();
    let payload: Vec<u8> = vec![9, 9, 9, 9, 0, 0, 0, 1];
    match s.handle_packet(SET_COMPRESSION_ID, &payload) {
        Step::Proceed { action: Some(Action::Send { id, payload: echoed }) } => {
            assert_eq!(id, SET_COMPRESSION_ID);
            assert_eq!(echoed, payload);
        },
        other => panic!("expected an echo, got {:?}", other),
    }
}

#[test]
fn short_keep_alive_is_a_session_error() {
    let mut s = in_play();
    assert!(matches!(s.handle_packet(KEEP_ALIVE_IN_ID, &vec![1, 2, 3]), Step::Malformed));
}

#[test]
fn compression_threshold_is_recorded_during_login() {
    let mut s = fresh();
    let mut body = Vec::new();
    write_varint(&mut body, 256);
    match s.handle_packet(SET_COMPRESSION_ID, &body) {
        Step::Proceed { action: Some(Action::SetCompression { threshold }) } => {
            assert_eq!(threshold, 256);
        },
        other => panic!("expected compression negotiation, got {:?}", other),
    }
    assert_eq!(s.compression, Some(256));
    assert!(matches!(s.phase, Phase::LoggingIn));
}

#[test]
fn login_success_id_in_play_is_echoed_empty() {
    let mut s = in_play();
    match s.handle_packet(LOGIN_SUCCESS_ID, &vec![1, 2, 3]) {
        Step::Proceed { action: Some(Action::Send { id, payload }) } => {
            assert_eq!(id, LOGIN_SUCCESS_ID);
            assert!(payload.is_empty());
        },
        other => panic!("expected an empty echo, got {:?}", other),
    }
}

#[test]
fn throttle_disconnect_delays_before_retry() {
    // the throttle message earns a delay of at least four time units before
    // the retry signal; the session state is otherwise untouched
    let mut s = in_play();
    match s.handle_packet(0x00, &string_body(THROTTLE)) {
        Step::ThrottleRetry { delay_units } => {
            assert_eq!(delay_units, THROTTLE_DELAY_UNITS);
            assert!(delay_units >= 4);
        },
        other => panic!("expected a throttled retry, got {:?}", other),
    }
}

#[test]
fn duplicate_login_and_other_messages_close_without_delay() {
    let mut s = in_play();
    assert!(matches!(s.handle_packet(0x00, &string_body(DUPLICATE)), Step::CloseClean));
    let mut s2 = in_play();
    assert!(matches!(
        s2.handle_packet(0x00, &string_body("{\"text\":\"You are banned.\"}")),
        Step::CloseClean
    ));
}

#[test]
fn unreadable_disconnect_body_is_ignored() {
    let mut s = in_play();
    // declared length longer than the body: no complete string is there
    assert!(matches!(s.handle_packet(0x00, &vec![0x20, b'x']), Step::Proceed { action: None }));
}

#[test]
fn unknown_identifiers_are_ignored() {
    let mut s = in_play();
    assert!(matches!(s.handle_packet(0x42, &vec![1, 2, 3]), Step::Proceed { action: None }));
    assert!(matches!(s.phase, Phase::Play));
}

#[test]
fn classification_is_by_exact_content() {
    assert!(matches!(
        classify_disconnect(&THROTTLE.as_bytes().to_vec()),
        DisconnectKind::Throttled
    ));
    assert!(matches!(
        classify_disconnect(&DUPLICATE.as_bytes().to_vec()),
        DisconnectKind::DuplicateLogin
    ));
    assert!(matches!(
        classify_disconnect(&b"{\"text\":\"anything else\"}".to_vec()),
        DisconnectKind::OtherRejection
    ));
}
