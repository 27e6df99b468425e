use kikitori::daemon::{
    audio_first_payload, decode_s16le, ready_payload, stopped_payload, unknown_kind_payload,
    EngineSession, FrameAction, PARTIAL_EVERY_SAMPLES,
};
use kikitori::proto::{AUDIO, HELLO, START, STOP};

#[test]
fn frames_drive_the_session() {
    let mut s = EngineSession::new();
    assert!(!s.is_active());
    assert_eq!(s.on_frame(AUDIO), FrameAction::RejectAudio);
    assert_eq!(s.on_frame(HELLO), FrameAction::Greet);
    assert!(!s.is_active());
    assert_eq!(s.on_frame(START), FrameAction::Begin);
    assert!(s.is_active());
    assert_eq!(s.on_frame(AUDIO), FrameAction::Feed);
    assert_eq!(s.on_frame(0x7E), FrameAction::RejectKind(0x7E));
    assert!(s.is_active());
    assert_eq!(s.on_frame(STOP), FrameAction::Finish { flush: true });
    assert!(!s.is_active());
    assert_eq!(s.on_frame(STOP), FrameAction::Finish { flush: false });
    assert_eq!(s.on_frame(AUDIO), FrameAction::RejectAudio);
}

#[test]
fn partial_decodes_follow_the_audio_received() {
    let mut s = EngineSession::new();
    assert_eq!(PARTIAL_EVERY_SAMPLES, 6400);
    assert!(!s.partial_due(6399));
    assert!(s.partial_due(6400));
    assert!(!s.partial_due(12799));
    assert!(s.partial_due(20000));
    assert!(!s.partial_due(26399));
    assert!(s.partial_due(26400));
    // a new session starts the cadence again
    s.on_frame(START);
    assert!(!s.partial_due(100));
    assert!(s.partial_due(6400));
}

#[test]
fn audio_samples_are_little_endian_signed() {
    assert_eq!(
        decode_s16le(&[0x01, 0x00, 0xFF, 0xFF, 0x00, 0x80, 0xFF, 0x7F, 0x05]),
        vec![1, -1, -32768, 32767]
    );
    assert!(decode_s16le(&[]).is_empty());
}

fn object(members: &[(&str, serde_json::Value)]) -> Vec<u8> {
    let mut m = serde_json::Map::new();
    for (k, v) in members {
        m.insert((*k).to_owned(), v.clone());
    }
    serde_json::Value::Object(m).to_string().into_bytes()
}

#[test]
fn ready_payload_names_model_and_version() {
    assert_eq!(
        ready_payload(),
        br#"{"model":"sensevoice-small-int8","version":0}"#.to_vec()
    );
    assert_eq!(
        ready_payload(),
        object(&[
            ("version", serde_json::Value::from(0)),
            ("model", serde_json::Value::from("sensevoice-small-int8")),
        ])
    );
}

#[test]
fn stopped_payload_is_empty_object() {
    assert_eq!(stopped_payload(), b"{}".to_vec());
}

#[test]
fn error_payloads() {
    assert_eq!(
        String::from_utf8(audio_first_payload()).unwrap(),
        "{\"message\":\"START が先\"}"
    );
    assert_eq!(
        String::from_utf8(unknown_kind_payload(0x7E)).unwrap(),
        "{\"message\":\"未知の型 0x7E\"}"
    );
    assert_eq!(
        String::from_utf8(unknown_kind_payload(0x0A)).unwrap(),
        format!("{{\"message\":\"未知の型 0x{:02X}\"}}", 0x0A)
    );
    assert_eq!(
        unknown_kind_payload(0xFF),
        object(&[("message", serde_json::Value::from("未知の型 0xFF"))])
    );
}

#[test]
fn one_finish_per_stop_over_a_stream() {
    let kinds = [HELLO, AUDIO, START, AUDIO, STOP, STOP, AUDIO, START, START, 0x10, AUDIO, STOP];
    let mut s = EngineSession::new();
    let actions: Vec<FrameAction> = kinds.iter().map(|&k| s.on_frame(k)).collect();
    assert_eq!(
        actions,
        vec![
            FrameAction::Greet,
            FrameAction::RejectAudio,
            FrameAction::Begin,
            FrameAction::Feed,
            FrameAction::Finish { flush: true },
            FrameAction::Finish { flush: false },
            FrameAction::RejectAudio,
            FrameAction::Begin,
            FrameAction::Begin,
            FrameAction::RejectKind(0x10),
            FrameAction::Feed,
            FrameAction::Finish { flush: true },
        ]
    );
    let finishes = actions
        .iter()
        .filter(|a| matches!(a, FrameAction::Finish { .. }))
        .count();
    assert_eq!(finishes, kinds.iter().filter(|&&k| k == STOP).count());
}
