use kikitori::client::{
    classify_reply, reply_from, tail_chars, CollectError, EngineReply, SessionCollector,
};
use kikitori::payload::text_payload;
use kikitori::proto::{Frame, COMMIT, ERROR, PARTIAL, READY, STOPPED};

fn frame(kind: u8, payload: &[u8]) -> Frame {
    Frame {
        kind,
        payload: payload.to_vec(),
    }
}

#[test]
fn replies_are_classified() {
    assert_eq!(classify_reply(&frame(READY, b"{}")), EngineReply::Ready);
    assert_eq!(
        classify_reply(&frame(COMMIT, &text_payload("確定"))),
        EngineReply::Commit("確定".into())
    );
    assert_eq!(
        classify_reply(&frame(PARTIAL, &text_payload("途中"))),
        EngineReply::Partial("途中".into())
    );
    assert_eq!(
        classify_reply(&frame(PARTIAL, b"{}")),
        EngineReply::Partial(String::new())
    );
    assert_eq!(classify_reply(&frame(STOPPED, b"{}")), EngineReply::Stopped);
    assert_eq!(classify_reply(&frame(ERROR, b"{}")), EngineReply::Error);
    assert_eq!(classify_reply(&frame(0x05, b"")), EngineReply::Other(0x05));
}

#[test]
fn reply_from_parsed_text() {
    assert_eq!(reply_from(COMMIT, None), EngineReply::Commit(String::new()));
    assert_eq!(
        reply_from(PARTIAL, Some("x".into())),
        EngineReply::Partial("x".into())
    );
    assert_eq!(reply_from(READY, Some("x".into())), EngineReply::Ready);
}

#[test]
fn commits_are_grouped_by_session() {
    let mut c = SessionCollector::new();
    assert_eq!(c.accept(&frame(READY, b"{}")), Ok(()));
    assert_eq!(c.accept(&frame(COMMIT, &text_payload("a"))), Ok(()));
    assert_eq!(c.accept(&frame(PARTIAL, &text_payload("zz"))), Ok(()));
    assert_eq!(c.accept(&frame(COMMIT, &text_payload("b"))), Ok(()));
    assert_eq!(c.accept(&frame(STOPPED, b"{}")), Ok(()));
    assert_eq!(c.accept(&frame(COMMIT, &text_payload("c"))), Ok(()));
    assert_eq!(c.accept(&frame(STOPPED, b"{}")), Ok(()));
    assert_eq!(c.accept(&frame(STOPPED, b"{}")), Ok(()));
    assert_eq!(
        c.into_sessions(),
        vec![
            vec!["a".to_owned(), "b".to_owned()],
            vec!["c".to_owned()],
            vec![]
        ]
    );
}

#[test]
fn collector_errors() {
    let mut c = SessionCollector::new();
    assert_eq!(
        c.accept(&frame(COMMIT, b"{}")),
        Err(CollectError::MissingText)
    );
    assert_eq!(
        c.accept(&frame(ERROR, b"{\"message\":\"x\"}")),
        Err(CollectError::EngineError)
    );
    assert_eq!(
        c.accept(&frame(0x42, b"")),
        Err(CollectError::UnknownKind(0x42))
    );
    assert_eq!(c.accept_parsed(COMMIT, Some("t".into())), Ok(()));
    assert_eq!(c.accept_parsed(STOPPED, None), Ok(()));
    assert_eq!(c.into_sessions(), vec![vec!["t".to_owned()]]);
}

#[test]
fn tail_keeps_the_last_characters() {
    assert_eq!(tail_chars("あいうえお", 3), "うえお");
    assert_eq!(tail_chars("ab", 40), "ab");
    assert_eq!(tail_chars("abc", 0), "");
    assert_eq!(tail_chars("", 5), "");
}

use kikitori::client::{ClientAction, TypingClient};

#[test]
fn typed_text_is_every_commit_joined() {
    let mut c = TypingClient::new();
    assert_eq!(c.on_reply(EngineReply::Ready), ClientAction::Nothing);
    for i in 0..12 {
        assert_eq!(
            c.on_reply(EngineReply::Partial(format!("p{i}"))),
            ClientAction::ShowPartial(format!("p{i}"))
        );
        assert_eq!(
            c.on_reply(EngineReply::Commit(format!("確定{i}"))),
            ClientAction::ShowCommit(format!("確定{i}"))
        );
    }
    let expected: String = (0..12).map(|i| format!("確定{i}")).collect();
    assert_eq!(c.on_reply(EngineReply::Stopped), ClientAction::Type(expected));
}

#[test]
fn nothing_committed_types_nothing() {
    let mut c = TypingClient::new();
    assert_eq!(c.on_reply(EngineReply::Error), ClientAction::Nothing);
    assert_eq!(c.on_reply(EngineReply::Other(7)), ClientAction::Nothing);
    assert_eq!(c.on_reply(EngineReply::Stopped), ClientAction::Type(String::new()));
}

#[test]
fn stream_of_frames_to_typed_text() {
    let mut c = TypingClient::new();
    let frames = [
        frame(READY, b"{}"),
        frame(COMMIT, &text_payload("こんにちは")),
        frame(PARTIAL, &text_payload("せ")),
        frame(COMMIT, b"{}"),
        frame(COMMIT, &text_payload("世界")),
    ];
    for f in &frames {
        c.on_reply(classify_reply(f));
    }
    assert_eq!(
        c.on_reply(classify_reply(&frame(STOPPED, b"{}"))),
        ClientAction::Type("こんにちは世界".into())
    );
}
