use kikitori::session::Session;

#[test]
fn text_is_plain_concat() {
    let mut s = Session::default();
    s.push("こんにちは".into());
    s.push("世界".into());
    assert_eq!(s.text(), "こんにちは世界", "joined with no separator");
}

#[test]
fn tail_shows_only_last_n() {
    let mut s = Session::default();
    for i in 0..12 {
        s.push(format!("確定{i}"));
    }
    let tail = s.tail(9);
    assert_eq!(tail.len(), 9);
    assert_eq!(tail[0], "確定3", "older commits are hidden from the display");
    assert_eq!(tail[8], "確定11");
}

#[test]
fn text_keeps_commits_hidden_from_tail() {
    // commits hidden from the display are still in the typed text
    let mut s = Session::default();
    for i in 0..12 {
        s.push(format!("確定{i}"));
    }
    let text = s.text();
    for i in 0..12 {
        assert!(text.contains(&format!("確定{i}")), "確定{i} missing from the text");
    }
}

#[test]
fn tail_with_few_commits_returns_all() {
    let mut s = Session::default();
    s.push("あ".into());
    s.push("い".into());
    assert_eq!(s.tail(9), ["あ", "い"]);
}

#[test]
fn empty_session() {
    let mut s = Session::default();
    assert!(s.is_empty());
    assert_eq!(s.text(), "");
    assert!(s.tail(9).is_empty());
    s.push("あ".into());
    assert!(!s.is_empty());
}

#[test]
fn text_is_hidden_part_then_shown_part() {
    let mut s = Session::default();
    for i in 0..5 {
        s.push(format!("{i}-"));
    }
    let shown: String = s.tail(2).concat();
    assert_eq!(shown, "3-4-");
    assert_eq!(s.text(), format!("0-1-2-{shown}"));
}

#[test]
fn tail_of_zero_is_empty() {
    let mut s = Session::default();
    s.push("x".into());
    assert!(s.tail(0).is_empty());
}
