use kikitori::text::strip_japanese_spaces;

#[test]
fn removes_spaces_between_japanese() {
    assert_eq!(
        strip_japanese_spaces("プルリクエスト の レビュー"),
        "プルリクエストのレビュー"
    );
}

#[test]
fn removes_multiple_spaces_between_japanese() {
    assert_eq!(strip_japanese_spaces("あ  い"), "あい");
}

#[test]
fn keeps_spaces_between_ascii_words() {
    assert_eq!(strip_japanese_spaces("hello world"), "hello world");
}

#[test]
fn keeps_spaces_adjacent_to_ascii() {
    // one ASCII neighbour is enough to keep the space
    assert_eq!(
        strip_japanese_spaces("設定は Podman です"),
        "設定は Podman です"
    );
}

#[test]
fn keeps_leading_and_trailing_spaces() {
    // a space at either end lacks a neighbour on one side
    assert_eq!(strip_japanese_spaces(" あい "), " あい ");
}

#[test]
fn empty_string() {
    assert_eq!(strip_japanese_spaces(""), "");
}

#[test]
fn ascii_text_is_never_changed() {
    let s = "  a  b c   ";
    assert_eq!(strip_japanese_spaces(s), s);
}

#[test]
fn only_spaces_are_removed() {
    let s = "日本 語 と English の 混在  テキスト";
    let out = strip_japanese_spaces(s);
    assert_eq!(out, "日本語と English の混在テキスト");
    let non_space = |t: &str| t.chars().filter(|c| *c != ' ').collect::<String>();
    assert_eq!(non_space(&out), non_space(s));
}

#[test]
fn other_whitespace_is_kept() {
    assert_eq!(strip_japanese_spaces("あ\tい"), "あ\tい");
    assert_eq!(strip_japanese_spaces("あ\u{3000}い"), "あ\u{3000}い");
}

#[test]
fn stripping_twice_is_stripping_once() {
    for s in [
        "プルリクエスト の レビュー",
        "あ  い う",
        " あ い ",
        "設定は Podman です",
        "a あ い b",
        "",
    ] {
        let once = strip_japanese_spaces(s);
        assert_eq!(strip_japanese_spaces(&once), once);
    }
}
