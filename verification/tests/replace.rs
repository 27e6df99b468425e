use kikitori::replace::Replacer;

#[test]
fn parses_tab_separated_rules() {
    let r = Replacer::parse("シェルパ\tsherpa\nカルゴ\tcargo\n");
    assert_eq!(r.len(), 2);
}

#[test]
fn skips_comments_and_blank_lines() {
    let r = Replacer::parse("# コメント\n\nシェルパ\tsherpa\n");
    assert_eq!(r.len(), 1);
}

#[test]
fn skips_lines_without_tab() {
    let r = Replacer::parse("タブなしの行\nシェルパ\tsherpa\n");
    assert_eq!(r.len(), 1);
}

#[test]
fn applies_all_occurrences_in_order() {
    let r = Replacer::parse("シェルパ\tsherpa\nカルゴ\tcargo\n");
    assert_eq!(
        r.apply("シェルパとカルゴとシェルパ"),
        "sherpaとcargoとsherpa"
    );
}

#[test]
fn earlier_rules_win_on_overlap() {
    // the longer pattern written first takes precedence over the shorter one
    let r = Replacer::parse("シェルパオニックス\tsherpa-onnx\nシェルパ\tsherpa\n");
    assert_eq!(r.apply("シェルパオニックス"), "sherpa-onnx");
}

#[test]
fn empty_dictionary_is_identity() {
    let r = Replacer::parse("");
    assert!(r.is_empty());
    assert_eq!(r.apply("そのまま"), "そのまま");
}

#[test]
fn later_rules_see_the_output_of_earlier_ones() {
    let r = Replacer::parse("a\tb\nb\tc\n");
    assert_eq!(r.apply("ab"), "cc");
    let reversed = Replacer::parse("b\tc\na\tb\n");
    assert_eq!(reversed.apply("ab"), "bc");
}

#[test]
fn whitespace_only_lines_are_blank_even_with_a_tab() {
    let r = Replacer::parse(" \t \n\u{3000}\n");
    assert!(r.is_empty());
}

#[test]
fn comment_lines_with_tabs_are_skipped() {
    let r = Replacer::parse("#a\tb\n");
    assert_eq!(r.len(), 0);
}

#[test]
fn only_the_first_tab_separates() {
    let r = Replacer::parse("x\ty\tz\n");
    assert_eq!(r.len(), 1);
    assert_eq!(r.apply("axb"), "ay\tzb");
}

#[test]
fn carriage_returns_end_lines() {
    let r = Replacer::parse("カルゴ\tcargo\r\nシェルパ\tsherpa");
    assert_eq!(r.len(), 2);
    assert_eq!(r.apply("カルゴ"), "cargo");
    assert_eq!(r.apply("シェルパ"), "sherpa");
}

#[test]
fn empty_pattern_inserts_everywhere() {
    let r = Replacer::parse("\t-\n");
    assert_eq!(r.len(), 1);
    assert_eq!(r.apply("ab"), "-a-b-");
}

#[test]
fn replacement_does_not_overlap() {
    let r = Replacer::parse("aa\tb\n");
    assert_eq!(r.apply("aaa"), "ba");
}

#[test]
fn absent_patterns_leave_text_unchanged() {
    let r = Replacer::parse("シェルパ\tsherpa\n");
    assert_eq!(r.apply("カルゴ"), "カルゴ");
}
