use kikitori::overlay::{
    bar_height, est_rows, est_text_width, HALF_WIDTH, LINE_HEIGHT, MAX_ROWS, SPACING, TEXT_SIZE,
};

#[test]
fn ascii_is_half_width() {
    assert_eq!(est_text_width("abcd"), 4 * HALF_WIDTH);
}

#[test]
fn cjk_is_full_width() {
    assert_eq!(est_text_width("あいう"), 3 * TEXT_SIZE);
    assert_eq!(est_text_width("あa"), TEXT_SIZE + HALF_WIDTH);
}

#[test]
fn short_text_is_single_row() {
    assert_eq!(est_rows("", 900), 1, "the empty text takes one row");
    assert_eq!(est_rows("あいう", 900), 1);
}

#[test]
fn wrapped_text_counts_rows() {
    // ten full-width characters = 200px: one row at 200, two at 199
    let s = "あいうえおかきくけこ";
    assert_eq!(est_rows(s, 200), 1);
    assert_eq!(est_rows(s, 199), 2);
    // at 66px (a little over three characters) the ceiling of 200/66 = 4
    assert_eq!(est_rows(s, 66), 4);
}

#[test]
fn single_row_height() {
    // one row: padding 8x2 + row 26
    assert_eq!(bar_height(1), 42);
    assert_eq!(bar_height(0), 42, "zero rows round up to one");
}

#[test]
fn each_row_adds_height() {
    // each further row adds a row of 26 and a spacing of 4
    assert_eq!(bar_height(2), 72);
    assert_eq!(bar_height(3) - bar_height(2), LINE_HEIGHT + SPACING);
}

#[test]
fn rows_are_capped() {
    assert_eq!(
        bar_height(MAX_ROWS + 5),
        bar_height(MAX_ROWS),
        "past the cap the box stops growing (older rows are hidden)"
    );
}

#[test]
fn capped_height_value() {
    assert_eq!(bar_height(MAX_ROWS), 282);
    assert_eq!(bar_height(u32::MAX), 282);
    for r in 1..MAX_ROWS {
        assert_eq!(bar_height(r + 1), bar_height(r) + LINE_HEIGHT + SPACING);
    }
}

#[test]
fn rows_hold_the_whole_text() {
    // 25 ASCII characters = 250px
    let s = "abcdefghijklmnopqrstuvwxy";
    assert_eq!(est_text_width(s), 250);
    for usable in 1..300u32 {
        let r = est_rows(s, usable);
        assert!(r * usable >= 250);
        assert!(r == 1 || (r - 1) * usable < 250);
    }
}

#[test]
fn mixed_width_text() {
    assert_eq!(est_text_width("設定は Podman です"), 3 * 20 + 8 * 10 + 2 * 20);
}
