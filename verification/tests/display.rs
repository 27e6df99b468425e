use kikitori::display::{text_width_u32, BarState, OverlayEvent, OverlayState, BOX_WIDTH_DIV};
use kikitori::overlay::{bar_height, MAX_ROWS};

#[test]
fn size_waits_for_the_screen_width() {
    let mut s = OverlayState::new();
    assert_eq!(s.visible_rows(100), 1);
    assert_eq!(s.apply(OverlayEvent::Status("録音中…".into())), None);
    // the one-pixel scaffold and zero widths are ignored
    assert_eq!(s.surface_width(1), None);
    assert_eq!(s.surface_width(0), None);
    assert_eq!(s.surface_width(1920), Some((1920 / BOX_WIDTH_DIV, 42)));
    // later sizes are the box's own
    assert_eq!(s.surface_width(480), None);
}

#[test]
fn box_grows_with_commits_and_stops_at_the_cap() {
    let mut s = OverlayState::new();
    s.surface_width(1920);
    // a short partial text keeps one row: no change
    assert_eq!(s.apply(OverlayEvent::Partial("あ".into())), None);
    // one commit plus the (now empty) partial line: two rows
    assert_eq!(s.apply(OverlayEvent::Commit("x".into())), Some((480, 72)));
    let mut last = None;
    for i in 0..12 {
        if let Some(d) = s.apply(OverlayEvent::Commit(format!("c{i}"))) {
            last = Some(d);
        }
    }
    assert_eq!(last, Some((480, bar_height(MAX_ROWS))));
    assert_eq!(s.visible_rows(448), MAX_ROWS + 1);
}

#[test]
fn wrapped_partial_text_adds_rows() {
    let mut s = OverlayState::new();
    s.surface_width(1920);
    // 50 full-width characters = 1000px in a 448px text area: 3 rows
    let long: String = "あ".repeat(50);
    assert_eq!(s.apply(OverlayEvent::Partial(long)), Some((480, 102)));
    assert_eq!(s.visible_rows(448), 3);
}

#[test]
fn failure_is_shown_alone() {
    let mut s = OverlayState::new();
    s.surface_width(1920);
    s.apply(OverlayEvent::Commit("x".into()));
    assert_eq!(
        s.apply(OverlayEvent::Fatal("接続できない".into())),
        Some((480, 42))
    );
    assert_eq!(s.visible_rows(448), 1);
}

#[test]
fn narrow_screens_keep_a_usable_width() {
    let mut s = OverlayState::new();
    // 100 / 4 = 25 px, less than the padding: one pixel of text area
    assert_eq!(s.surface_width(100), Some((25, 42)));
    assert_eq!(s.apply(OverlayEvent::Partial("ab".into())), Some((25, 282)));
}

#[test]
fn box_limit() {
    assert_eq!(text_width_u32("abc"), Some(30));
    assert_eq!(text_width_u32(""), Some(0));
    let mut s = OverlayState::new();
    assert!(s.accepts(&OverlayEvent::Partial("あ".repeat(1000))));
    assert!(s.accepts_width(1920));
    s.surface_width(1920);
    assert!(s.accepts(&OverlayEvent::Commit("x".into())));
    assert!(s.accepts(&OverlayEvent::Fatal("x".into())));
}

#[test]
fn two_line_bar() {
    let mut b = BarState::new();
    assert_eq!(b.lower_line(), "");
    b.apply(OverlayEvent::Status("待機中".into()));
    assert_eq!(b.lower_line(), "待機中");
    b.apply(OverlayEvent::Partial("あ".into()));
    assert_eq!(b.lower_line(), "あ");
    assert_eq!(b.upper_line(), "");
    b.apply(OverlayEvent::Commit("確定".into()));
    assert_eq!(b.upper_line(), "確定");
    assert_eq!(b.lower_line(), "");
    b.apply(OverlayEvent::Fatal("失敗".into()));
    assert_eq!(b.lower_line(), "");
    assert_eq!(b.upper_line(), "確定");
}
