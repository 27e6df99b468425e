use kikitori::segment::{
    split_position, split_window, SegmentPlanner, MIN_SEGMENT_SAMPLES, SPLIT_HOP, SPLIT_SEARCH,
    VAD_WINDOW,
};

fn planner() -> SegmentPlanner {
    // 0.3 s head padding, 0.8 s tail padding, 1 s look-back,
    // 25 s longest utterance, 3 s longest leading gap
    SegmentPlanner::new(4800, 12800, 16000, 400000, 48000)
}

fn feed_all(p: &mut SegmentPlanner) {
    while p.next_window().is_some() {
        p.window_fed(false);
    }
}

#[test]
fn windows_follow_the_recording() {
    let mut p = planner();
    assert_eq!(p.next_window(), None);
    p.record(1000);
    assert_eq!(p.next_window(), Some(0));
    p.window_fed(false);
    assert_eq!(p.next_window(), None);
    p.record(24);
    assert_eq!(p.next_window(), Some(VAD_WINDOW));
    assert_eq!(p.recorded(), 1024);
}

#[test]
fn detection_starts_an_utterance_one_lookback_earlier() {
    let mut p = SegmentPlanner::new(0, 0, 1000, 400000, 0);
    p.record(4096);
    for _ in 0..3 {
        p.window_fed(false);
    }
    assert_eq!(p.speech_start(), None);
    p.window_fed(true);
    // the window started at 1536, so the utterance starts at 536
    assert_eq!(p.speech_start(), Some(536));
    // a later detection does not move the start
    p.window_fed(true);
    assert_eq!(p.speech_start(), Some(536));
}

#[test]
fn early_detection_starts_at_zero() {
    let mut p = planner();
    p.record(600);
    p.window_fed(true);
    assert_eq!(p.speech_start(), Some(0));
}

#[test]
fn commits_and_their_ranges() {
    let mut p = planner();
    p.record(64000);
    feed_all(&mut p);
    assert_eq!(p.commit(1000, 5000, 4000, false, String::new()), Some((1000, 5000)));
    assert_eq!(p.committed_until(), 4000);
    // too short: nothing changes
    assert_eq!(p.commit(4100, 6000, 5500, false, String::new()), None);
    assert_eq!(p.committed_until(), 4000);
    // a short stretch of speech before the range is taken back
    assert_eq!(p.commit(5000, 9000, 8000, true, String::new()), Some((4000, 9000)));
    // a range never starts inside the committed part
    assert_eq!(p.commit(100, 20000, 12000, false, String::new()), Some((8000, 20000)));
    assert_eq!(p.segments(), vec![(1000, 4000), (4000, 5000), (8000, 12000)]);
}

#[test]
fn long_gaps_are_not_taken_back() {
    let mut p = planner();
    p.record(200000);
    feed_all(&mut p);
    assert_eq!(p.commit(60000, 70000, 65000, true, String::new()), Some((60000, 70000)));
}

#[test]
fn minimum_length_is_inclusive() {
    let mut p = planner();
    p.record(20000);
    feed_all(&mut p);
    assert_eq!(
        p.commit(100, 100 + MIN_SEGMENT_SAMPLES, 100, false, String::new()),
        Some((100, 100 + MIN_SEGMENT_SAMPLES))
    );
    assert_eq!(p.commit(200, 199 + MIN_SEGMENT_SAMPLES, 150, false, String::new()), None);
}

#[test]
fn padding_ranges() {
    let mut p = planner();
    p.record(30000);
    assert_eq!(p.tail_range(1000, 2000), (3000, 15800));
    assert_eq!(p.tail_range(20000, 5000), (25000, 30000));
    assert_eq!(p.padded_begin(10000), 5200);
    assert_eq!(p.padded_begin(100), 0);
}

#[test]
fn leading_gap_bounds() {
    let mut p = planner();
    p.record(64000);
    feed_all(&mut p);
    assert_eq!(p.leading_gap(0), None);
    assert_eq!(p.leading_gap(48000), Some((0, 48000)));
    assert_eq!(p.leading_gap(48001), None);
}

#[test]
fn forced_split_and_resume() {
    let mut p = SegmentPlanner::new(0, 0, 0, 1000, 0);
    p.record(4096);
    p.window_fed(true);
    assert_eq!(p.speech_start(), Some(0));
    assert_eq!(p.split_due(), None);
    p.window_fed(false);
    // 1024 samples since the start > 1000
    assert_eq!(p.split_due(), Some(0));
    assert_eq!(split_window(0, 1024), None);
    assert_eq!(p.commit(0, 1024, 1024, false, String::new()), None);
    p.resume_after_split();
    assert_eq!(p.speech_start(), Some(0));
    assert_eq!(p.partial_range(), Some((0, 4096)));
    p.end_utterance();
    assert_eq!(p.speech_start(), None);
    assert_eq!(p.partial_range(), None);
}

#[test]
fn split_window_and_position() {
    assert_eq!(split_window(0, 40000), Some((40000 - SPLIT_SEARCH, 40000)));
    assert_eq!(split_window(1000, 3000), None);
    assert_eq!(split_window(1000, 1000 + 2 * SPLIT_HOP), Some((1000, 4200)));
    assert_eq!(split_position(8000, 40000, 1600), 10400);
}

#[test]
fn texts_pair_with_ranges() {
    let mut p = planner();
    p.record(64000);
    feed_all(&mut p);
    assert_eq!(p.commit_range(1000, 5000, false), Some((1000, 5000)));
    assert_eq!(p.commit(1000, 5000, 4000, false, "一つ目".into()), Some((1000, 5000)));
    // a range too short keeps neither range nor text
    assert_eq!(p.commit_range(4100, 6000, false), None);
    assert_eq!(p.commit(4100, 6000, 5500, false, "捨てる".into()), None);
    assert_eq!(p.commit_range(5000, 9000, true), Some((4000, 9000)));
    assert_eq!(p.commit(5000, 9000, 8000, true, "二つ目".into()), Some((4000, 9000)));
    assert_eq!(p.texts(), vec!["一つ目".to_owned(), "二つ目".to_owned()]);
    assert_eq!(p.segments(), vec![(1000, 4000), (4000, 5000)]);
}

#[test]
fn earlier_commits_stay_over_a_run() {
    let mut p = planner();
    p.record(40000);
    feed_all(&mut p);
    p.commit(1000, 6000, 5000, false, "a".into());
    let before_ranges = p.segments();
    let before_texts = p.texts();
    p.record(40000);
    feed_all(&mut p);
    p.end_utterance();
    p.commit(30000, 40000, 39000, false, "b".into());
    p.resume_after_split();
    assert_eq!(&p.segments()[..1], &before_ranges[..]);
    assert_eq!(&p.texts()[..1], &before_texts[..]);
    for (b, l) in p.segments() {
        assert!(l >= MIN_SEGMENT_SAMPLES && b + l <= p.recorded());
    }
}
