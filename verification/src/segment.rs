//! Integer core of the VAD segmenter: where utterances are cut, which
//! sample ranges are decoded, and what has been committed.
//!
//! The recording is only appended to. A voice-activity detector reads it in
//! fixed windows and reports speech segments; each committed range is
//! decoded exactly once, so trailing silence can never alter text that is
//! already final. The detector's own length cap does not hold, so a forced
//! split is applied here. The owner of the recording performs the audio
//! measurements (loudness, quietest block) and the decoding; this core
//! decides every position.

use vstd::prelude::*;

use crate::chars::copy_str;

verus! {

/// Sample rate of the recording (Hz).
pub const SAMPLE_RATE: usize = 16000;
/// Window length the detector requires at 16 kHz.
pub const VAD_WINDOW: usize = 512;
/// Ranges shorter than this (0.2 s) are not decoded.
pub const MIN_SEGMENT_SAMPLES: usize = 3200;
/// Block length (0.1 s) scanned for the quietest place of a forced split.
pub const SPLIT_HOP: usize = 1600;
/// How far back (2 s) a forced split looks for a quiet place.
pub const SPLIT_SEARCH: usize = 32000;

/// Where a committed range starts: taken back to the end of the committed
/// part when the stretch before `begin` is short and holds speech, and
/// never before the end of the committed part.
pub open spec fn commit_begin(begin: nat, committed_until: nat, max_gap: nat, gap_is_speech: bool) -> nat {
    let b = if gap_is_speech && begin > committed_until && begin - committed_until <= max_gap {
        committed_until
    } else {
        begin
    };
    if b < committed_until {
        committed_until
    } else {
        b
    }
}

/// A committed range never starts inside the committed part, and starts
/// where it was asked to or back at the end of the committed part; only a
/// short stretch of speech is ever taken back.
pub proof fn lemma_commit_begin_bounds(begin: nat, committed_until: nat, max_gap: nat, gap_is_speech: bool)
    ensures
        commit_begin(begin, committed_until, max_gap, gap_is_speech) >= committed_until,
        commit_begin(begin, committed_until, max_gap, gap_is_speech) == begin || commit_begin(
            begin,
            committed_until,
            max_gap,
            gap_is_speech,
        ) == committed_until,
        begin >= committed_until && (!gap_is_speech || begin - committed_until > max_gap)
            ==> commit_begin(begin, committed_until, max_gap, gap_is_speech) == begin,
        gap_is_speech && committed_until < begin <= committed_until + max_gap ==> commit_begin(
            begin,
            committed_until,
            max_gap,
            gap_is_speech,
        ) == committed_until,
        begin < committed_until ==> commit_begin(begin, committed_until, max_gap, gap_is_speech)
            == committed_until,
{
}

/// `later` keeps, in place, every range and text committed in `earlier`:
/// its commits start with those of `earlier`.
pub open spec fn keeps_commits(earlier: SegmentPlanner, later: SegmentPlanner) -> bool {
    &&& earlier.spec_segments().is_prefix_of(later.spec_segments())
    &&& earlier.spec_texts().is_prefix_of(later.spec_texts())
    &&& earlier.spec_recorded() <= later.spec_recorded()
}

/// Decision state of one recording session, in samples.
pub struct SegmentPlanner {
    pad_head: usize,
    pad_tail: usize,
    lookback: usize,
    max_speech: usize,
    max_leading_gap: usize,
    /// Length of the recording so far.
    recorded: usize,
    /// Samples handed to the detector.
    fed: usize,
    /// Everything before this position is committed.
    committed_until: usize,
    /// Start of the utterance in progress, if any.
    speech_start: Option<usize>,
    /// Committed ranges, as (start, length), each with its decoded text.
    log: Vec<(usize, usize, String)>,
}

pub open spec fn log_ranges(log: Seq<(usize, usize, String)>) -> Seq<(usize, usize)> {
    log.map_values(|e: (usize, usize, String)| (e.0, e.1))
}

pub open spec fn log_texts(log: Seq<(usize, usize, String)>) -> Seq<Seq<char>> {
    log.map_values(|e: (usize, usize, String)| e.2@)
}

impl SegmentPlanner {
    #[verifier::type_invariant]
    spec fn consistent(self) -> bool {
        &&& self.fed <= self.recorded
        &&& self.fed % VAD_WINDOW == 0
        &&& self.committed_until <= self.fed
        &&& self.speech_start matches Some(s) ==> s <= self.fed
        &&& forall|k: int|
            0 <= k < self.log@.len() ==> {
                let (b, l, _) = #[trigger] self.log@[k];
                b + l <= self.recorded && l >= MIN_SEGMENT_SAMPLES
            }
    }

    pub closed spec fn spec_pad_head(self) -> nat {
        self.pad_head as nat
    }

    pub closed spec fn spec_pad_tail(self) -> nat {
        self.pad_tail as nat
    }

    pub closed spec fn spec_lookback(self) -> nat {
        self.lookback as nat
    }

    pub closed spec fn spec_max_speech(self) -> nat {
        self.max_speech as nat
    }

    pub closed spec fn spec_max_leading_gap(self) -> nat {
        self.max_leading_gap as nat
    }

    pub closed spec fn spec_recorded(self) -> nat {
        self.recorded as nat
    }

    pub closed spec fn spec_fed(self) -> nat {
        self.fed as nat
    }

    pub closed spec fn spec_committed_until(self) -> nat {
        self.committed_until as nat
    }

    pub closed spec fn spec_speech_start(self) -> Option<usize> {
        self.speech_start
    }

    pub closed spec fn spec_segments(self) -> Seq<(usize, usize)> {
        log_ranges(self.log@)
    }

    /// The decoded texts of the committed ranges, in the same order.
    pub closed spec fn spec_texts(self) -> Seq<Seq<char>> {
        log_texts(self.log@)
    }

    /// Every committed range has its text, is at least
    /// `MIN_SEGMENT_SAMPLES` long and lies inside the recording.
    pub open spec fn commits_valid(self) -> bool {
        &&& self.spec_texts().len() == self.spec_segments().len()
        &&& forall|k: int|
            0 <= k < self.spec_segments().len() ==> {
                let (b, l) = #[trigger] self.spec_segments()[k];
                l >= MIN_SEGMENT_SAMPLES && b + l <= self.spec_recorded()
            }
    }

    /// The tuning, unchanged by every operation.
    pub open spec fn same_tuning(self, other: Self) -> bool {
        &&& self.spec_pad_head() == other.spec_pad_head()
        &&& self.spec_pad_tail() == other.spec_pad_tail()
        &&& self.spec_lookback() == other.spec_lookback()
        &&& self.spec_max_speech() == other.spec_max_speech()
        &&& self.spec_max_leading_gap() == other.spec_max_leading_gap()
    }

    /// A planner for an empty recording. The tuning is in samples: head and
    /// tail padding of committed ranges, look-back of the partial decode,
    /// the longest utterance before a forced split, and the longest
    /// untranscribed stretch that may be taken back into a range.
    pub fn new(
        pad_head: usize,
        pad_tail: usize,
        lookback: usize,
        max_speech: usize,
        max_leading_gap: usize,
    ) -> (p: Self)
        ensures
            p.spec_pad_head() == pad_head,
            p.spec_pad_tail() == pad_tail,
            p.spec_lookback() == lookback,
            p.spec_max_speech() == max_speech,
            p.spec_max_leading_gap() == max_leading_gap,
            p.spec_recorded() == 0,
            p.spec_fed() == 0,
            p.spec_committed_until() == 0,
            p.spec_speech_start() is None,
            p.spec_segments() == Seq::<(usize, usize)>::empty(),
            p.spec_texts() == Seq::<Seq<char>>::empty(),
            p.commits_valid(),
    {
        SegmentPlanner {
            pad_head,
            pad_tail,
            lookback,
            max_speech,
            max_leading_gap,
            recorded: 0,
            fed: 0,
            committed_until: 0,
            speech_start: None,
            log: Vec::new(),
        }
    }

    /// Length of the recording so far.
    pub fn recorded(&self) -> (n: usize)
        ensures
            n == self.spec_recorded(),
    {
        self.recorded
    }

    /// Samples handed to the detector so far.
    pub fn fed(&self) -> (n: usize)
        ensures
            n == self.spec_fed(),
    {
        self.fed
    }

    /// End of the committed part of the recording.
    pub fn committed_until(&self) -> (n: usize)
        ensures
            n == self.spec_committed_until(),
    {
        self.committed_until
    }

    /// Start of the utterance in progress, if any.
    pub fn speech_start(&self) -> (s: Option<usize>)
        ensures
            s == self.spec_speech_start(),
    {
        self.speech_start
    }

    /// Appends `n` samples to the recording.
    pub fn record(&mut self, n: usize)
        requires
            old(self).spec_recorded() + n <= usize::MAX,
        ensures
            final(self).spec_recorded() == old(self).spec_recorded() + n,
            final(self).spec_fed() == old(self).spec_fed(),
            final(self).spec_committed_until() == old(self).spec_committed_until(),
            final(self).spec_speech_start() == old(self).spec_speech_start(),
            final(self).spec_segments() == old(self).spec_segments(),
            final(self).spec_texts() == old(self).spec_texts(),
            final(self).same_tuning(*old(self)),
            keeps_commits(*old(self), *final(self)),
            final(self).commits_valid(),
    {
        proof {
            use_type_invariant(&*self);
        }
        self.recorded = self.recorded + n;
    }

    /// Start of the next detector window, when a whole window is recorded.
    pub fn next_window(&self) -> (w: Option<usize>)
        ensures
            w is Some <==> self.spec_fed() + VAD_WINDOW <= self.spec_recorded(),
            w matches Some(start) ==> start == self.spec_fed(),
    {
        proof {
            use_type_invariant(self);
        }
        if self.recorded - self.fed >= VAD_WINDOW {
            Some(self.fed)
        } else {
            None
        }
    }

    /// Records that the next window went to the detector. When no utterance
    /// is in progress and the detector now reports speech, an utterance
    /// starts one look-back before the window (or at 0).
    pub fn window_fed(&mut self, detected: bool)
        requires
            old(self).spec_fed() + VAD_WINDOW <= old(self).spec_recorded(),
        ensures
            final(self).spec_fed() == old(self).spec_fed() + VAD_WINDOW,
            final(self).spec_speech_start() == if old(self).spec_speech_start() is None && detected {
                Some(
                    if old(self).spec_fed() >= old(self).spec_lookback() {
                        (old(self).spec_fed() - old(self).spec_lookback()) as usize
                    } else {
                        0usize
                    },
                )
            } else {
                old(self).spec_speech_start()
            },
            final(self).spec_recorded() == old(self).spec_recorded(),
            final(self).spec_committed_until() == old(self).spec_committed_until(),
            final(self).spec_segments() == old(self).spec_segments(),
            final(self).spec_texts() == old(self).spec_texts(),
            final(self).same_tuning(*old(self)),
            keeps_commits(*old(self), *final(self)),
            final(self).commits_valid(),
    {
        proof {
            use_type_invariant(&*self);
        }
        let window_start = self.fed;
        self.fed = self.fed + VAD_WINDOW;
        if self.speech_start.is_none() && detected {
            let s = if window_start >= self.lookback {
                window_start - self.lookback
            } else {
                0
            };
            self.speech_start = Some(s);
        }
    }

    /// The range after a detected segment `[start, start + len)` that its
    /// tail padding would cover: from the end of speech up to `pad_tail`
    /// samples further, within the recording. The padding is only kept
    /// when that range is silent.
    pub fn tail_range(&self, start: usize, len: usize) -> (r: (usize, usize))
        requires
            start + len <= self.spec_recorded(),
        ensures
            r.0 == start + len,
            r.1 == if start + len + self.spec_pad_tail() <= self.spec_recorded() {
                start + len + self.spec_pad_tail()
            } else {
                self.spec_recorded() as int
            },
            r.0 <= r.1 <= self.spec_recorded(),
    {
        let speech_end = start + len;
        let end = if self.pad_tail <= self.recorded - speech_end {
            speech_end + self.pad_tail
        } else {
            self.recorded
        };
        (speech_end, end)
    }

    /// Start of the range decoded for a detected segment: `pad_head`
    /// samples before the detected start (or 0), to recover a word onset
    /// that the detector cut into.
    pub fn padded_begin(&self, start: usize) -> (b: usize)
        ensures
            b == if start >= self.spec_pad_head() {
                (start - self.spec_pad_head()) as usize
            } else {
                0usize
            },
    {
        if start >= self.pad_head {
            start - self.pad_head
        } else {
            0
        }
    }

    /// The untranscribed stretch before `begin` that a commit may take back
    /// when it holds speech (a late detection): present when `begin` is
    /// after the committed part and at most `max_leading_gap` after it.
    pub fn leading_gap(&self, begin: usize) -> (g: Option<(usize, usize)>)
        ensures
            g is Some <==> begin > self.spec_committed_until() && begin
                - self.spec_committed_until() <= self.spec_max_leading_gap(),
            g matches Some(r) ==> r == (self.spec_committed_until() as usize, begin),
    {
        if begin > self.committed_until && begin - self.committed_until <= self.max_leading_gap {
            Some((self.committed_until, begin))
        } else {
            None
        }
    }

    /// The range that `commit` would take for the same arguments: from
    /// `begin` as adjusted by `commit_begin` up to `end`, when it is at
    /// least `MIN_SEGMENT_SAMPLES` long.
    pub fn commit_range(&self, begin: usize, end: usize, gap_is_speech: bool) -> (r: Option<
        (usize, usize),
    >)
        ensures
            ({
                let b = commit_begin(
                    begin as nat,
                    self.spec_committed_until(),
                    self.spec_max_leading_gap(),
                    gap_is_speech,
                );
                if end >= b + MIN_SEGMENT_SAMPLES {
                    r == Some((b as usize, end))
                } else {
                    r is None
                }
            }),
            gap_is_speech && self.spec_committed_until() < begin <= self.spec_committed_until()
                + self.spec_max_leading_gap() ==> (r matches Some(p) ==> p.0 == self.spec_committed_until()),
            r matches Some((b, e)) ==> e == end && b >= self.spec_committed_until() && (b == begin
                || b == self.spec_committed_until())
                && e >= b + MIN_SEGMENT_SAMPLES,
    {
        let cu = self.committed_until;
        let mut b = begin;
        if gap_is_speech && b > cu && b - cu <= self.max_leading_gap {
            b = cu;
        }
        if b < cu {
            b = cu;
        }
        if end < b || end - b < MIN_SEGMENT_SAMPLES {
            None
        } else {
            Some((b, end))
        }
    }

    /// Commits the range that ends at `end` and starts at `begin`, as
    /// adjusted by `commit_begin` (the range `commit_range` gives), with
    /// `text` decoded from it; `speech_end` is where speech actually
    /// stopped, and becomes the lower bound of the next range.
    /// `gap_is_speech` tells whether the stretch `leading_gap(begin)` holds
    /// speech. A range shorter than `MIN_SEGMENT_SAMPLES` is not committed
    /// and changes nothing; otherwise the range is returned, and it and its
    /// text are appended to what was committed before, which stays as it was.
    pub fn commit(
        &mut self,
        begin: usize,
        end: usize,
        speech_end: usize,
        gap_is_speech: bool,
        text: String,
    ) -> (r: Option<(usize, usize)>)
        requires
            end <= old(self).spec_recorded(),
            speech_end <= old(self).spec_fed(),
        ensures
            ({
                let b = commit_begin(
                    begin as nat,
                    old(self).spec_committed_until(),
                    old(self).spec_max_leading_gap(),
                    gap_is_speech,
                );
                if end >= b + MIN_SEGMENT_SAMPLES {
                    &&& r == Some((b as usize, end))
                    &&& final(self).spec_committed_until() == speech_end
                    &&& final(self).spec_segments() == old(self).spec_segments().push(
                        (b as usize, (end - b) as usize),
                    )
                    &&& final(self).spec_texts() == old(self).spec_texts().push(text@)
                } else {
                    &&& r is None
                    &&& final(self).spec_committed_until() == old(self).spec_committed_until()
                    &&& final(self).spec_segments() == old(self).spec_segments()
                    &&& final(self).spec_texts() == old(self).spec_texts()
                }
            }),
            final(self).spec_recorded() == old(self).spec_recorded(),
            final(self).spec_fed() == old(self).spec_fed(),
            final(self).spec_speech_start() == old(self).spec_speech_start(),
            final(self).same_tuning(*old(self)),
            keeps_commits(*old(self), *final(self)),
            final(self).commits_valid(),
    {
        proof {
            use_type_invariant(&*self);
        }
        let r = self.commit_range(begin, end, gap_is_speech);
        match r {
            None => None,
            Some((b, e)) => {
                let ghost before = self.log@;
                let mut log: Vec<(usize, usize, String)> = Vec::new();
                std::mem::swap(&mut log, &mut self.log);
                log.push((b, e - b, text));
                self.committed_until = speech_end;
                self.log = log;
                assert(log_ranges(self.log@) =~= log_ranges(before).push((b, (e - b) as usize)));
                assert(log_texts(self.log@) =~= log_texts(before).push(text@));
                Some((b, e))
            },
        }
    }

    /// Ends the utterance in progress (after a detected segment, or when
    /// the recording stops).
    pub fn end_utterance(&mut self)
        ensures
            final(self).spec_speech_start() is None,
            final(self).spec_recorded() == old(self).spec_recorded(),
            final(self).spec_fed() == old(self).spec_fed(),
            final(self).spec_committed_until() == old(self).spec_committed_until(),
            final(self).spec_segments() == old(self).spec_segments(),
            final(self).spec_texts() == old(self).spec_texts(),
            final(self).same_tuning(*old(self)),
            keeps_commits(*old(self), *final(self)),
            final(self).commits_valid(),
    {
        proof {
            use_type_invariant(&*self);
        }
        self.speech_start = None;
    }

    /// The utterance in progress when it has run longer than `max_speech`
    /// without a detected end: a forced split is due, from its start.
    pub fn split_due(&self) -> (s: Option<usize>)
        ensures
            s is Some <==> (self.spec_speech_start() matches Some(st) && self.spec_fed() - st
                > self.spec_max_speech()),
            s is Some ==> s == self.spec_speech_start(),
    {
        proof {
            use_type_invariant(self);
        }
        match self.speech_start {
            Some(st) => {
                if self.fed - st > self.max_speech {
                    Some(st)
                } else {
                    None
                }
            },
            None => None,
        }
    }

    /// After a forced split, the rest of the utterance continues from the
    /// end of the committed part.
    pub fn resume_after_split(&mut self)
        ensures
            final(self).spec_speech_start() == Some(old(self).spec_committed_until() as usize),
            final(self).spec_recorded() == old(self).spec_recorded(),
            final(self).spec_fed() == old(self).spec_fed(),
            final(self).spec_committed_until() == old(self).spec_committed_until(),
            final(self).spec_segments() == old(self).spec_segments(),
            final(self).spec_texts() == old(self).spec_texts(),
            final(self).same_tuning(*old(self)),
            keeps_commits(*old(self), *final(self)),
            final(self).commits_valid(),
    {
        proof {
            use_type_invariant(&*self);
        }
        self.speech_start = Some(self.committed_until);
    }

    /// The range decoded for the partial text: from the start of the
    /// utterance in progress to the end of the recording.
    pub fn partial_range(&self) -> (r: Option<(usize, usize)>)
        ensures
            r is Some <==> self.spec_speech_start() is Some,
            r matches Some(p) ==> p.0 == self.spec_speech_start()->0 && p.1 == self.spec_recorded()
                && p.0 <= p.1,
    {
        proof {
            use_type_invariant(self);
        }
        match self.speech_start {
            Some(s) => Some((s, self.recorded)),
            None => None,
        }
    }

    /// The committed ranges, as (start, length), in commit order.
    pub fn segments(&self) -> (s: Vec<(usize, usize)>)
        ensures
            s@ == self.spec_segments(),
    {
        let mut s: Vec<(usize, usize)> = Vec::new();
        let mut i: usize = 0;
        while i < self.log.len()
            invariant
                i <= self.log@.len(),
                s@ == log_ranges(self.log@.take(i as int)),
            decreases self.log@.len() - i,
        {
            let ghost before = s@;
            let (b, l, _) = &self.log[i];
            s.push((*b, *l));
            assert(self.log@.take(i + 1).drop_last() =~= self.log@.take(i as int));
            assert(log_ranges(self.log@.take(i + 1)) =~= before.push((*b, *l)));
            i = i + 1;
        }
        assert(self.log@.take(self.log@.len() as int) =~= self.log@);
        s
    }

    /// The decoded texts of the committed ranges, in commit order.
    pub fn texts(&self) -> (t: Vec<String>)
        ensures
            t@.map_values(|x: String| x@) == self.spec_texts(),
    {
        let mut t: Vec<String> = Vec::new();
        let mut i: usize = 0;
        while i < self.log.len()
            invariant
                i <= self.log@.len(),
                t@.map_values(|x: String| x@) == log_texts(self.log@.take(i as int)),
            decreases self.log@.len() - i,
        {
            let ghost before = t@.map_values(|x: String| x@);
            let c = copy_str(self.log[i].2.as_str());
            t.push(c);
            assert(self.log@.take(i + 1).drop_last() =~= self.log@.take(i as int));
            assert(t@.map_values(|x: String| x@) =~= before.push(self.log@[i as int].2@));
            assert(log_texts(self.log@.take(i + 1)) =~= log_texts(self.log@.take(i as int)).push(
                self.log@[i as int].2@,
            ));
            i = i + 1;
        }
        assert(self.log@.take(self.log@.len() as int) =~= self.log@);
        t
    }
}

proof fn lemma_keeps_commits_trans(a: SegmentPlanner, b: SegmentPlanner, c: SegmentPlanner)
    requires
        keeps_commits(a, b),
        keeps_commits(b, c),
    ensures
        keeps_commits(a, c),
{
    let n = a.spec_segments().len() as int;
    let m = a.spec_texts().len() as int;
    assert(c.spec_segments().subrange(0, n) =~= c.spec_segments().subrange(
        0,
        b.spec_segments().len() as int,
    ).subrange(0, n));
    assert(c.spec_texts().subrange(0, m) =~= c.spec_texts().subrange(
        0,
        b.spec_texts().len() as int,
    ).subrange(0, m));
}

/// Over any run of planner operations (each of which keeps the commits
/// before it, as their `ensures` state), everything committed first stays
/// committed, in place and with its text, and the recording only grows:
/// committed text is decoded once and never changes.
pub proof fn lemma_commits_kept(states: Seq<SegmentPlanner>)
    requires
        states.len() > 0,
        forall|i: int| 0 <= i < states.len() - 1 ==> keeps_commits(#[trigger] states[i], states[i + 1]),
    ensures
        keeps_commits(states[0], states.last()),
    decreases states.len(),
{
    let a = states[0];
    if states.len() > 1 {
        let p = states.drop_last();
        assert forall|i: int| 0 <= i < p.len() - 1 implies keeps_commits(#[trigger] p[i], p[i + 1]) by {
            assert(p[i] == states[i] && p[i + 1] == states[i + 1]);
        }
        lemma_commits_kept(p);
        assert(keeps_commits(states[states.len() - 2], states[states.len() - 1]));
        lemma_keeps_commits_trans(states[0], p.last(), states.last());
    }
}

/// Window searched for the quietest place of a forced split of the
/// utterance starting at `begin`, cut at `limit`: the last `SPLIT_SEARCH`
/// samples before `limit`, not before `begin`. `None` when that window is
/// shorter than two blocks: the split is then at `limit` itself.
pub fn split_window(begin: usize, limit: usize) -> (w: Option<(usize, usize)>)
    requires
        begin <= limit,
    ensures
        ({
            let ws = if limit >= begin + SPLIT_SEARCH {
                limit - SPLIT_SEARCH
            } else {
                begin as int
            };
            &&& w is Some <==> limit - ws >= 2 * SPLIT_HOP
            &&& w matches Some(r) ==> r.0 == ws && r.1 == limit
        }),
{
    let ws = if limit - begin >= SPLIT_SEARCH {
        limit - SPLIT_SEARCH
    } else {
        begin
    };
    if limit - ws < 2 * SPLIT_HOP {
        None
    } else {
        Some((ws, limit))
    }
}

/// The forced split position: the middle of the quietest block, which
/// starts `quietest` samples into the window `[window_start, window_end)`.
pub fn split_position(window_start: usize, window_end: usize, quietest: usize) -> (p: usize)
    requires
        window_start <= window_end,
        quietest + SPLIT_HOP < window_end - window_start,
    ensures
        p == window_start + quietest + SPLIT_HOP / 2,
        window_start < p < window_end,
{
    window_start + quietest + SPLIT_HOP / 2
}

} // verus!
