//! State of the overlay box of the spawned client: what it shows and how
//! tall it must be. The GUI toolkit renders it and applies the size
//! changes decided here.

use vstd::prelude::*;

use crate::chars::chars_of;
use crate::overlay::{bar_height, est_rows, est_text_width, height_for, rows_for, text_width, MAX_ROWS, PADDING_H};
use crate::session::last_n;

verus! {

/// The box is a quarter of the screen wide.
pub const BOX_WIDTH_DIV: u32 = 4;

/// What the engine pipeline reports to the box.
pub enum OverlayEvent {
    /// Status line shown before any text (for instance "recording").
    Status(String),
    /// The partial text of the utterance in progress.
    Partial(String),
    /// A committed text.
    Commit(String),
    /// An unrecoverable failure, shown instead of everything else.
    Fatal(String),
}

pub open spec fn event_text(e: OverlayEvent) -> Seq<char> {
    match e {
        OverlayEvent::Status(s) => s@,
        OverlayEvent::Partial(s) => s@,
        OverlayEvent::Commit(s) => s@,
        OverlayEvent::Fatal(s) => s@,
    }
}

/// Sum of the row counts of the texts.
pub open spec fn rows_sum(ts: Seq<Seq<char>>, usable: nat) -> nat
    decreases ts.len(),
{
    if ts.len() == 0 {
        0
    } else {
        rows_sum(ts.drop_last(), usable) + rows_for(text_width(ts.last()), usable)
    }
}

/// The rows of several texts are the rows of each, added up.
pub proof fn lemma_rows_sum_concat(a: Seq<Seq<char>>, b: Seq<Seq<char>>, usable: nat)
    ensures
        rows_sum(a + b, usable) == rows_sum(a, usable) + rows_sum(b, usable),
    decreases b.len(),
{
    if b.len() == 0 {
        assert(a + b =~= a);
    } else {
        lemma_rows_sum_concat(a, b.drop_last(), usable);
        assert((a + b).drop_last() =~= a + b.drop_last());
        assert((a + b).last() == b.last());
    }
}

/// A single text takes the fewest rows of `usable` pixels that hold its
/// estimated width, and at least one: a text wider than the text area
/// wraps onto more rows.
pub proof fn lemma_rows_of_one(t: Seq<char>, usable: nat)
    requires
        usable > 0,
    ensures
        rows_sum(seq![t], usable) >= 1,
        rows_sum(seq![t], usable) * usable >= text_width(t),
        rows_sum(seq![t], usable) > 1 ==> (rows_sum(seq![t], usable) - 1) * usable < text_width(t),
        text_width(t) > usable ==> rows_sum(seq![t], usable) > 1,
{
    assert(seq![t].drop_last() =~= Seq::<Seq<char>>::empty());
    assert(seq![t].last() == t);
    assert(rows_sum(Seq::<Seq<char>>::empty(), usable) == 0);
    assert(rows_sum(seq![t], usable) == rows_sum(seq![t].drop_last(), usable) + rows_for(
        text_width(seq![t].last()),
        usable,
    ));
    assert(rows_sum(seq![t], usable) == rows_for(text_width(t), usable));
    crate::overlay::lemma_rows_cover(text_width(t), usable);
    let r = rows_for(text_width(t), usable);
    if text_width(t) > usable && r == 1 {
        assert(r * usable == usable) by (nonlinear_arith)
            requires
                r == 1,
        ;
    }
}

/// Rows shown: the failure alone if there is one; otherwise the commits
/// and, below them, the partial text (the status while nothing else is
/// there).
pub open spec fn visible_rows_of(
    error: Option<Seq<char>>,
    status: Seq<char>,
    partial: Seq<char>,
    commits: Seq<Seq<char>>,
    usable: nat,
) -> nat {
    match error {
        Some(e) => rows_for(text_width(e), usable),
        None => {
            let current = if partial.len() == 0 && commits.len() == 0 {
                status
            } else {
                partial
            };
            rows_sum(commits, usable) + rows_for(text_width(current), usable)
        },
    }
}

/// Text width available in a box of the given width: the horizontal
/// padding removed, at least one pixel.
pub open spec fn usable_width(box_width: nat) -> nat {
    if box_width >= 2 * PADDING_H + 1 {
        (box_width - 2 * PADDING_H) as nat
    } else {
        1
    }
}

/// Text width of a box of width `box_width`, as computed.
fn usable_of(box_width: u32) -> (u: u32)
    ensures
        u == usable_width(box_width as nat),
        u >= 1,
{
    if box_width >= 2 * PADDING_H + 1 {
        box_width - 2 * PADDING_H
    } else {
        1
    }
}

/// Text area of the box on a screen `w` pixels wide.
pub open spec fn box_usable(w: u32) -> nat {
    usable_width((w / BOX_WIDTH_DIV) as nat)
}

/// The estimated width of `s` (see `text_width`), when it fits in 32 bits.
pub fn text_width_u32(s: &str) -> (w: Option<u32>)
    ensures
        match w {
            Some(v) => v == text_width(s@),
            None => text_width(s@) > u32::MAX,
        },
{
    let cs = chars_of(s);
    let mut w: u64 = 0;
    let mut i: usize = 0;
    while i < cs.len()
        invariant
            i <= cs@.len(),
            cs@ == s@,
            w == text_width(cs@.take(i as int)),
            w <= u32::MAX,
        decreases cs@.len() - i,
    {
        assert(cs@.take(i + 1).drop_last() == cs@.take(i as int));
        if (cs[i] as u32) < 128 {
            w = w + 10;
        } else {
            w = w + 20;
        }
        i = i + 1;
        if w > 4294967295 {
            proof {
                crate::overlay::lemma_text_width_prefix(cs@, i as int);
            }
            return None;
        }
    }
    assert(cs@.take(cs@.len() as int) == cs@);
    Some(w as u32)
}

/// Rows of a text of estimated width `w` in a text area `usable` wide.
fn rows_of_width(w: u32, usable: u32) -> (r: u64)
    requires
        usable >= 1,
    ensures
        r == rows_for(w as nat, usable as nat),
        r <= u32::MAX,
{
    proof {
        lemma_rows_bound(w as nat, usable as nat);
    }
    let q = (w / usable) as u64;
    let q = q + if w % usable == 0 {
        0
    } else {
        1
    };
    if q == 0 {
        1
    } else {
        q
    }
}

proof fn lemma_rows_bound(w: nat, usable: nat)
    requires
        usable >= 1,
        w <= u32::MAX,
    ensures
        1 <= rows_for(w, usable) <= u32::MAX,
{
    assert(w / usable <= w) by (nonlinear_arith)
        requires
            usable >= 1,
    ;
    assert(w % usable != 0 ==> w / usable < w) by (nonlinear_arith)
        requires
            usable >= 1,
    ;
}

proof fn lemma_rows_sum_bound(ts: Seq<Seq<char>>, usable: nat)
    requires
        usable >= 1,
        forall|k: int| 0 <= k < ts.len() ==> text_width(#[trigger] ts[k]) <= u32::MAX,
    ensures
        rows_sum(ts, usable) <= ts.len() * u32::MAX,
    decreases ts.len(),
{
    if ts.len() > 0 {
        assert forall|k: int| 0 <= k < ts.drop_last().len() implies text_width(
            #[trigger] ts.drop_last()[k],
        ) <= u32::MAX by {
            assert(ts.drop_last()[k] == ts[k]);
        }
        lemma_rows_sum_bound(ts.drop_last(), usable);
        lemma_rows_bound(text_width(ts.last()), usable);
        assert(ts.len() * u32::MAX == (ts.len() - 1) * u32::MAX + u32::MAX) by (nonlinear_arith);
    }
}

/// The rows of the first texts are no more than those of all of them.
proof fn lemma_rows_sum_prefix(ts: Seq<Seq<char>>, n: int, usable: nat)
    requires
        0 <= n <= ts.len(),
    ensures
        rows_sum(ts.take(n), usable) <= rows_sum(ts, usable),
    decreases ts.len() - n,
{
    if n < ts.len() {
        lemma_rows_sum_prefix(ts, n + 1, usable);
        assert(ts.take(n + 1).drop_last() == ts.take(n));
    } else {
        assert(ts.take(n) == ts);
    }
}

/// What the overlay box shows, and the size it was last given.
pub struct OverlayState {
    status: String,
    commits: Vec<String>,
    partial: String,
    screen_width: Option<u32>,
    last_height: u32,
    error: Option<String>,
}

pub open spec fn opt_text(o: Option<String>) -> Option<Seq<char>> {
    match o {
        Some(s) => Some(s@),
        None => None,
    }
}

/// The content after an event: the status, the partial text, the
/// commits (a commit also clears the partial text; only the last
/// `MAX_ROWS` are kept) or the failure.
pub open spec fn content_after(o: OverlayState, f: OverlayState, event: OverlayEvent) -> bool {
    match event {
        OverlayEvent::Status(t) => {
            &&& f.spec_status() == t@
            &&& f.spec_partial() == o.spec_partial()
            &&& f.spec_commits() == o.spec_commits()
            &&& f.spec_error() == o.spec_error()
        },
        OverlayEvent::Partial(t) => {
            &&& f.spec_partial() == t@
            &&& f.spec_status() == o.spec_status()
            &&& f.spec_commits() == o.spec_commits()
            &&& f.spec_error() == o.spec_error()
        },
        OverlayEvent::Commit(t) => {
            &&& f.spec_commits() == last_n(o.spec_commits().push(t@), MAX_ROWS as nat)
            &&& f.spec_partial().len() == 0
            &&& f.spec_status() == o.spec_status()
            &&& f.spec_error() == o.spec_error()
        },
        OverlayEvent::Fatal(t) => {
            &&& f.spec_error() == Some(t@)
            &&& f.spec_status() == o.spec_status()
            &&& f.spec_partial() == o.spec_partial()
            &&& f.spec_commits() == o.spec_commits()
        },
    }
}

/// The content after an event, as (failure, status, partial text,
/// commits): see `content_after`.
pub open spec fn content_of_event(o: OverlayState, e: OverlayEvent) -> (
    Option<Seq<char>>,
    Seq<char>,
    Seq<char>,
    Seq<Seq<char>>,
) {
    match e {
        OverlayEvent::Status(t) => (o.spec_error(), t@, o.spec_partial(), o.spec_commits()),
        OverlayEvent::Partial(t) => (o.spec_error(), o.spec_status(), t@, o.spec_commits()),
        OverlayEvent::Commit(t) => (
            o.spec_error(),
            o.spec_status(),
            Seq::empty(),
            last_n(o.spec_commits().push(t@), MAX_ROWS as nat),
        ),
        OverlayEvent::Fatal(t) => (Some(t@), o.spec_status(), o.spec_partial(), o.spec_commits()),
    }
}

/// Rows shown after an event, in a text area `usable` pixels wide.
pub open spec fn rows_after(o: OverlayState, e: OverlayEvent, usable: nat) -> nat {
    let c = content_of_event(o, e);
    visible_rows_of(c.0, c.1, c.2, c.3, usable)
}

/// Whether the box can take the event: the estimated width of its text
/// fits in 32 bits and, once the screen width is known, so does the
/// number of rows shown after it (the estimates are `u32`).
pub open spec fn accepts_spec(o: OverlayState, e: OverlayEvent) -> bool {
    &&& text_width(event_text(e)) <= u32::MAX
    &&& o.spec_screen_width() matches Some(w) ==> rows_after(o, e, box_usable(w)) <= u32::MAX
}

/// The first surface size wider than one pixel sets the screen width and
/// the box size; anything else changes nothing.
pub open spec fn width_learned(o: OverlayState, f: OverlayState, w: u32, r: Option<(u32, u32)>) -> bool {
    if o.spec_screen_width() is None && w > 1 {
        let d = o.spec_box_for(w);
        &&& r == Some(d)
        &&& f.spec_screen_width() == Some(w)
        &&& f.spec_last_height() == d.1
    } else {
        &&& r is None
        &&& f.spec_screen_width() == o.spec_screen_width()
        &&& f.spec_last_height() == o.spec_last_height()
    }
}

impl OverlayState {
    #[verifier::type_invariant]
    spec fn within_limits(self) -> bool {
        &&& self.commits@.len() <= MAX_ROWS
        &&& text_width(self.status@) <= u32::MAX
        &&& text_width(self.partial@) <= u32::MAX
        &&& forall|k: int|
            0 <= k < self.commits@.len() ==> text_width(#[trigger] self.commits@[k]@) <= u32::MAX
        &&& self.error matches Some(e) ==> text_width(e@) <= u32::MAX
        &&& self.screen_width matches Some(w) ==> self.spec_visible_rows(box_usable(w)) <= u32::MAX
    }

    pub closed spec fn spec_status(self) -> Seq<char> {
        self.status@
    }

    pub closed spec fn spec_partial(self) -> Seq<char> {
        self.partial@
    }

    /// Committed texts still shown (at most `MAX_ROWS`, the latest last).
    pub closed spec fn spec_commits(self) -> Seq<Seq<char>> {
        self.commits@.map_values(|c: String| c@)
    }

    pub closed spec fn spec_error(self) -> Option<Seq<char>> {
        opt_text(self.error)
    }

    pub closed spec fn spec_screen_width(self) -> Option<u32> {
        self.screen_width
    }

    pub closed spec fn spec_last_height(self) -> u32 {
        self.last_height
    }

    /// Rows shown in a box whose text area is `usable` pixels wide.
    pub open spec fn spec_visible_rows(self, usable: nat) -> nat {
        visible_rows_of(
            self.spec_error(),
            self.spec_status(),
            self.spec_partial(),
            self.spec_commits(),
            usable,
        )
    }

    /// Without a failure, the rows shown are those of the commits and of
    /// the line below them (the partial text, or the status while there is
    /// neither a commit nor a partial text), each wrapped on its own.
    pub proof fn lemma_visible_rows_split(self, usable: nat)
        requires
            self.spec_error() is None,
        ensures
            self.spec_visible_rows(usable) == rows_sum(
                self.spec_commits().push(
                    if self.spec_partial().len() == 0 && self.spec_commits().len() == 0 {
                        self.spec_status()
                    } else {
                        self.spec_partial()
                    },
                ),
                usable,
            ),
    {
        let cur = if self.spec_partial().len() == 0 && self.spec_commits().len() == 0 {
            self.spec_status()
        } else {
            self.spec_partial()
        };
        assert(self.spec_commits().push(cur).drop_last() =~= self.spec_commits());
    }

    /// An empty box whose screen width is not known yet.
    pub fn new() -> (s: Self)
        ensures
            s.spec_status().len() == 0,
            s.spec_partial().len() == 0,
            s.spec_commits().len() == 0,
            s.spec_error() is None,
            s.spec_screen_width() is None,
            s.spec_last_height() == 0,
    {
        let s = OverlayState {
            status: String::new(),
            commits: Vec::new(),
            partial: String::new(),
            screen_width: None,
            last_height: 0,
            error: None,
        };
        assert(s.commits@.map_values(|c: String| c@).len() == 0);
        s
    }

    /// Estimated rows shown (wrapping included) in a text area `usable`
    /// pixels wide, when that number fits in 32 bits.
    pub fn visible_rows(&self, usable: u32) -> (r: u32)
        requires
            usable >= 1,
            self.spec_visible_rows(usable as nat) <= u32::MAX,
        ensures
            r == self.spec_visible_rows(usable as nat),
    {
        proof {
            use_type_invariant(self);
        }
        if let Some(err) = &self.error {
            return est_rows(err.as_str(), usable);
        }
        let current = if self.partial.as_str().is_empty() && self.commits.len() == 0 {
            &self.status
        } else {
            &self.partial
        };
        let ghost cv = self.spec_commits();
        let ghost total = self.spec_visible_rows(usable as nat);
        let mut sum: u32 = 0;
        let mut i: usize = 0;
        assert(cv.take(0) =~= Seq::<Seq<char>>::empty());
        proof {
            lemma_rows_bound(text_width(current@), usable as nat);
        }
        while i < self.commits.len()
            invariant
                i <= self.commits@.len() <= MAX_ROWS,
                usable >= 1,
                cv == self.commits@.map_values(|c: String| c@),
                forall|k: int|
                    0 <= k < self.commits@.len() ==> text_width(#[trigger] self.commits@[k]@)
                        <= u32::MAX,
                rows_sum(cv, usable as nat) + rows_for(text_width(current@), usable as nat)
                    == total,
                total <= u32::MAX,
                sum == rows_sum(cv.take(i as int), usable as nat),
            decreases self.commits@.len() - i,
        {
            proof {
                assert(cv.take(i + 1).drop_last() == cv.take(i as int));
                assert(cv.take(i + 1).last() == self.commits@[i as int]@);
                lemma_rows_sum_prefix(cv, i + 1, usable as nat);
            }
            let r = est_rows(self.commits[i].as_str(), usable);
            sum = sum + r;
            i = i + 1;
        }
        assert(cv.take(self.commits@.len() as int) == cv);
        sum + est_rows(current.as_str(), usable)
    }

    /// Rows of the commits from the `from`-th on.
    fn commits_rows(&self, from: usize, usable: u32) -> (r: u64)
        requires
            from <= self.spec_commits().len(),
            usable >= 1,
        ensures
            r == rows_sum(self.spec_commits().skip(from as int), usable as nat),
            r <= 9 * u32::MAX,
    {
        proof {
            use_type_invariant(self);
        }
        let ghost cv = self.spec_commits();
        let mut acc: u64 = 0;
        let mut i: usize = from;
        assert(cv.subrange(from as int, from as int) =~= Seq::<Seq<char>>::empty());
        while i < self.commits.len()
            invariant
                from <= i <= self.commits@.len() <= MAX_ROWS,
                usable >= 1,
                cv == self.commits@.map_values(|c: String| c@),
                forall|k: int|
                    0 <= k < self.commits@.len() ==> text_width(#[trigger] self.commits@[k]@)
                        <= u32::MAX,
                acc == rows_sum(cv.subrange(from as int, i as int), usable as nat),
                acc <= 9 * u32::MAX,
            decreases self.commits@.len() - i,
        {
            let ghost next = cv.subrange(from as int, i + 1);
            proof {
                assert(next.drop_last() =~= cv.subrange(from as int, i as int));
                assert(next.last() == self.commits@[i as int]@);
                assert forall|k: int| 0 <= k < next.len() implies text_width(#[trigger] next[k])
                    <= u32::MAX by {
                    assert(next[k] == self.commits@[from + k]@);
                }
                lemma_rows_sum_bound(next, usable as nat);
                assert(next.len() * u32::MAX <= 9 * u32::MAX) by (nonlinear_arith)
                    requires
                        next.len() <= 9,
                ;
            }
            let r = est_rows(self.commits[i].as_str(), usable);
            acc = acc + r as u64;
            i = i + 1;
        }
        assert(cv.subrange(from as int, cv.len() as int) =~= cv.skip(from as int));
        acc
    }

    /// Rows shown in a text area `usable` pixels wide, counted in 64 bits.
    fn rows_total(&self, usable: u32) -> (r: u64)
        requires
            usable >= 1,
        ensures
            r == self.spec_visible_rows(usable as nat),
    {
        proof {
            use_type_invariant(self);
        }
        if let Some(err) = &self.error {
            return est_rows(err.as_str(), usable) as u64;
        }
        let current = if self.partial.as_str().is_empty() && self.commits.len() == 0 {
            &self.status
        } else {
            &self.partial
        };
        assert(self.spec_commits().skip(0) =~= self.spec_commits());
        self.commits_rows(0, usable) + est_rows(current.as_str(), usable) as u64
    }

    /// Whether the box can take a surface width of `w` pixels (see
    /// `surface_width`): when that width is learned as the screen width,
    /// the rows the box then shows are counted in 32 bits.
    pub fn accepts_width(&self, w: u32) -> (b: bool)
        ensures
            b == (self.spec_screen_width() is None && w > 1 ==> self.spec_visible_rows(
                box_usable(w),
            ) <= u32::MAX),
    {
        if self.screen_width.is_some() || w <= 1 {
            return true;
        }
        let usable = usable_of(w / BOX_WIDTH_DIV);
        self.rows_total(usable) <= 4294967295
    }

    /// Whether the box can take `event` (see `accepts_spec`).
    pub fn accepts(&self, event: &OverlayEvent) -> (b: bool)
        ensures
            b == accepts_spec(*self, *event),
    {
        proof {
            use_type_invariant(self);
        }
        let text = match event {
            OverlayEvent::Status(t) => t.as_str(),
            OverlayEvent::Partial(t) => t.as_str(),
            OverlayEvent::Commit(t) => t.as_str(),
            OverlayEvent::Fatal(t) => t.as_str(),
        };
        let tw = match text_width_u32(text) {
            Some(v) => v,
            None => return false,
        };
        let sw = match self.screen_width {
            Some(sw) => sw,
            None => return true,
        };
        let usable = usable_of(sw / BOX_WIDTH_DIV);
        let ghost u = box_usable(sw);
        let ghost cv = self.spec_commits();
        assert(cv.skip(0) =~= cv);
        let rows: u64 = match event {
            OverlayEvent::Fatal(_) => rows_of_width(tw, usable),
            _ => match &self.error {
                Some(e) => est_rows(e.as_str(), usable) as u64,
                None => match event {
                    OverlayEvent::Status(t) => {
                        let cur = if self.partial.as_str().is_empty() && self.commits.len() == 0 {
                            tw
                        } else {
                            est_text_width(self.partial.as_str())
                        };
                        self.commits_rows(0, usable) + rows_of_width(cur, usable)
                    },
                    OverlayEvent::Partial(t) => {
                        let cur = if t.as_str().is_empty() && self.commits.len() == 0 {
                            est_text_width(self.status.as_str())
                        } else {
                            tw
                        };
                        self.commits_rows(0, usable) + rows_of_width(cur, usable)
                    },
                    _ => {
                        // the kept commits, the new one, and the emptied partial line
                        let from: usize = if self.commits.len() >= MAX_ROWS as usize {
                            1
                        } else {
                            0
                        };
                        proof {
                            let kept = cv.skip(from as int);
                            let after = last_n(cv.push(text@), MAX_ROWS as nat);
                            assert(after =~= kept.push(text@));
                            assert(after.push(text@).len() > 0);
                            assert(after.drop_last() =~= kept);
                        }
                        self.commits_rows(from, usable) + rows_of_width(tw, usable) + 1
                    },
                },
            },
        };
        rows <= 4294967295
    }

    /// The failure to show, if there is one.
    pub fn error(&self) -> (e: Option<&str>)
        ensures
            match e {
                Some(t) => self.spec_error() == Some(t@),
                None => self.spec_error() is None,
            },
    {
        match &self.error {
            Some(t) => Some(t.as_str()),
            None => None,
        }
    }

    /// The committed texts shown, oldest first.
    pub fn commits(&self) -> (c: &[String])
        ensures
            c@.map_values(|t: String| t@) == self.spec_commits(),
    {
        self.commits.as_slice()
    }

    /// Whether the line below the commits is the status line (shown
    /// dimmed): there is neither a commit nor a partial text.
    pub fn shows_status(&self) -> (b: bool)
        ensures
            b == (self.spec_partial().len() == 0 && self.spec_commits().len() == 0),
    {
        self.partial.as_str().is_empty() && self.commits.len() == 0
    }

    /// The line below the commits: the status while there is neither a
    /// commit nor a partial text, otherwise the partial text.
    pub fn current_line(&self) -> (l: &str)
        ensures
            l@ == if self.spec_partial().len() == 0 && self.spec_commits().len() == 0 {
                self.spec_status()
            } else {
                self.spec_partial()
            },
    {
        if self.partial.as_str().is_empty() && self.commits.len() == 0 {
            self.status.as_str()
        } else {
            self.partial.as_str()
        }
    }

    /// Width and height of the box for a screen `w` pixels wide.
    pub open spec fn spec_box_for(self, w: u32) -> (u32, u32) {
        let width = w / BOX_WIDTH_DIV;
        (width, height_for(self.spec_visible_rows(usable_width(width as nat))) as u32)
    }

    fn box_for(&self, w: u32) -> (d: (u32, u32))
        requires
            self.spec_visible_rows(box_usable(w)) <= u32::MAX,
        ensures
            d == self.spec_box_for(w),
    {
        let width = w / BOX_WIDTH_DIV;
        let usable = usable_of(width);
        (width, bar_height(self.visible_rows(usable)))
    }

    /// Takes an engine event into account and returns the size change it
    /// calls for (see `resize_to_fit`). A commit replaces the partial
    /// text; only the last `MAX_ROWS` commits are kept, as no more can be
    /// shown.
    pub fn apply(&mut self, event: OverlayEvent) -> (r: Option<(u32, u32)>)
        requires
            accepts_spec(*old(self), event),
        ensures
            content_after(*old(self), *final(self), event),
            final(self).spec_screen_width() == old(self).spec_screen_width(),
            match final(self).spec_screen_width() {
                None => r is None && final(self).spec_last_height() == old(self).spec_last_height(),
                Some(w) => {
                    let d = final(self).spec_box_for(w);
                    if d.1 == old(self).spec_last_height() {
                        r is None && final(self).spec_last_height() == old(self).spec_last_height()
                    } else {
                        r == Some(d) && final(self).spec_last_height() == d.1
                    }
                },
            },
    {
        proof {
            use_type_invariant(&*self);
        }
        match event {
            OverlayEvent::Status(t) => {
                self.status = t;
            },
            OverlayEvent::Partial(t) => {
                self.partial = t;
            },
            OverlayEvent::Commit(t) => {
                let ghost before = self.spec_commits();
                proof {
                    lemma_rows_bound(text_width(self.status@), 1);
                    lemma_rows_bound(text_width(self.partial@), 1);
                    if self.error is Some {
                        lemma_rows_bound(text_width(self.error->0@), 1);
                    }
                    if let Some(w) = self.screen_width {
                        lemma_rows_bound(text_width(self.status@), box_usable(w));
                        lemma_rows_bound(text_width(self.partial@), box_usable(w));
                        if self.error is Some {
                            lemma_rows_bound(text_width(self.error->0@), box_usable(w));
                        }
                    }
                    assert(Seq::<Seq<char>>::empty().len() == 0);
                }
                let mut commits: Vec<String> = Vec::new();
                std::mem::swap(&mut commits, &mut self.commits);
                commits.push(t);
                if commits.len() > MAX_ROWS as usize {
                    commits.remove(0);
                }
                assert(commits@.map_values(|c: String| c@) =~= last_n(
                    before.push(t@),
                    MAX_ROWS as nat,
                ));
                self.partial = String::new();
                self.commits = commits;
            },
            OverlayEvent::Fatal(t) => {
                self.error = Some(t);
            },
        }
        self.resize_to_fit()
    }

    /// Learns the screen width from the first surface size that reports
    /// one (wider than one pixel): the box then takes its size, centred.
    /// Later sizes are the box's own and are ignored.
    pub fn surface_width(&mut self, w: u32) -> (r: Option<(u32, u32)>)
        requires
            old(self).spec_screen_width() is None && w > 1 ==> old(self).spec_visible_rows(
                box_usable(w),
            ) <= u32::MAX,
        ensures
            width_learned(*old(self), *final(self), w, r),
            final(self).spec_status() == old(self).spec_status(),
            final(self).spec_partial() == old(self).spec_partial(),
            final(self).spec_commits() == old(self).spec_commits(),
            final(self).spec_error() == old(self).spec_error(),
    {
        proof {
            use_type_invariant(&*self);
        }
        if self.screen_width.is_none() && w > 1 {
            let d = self.box_for(w);
            self.screen_width = Some(w);
            self.last_height = d.1;
            Some(d)
        } else {
            None
        }
    }

    /// The size change that keeps the box fitted to its content: none
    /// before the screen width is known or when the height is unchanged;
    /// otherwise the new size, whose height is remembered.
    pub fn resize_to_fit(&mut self) -> (r: Option<(u32, u32)>)
        ensures
            match old(self).spec_screen_width() {
                None => r is None && final(self).spec_last_height() == old(self).spec_last_height(),
                Some(w) => {
                    let d = old(self).spec_box_for(w);
                    if d.1 == old(self).spec_last_height() {
                        r is None && final(self).spec_last_height() == old(self).spec_last_height()
                    } else {
                        r == Some(d) && final(self).spec_last_height() == d.1
                    }
                },
            },
            final(self).spec_status() == old(self).spec_status(),
            final(self).spec_partial() == old(self).spec_partial(),
            final(self).spec_commits() == old(self).spec_commits(),
            final(self).spec_error() == old(self).spec_error(),
            final(self).spec_screen_width() == old(self).spec_screen_width(),
    {
        proof {
            use_type_invariant(&*self);
        }
        match self.screen_width {
            None => None,
            Some(w) => {
                let d = self.box_for(w);
                if d.1 == self.last_height {
                    None
                } else {
                    self.last_height = d.1;
                    Some(d)
                }
            },
        }
    }
}

/// The two-line bar of the display-only overlay client: the last commit
/// on top and, below it, the partial text (the status while nothing has
/// been recognised). Failures are reported on the status line.
pub struct BarState {
    status: String,
    last_commit: String,
    partial: String,
}

impl BarState {
    pub closed spec fn spec_status(self) -> Seq<char> {
        self.status@
    }

    pub closed spec fn spec_last_commit(self) -> Seq<char> {
        self.last_commit@
    }

    pub closed spec fn spec_partial(self) -> Seq<char> {
        self.partial@
    }

    /// An empty bar.
    pub fn new() -> (b: Self)
        ensures
            b.spec_status().len() == 0,
            b.spec_last_commit().len() == 0,
            b.spec_partial().len() == 0,
    {
        BarState { status: String::new(), last_commit: String::new(), partial: String::new() }
    }

    /// Takes an engine event into account: a commit replaces the last
    /// commit and clears the partial text.
    pub fn apply(&mut self, event: OverlayEvent)
        ensures
            match event {
                OverlayEvent::Status(t) => {
                    &&& final(self).spec_status() == t@
                    &&& final(self).spec_last_commit() == old(self).spec_last_commit()
                    &&& final(self).spec_partial() == old(self).spec_partial()
                },
                OverlayEvent::Fatal(t) => {
                    &&& final(self).spec_status() == t@
                    &&& final(self).spec_last_commit() == old(self).spec_last_commit()
                    &&& final(self).spec_partial() == old(self).spec_partial()
                },
                OverlayEvent::Partial(t) => {
                    &&& final(self).spec_partial() == t@
                    &&& final(self).spec_last_commit() == old(self).spec_last_commit()
                    &&& final(self).spec_status() == old(self).spec_status()
                },
                OverlayEvent::Commit(t) => {
                    &&& final(self).spec_last_commit() == t@
                    &&& final(self).spec_partial().len() == 0
                    &&& final(self).spec_status() == old(self).spec_status()
                },
            },
    {
        match event {
            OverlayEvent::Status(t) => {
                self.status = t;
            },
            OverlayEvent::Fatal(t) => {
                self.status = t;
            },
            OverlayEvent::Partial(t) => {
                self.partial = t;
            },
            OverlayEvent::Commit(t) => {
                self.last_commit = t;
                self.partial = String::new();
            },
        }
    }

    /// Whether the lower line is the status line (shown dimmed): nothing
    /// has been recognised.
    pub fn shows_status(&self) -> (b: bool)
        ensures
            b == (self.spec_partial().len() == 0 && self.spec_last_commit().len() == 0),
    {
        self.partial.as_str().is_empty() && self.last_commit.as_str().is_empty()
    }

    /// The upper line: the last commit.
    pub fn upper_line(&self) -> (l: &str)
        ensures
            l@ == self.spec_last_commit(),
    {
        self.last_commit.as_str()
    }

    /// The lower line: the status while nothing has been recognised,
    /// otherwise the partial text.
    pub fn lower_line(&self) -> (l: &str)
        ensures
            l@ == if self.spec_partial().len() == 0 && self.spec_last_commit().len() == 0 {
                self.spec_status()
            } else {
                self.spec_partial()
            },
    {
        if self.partial.as_str().is_empty() && self.last_commit.as_str().is_empty() {
            self.status.as_str()
        } else {
            self.partial.as_str()
        }
    }
}

} // verus!
