//! The single store of the texts committed during a recording session.
//!
//! Both the display (the last few commits) and the typed input (all
//! commits joined) are derived from this one store, so what is shown and
//! what is typed cannot diverge.

use vstd::prelude::*;

use vstd::string::StringExecFns;

verus! {

/// The concatenation of the texts, in order, with no separator.
pub open spec fn concat_all(ts: Seq<Seq<char>>) -> Seq<char>
    decreases ts.len(),
{
    if ts.len() == 0 {
        Seq::empty()
    } else {
        concat_all(ts.drop_last()) + ts.last()
    }
}

/// The last `n` texts, or all of them when there are fewer.
pub open spec fn last_n(ts: Seq<Seq<char>>, n: nat) -> Seq<Seq<char>> {
    if n >= ts.len() {
        ts
    } else {
        ts.skip(ts.len() - n)
    }
}

proof fn lemma_concat_append(a: Seq<Seq<char>>, b: Seq<Seq<char>>)
    ensures
        concat_all(a + b) == concat_all(a) + concat_all(b),
    decreases b.len(),
{
    if b.len() == 0 {
        assert(a + b =~= a);
    } else {
        lemma_concat_append(a, b.drop_last());
        assert((a + b).drop_last() =~= a + b.drop_last());
        assert((a + b).last() == b.last());
    }
}

/// Nothing hidden from the display is lost from the typed text: the text
/// is the hidden commits joined, followed by the shown ones joined.
pub proof fn lemma_text_is_hidden_then_shown(ts: Seq<Seq<char>>, n: nat)
    ensures
        concat_all(ts) == concat_all(ts.take(ts.len() - last_n(ts, n).len())) + concat_all(
            last_n(ts, n),
        ),
{
    let k = ts.len() - last_n(ts, n).len();
    assert(ts.take(k) + last_n(ts, n) =~= ts);
    lemma_concat_append(ts.take(k), last_n(ts, n));
}

/// Every commit appears, whole and in its place, in the typed text.
pub proof fn lemma_commit_in_text(ts: Seq<Seq<char>>, k: int)
    requires
        0 <= k < ts.len(),
    ensures
        concat_all(ts) == concat_all(ts.take(k)) + ts[k] + concat_all(ts.skip(k + 1)),
{
    assert(ts.take(k) + (seq![ts[k]] + ts.skip(k + 1)) =~= ts);
    lemma_concat_append(ts.take(k), seq![ts[k]] + ts.skip(k + 1));
    lemma_concat_append(seq![ts[k]], ts.skip(k + 1));
    assert(seq![ts[k]].drop_last() =~= Seq::<Seq<char>>::empty());
    assert(concat_all(seq![ts[k]]) == concat_all(Seq::<Seq<char>>::empty()) + ts[k]);
    assert(concat_all(seq![ts[k]]) =~= ts[k]);
    assert(concat_all(ts.take(k)) + (ts[k] + concat_all(ts.skip(k + 1))) =~= concat_all(
        ts.take(k),
    ) + ts[k] + concat_all(ts.skip(k + 1)));
}

/// Committed texts of one session.
pub struct Session {
    commits: Vec<String>,
}

impl View for Session {
    type V = Seq<Seq<char>>;

    closed spec fn view(&self) -> Seq<Seq<char>> {
        self.commits@.map_values(|c: String| c@)
    }
}

impl Default for Session {
    /// A session with nothing committed yet.
    fn default() -> (s: Self)
        ensures
            s@ == Seq::<Seq<char>>::empty(),
    {
        let s = Session { commits: Vec::new() };
        assert(s@ =~= Seq::<Seq<char>>::empty());
        s
    }
}

impl Session {
    /// Adds a committed text.
    pub fn push(&mut self, text: String)
        ensures
            final(self)@ == old(self)@.push(text@),
    {
        let ghost before = self@;
        self.commits.push(text);
        assert(self@ =~= before.push(text@));
    }

    /// Whether nothing has been committed.
    pub fn is_empty(&self) -> (b: bool)
        ensures
            b == (self@.len() == 0),
    {
        self.commits.len() == 0
    }

    /// For display: the last `n` commits, or all of them when there are fewer.
    pub fn tail(&self, n: usize) -> (t: &[String])
        ensures
            t@.map_values(|c: String| c@) == last_n(self@, n as nat),
    {
        let len = self.commits.len();
        let start = if n >= len {
            0
        } else {
            len - n
        };
        let t = vstd::slice::slice_subrange(self.commits.as_slice(), start, len);
        assert(t@.map_values(|c: String| c@) =~= last_n(self@, n as nat));
        t
    }

    /// For input: all commits joined with no separator, including those
    /// hidden from the display.
    pub fn text(&self) -> (s: String)
        ensures
            s@ == concat_all(self@),
    {
        let mut s = String::new();
        let mut i: usize = 0;
        let ghost v = self@;
        assert(v.take(0) =~= Seq::<Seq<char>>::empty());
        while i < self.commits.len()
            invariant
                i <= self.commits@.len(),
                v == self.commits@.map_values(|c: String| c@),
                s@ == concat_all(v.take(i as int)),
            decreases self.commits@.len() - i,
        {
            assert(v.take(i + 1).drop_last() == v.take(i as int));
            s.append(self.commits[i].as_str());
            i = i + 1;
        }
        assert(v.take(self.commits@.len() as int) == v);
        s
    }
}

} // verus!
