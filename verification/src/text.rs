//! Post-processing of recognised text. The recogniser inserts spaces in
//! the middle of Japanese text ("プルリクエスト の レビュー"); only spaces with
//! a non-ASCII character on both sides are removed, so spaces between
//! English words survive. This is the behaviour of the regular expression
//! `(?<=[^\x00-\x7f]) +(?=[^\x00-\x7f])` replaced by nothing.

use vstd::prelude::*;

use crate::chars::{chars_of, string_of};

verus! {

pub open spec fn is_ascii_char(c: char) -> bool {
    (c as u32) < 128
}

/// The space at index `i` lies in a run of spaces that is directly preceded
/// and directly followed by non-ASCII characters.
pub open spec fn dropped_space(s: Seq<char>, i: int) -> bool {
    &&& 0 <= i < s.len()
    &&& s[i] == ' '
    &&& exists|l: int, r: int|
        #![trigger s[l - 1], s[r]]
        0 < l <= i < r < s.len() && !is_ascii_char(s[l - 1]) && !is_ascii_char(s[r]) && forall|
            k: int,
        |
            l <= k < r ==> s[k] == ' '
}

/// The first `n` characters of `s` without the dropped spaces.
pub open spec fn strip_prefix(s: Seq<char>, n: int) -> Seq<char>
    decreases n,
{
    if n <= 0 {
        Seq::empty()
    } else if dropped_space(s, n - 1) {
        strip_prefix(s, n - 1)
    } else {
        strip_prefix(s, n - 1).push(s[n - 1])
    }
}

/// `s` without the spaces that separate non-ASCII characters.
pub open spec fn strip_spaces_spec(s: Seq<char>) -> Seq<char> {
    strip_prefix(s, s.len() as int)
}

/// Text without any non-ASCII character comes out unchanged: spaces
/// between English words are never removed.
pub proof fn lemma_ascii_text_unchanged(s: Seq<char>)
    requires
        forall|k: int| 0 <= k < s.len() ==> is_ascii_char(#[trigger] s[k]),
    ensures
        strip_spaces_spec(s) == s,
{
    lemma_ascii_prefix_unchanged(s, s.len() as int);
    assert(s.take(s.len() as int) == s);
}

proof fn lemma_ascii_prefix_unchanged(s: Seq<char>, n: int)
    requires
        0 <= n <= s.len(),
        forall|k: int| 0 <= k < s.len() ==> is_ascii_char(#[trigger] s[k]),
    ensures
        strip_prefix(s, n) == s.take(n),
    decreases n,
{
    if n > 0 {
        lemma_ascii_prefix_unchanged(s, n - 1);
        if dropped_space(s, n - 1) {
            let (l, r) = choose|l: int, r: int|
                #![trigger s[l - 1], s[r]]
                0 < l <= n - 1 < r < s.len() && !is_ascii_char(s[l - 1]) && !is_ascii_char(s[r])
                    && forall|k: int| l <= k < r ==> s[k] == ' ';
            assert(is_ascii_char(s[l - 1]));
        }
        assert(s.take(n) == s.take(n - 1).push(s[n - 1]));
    }
}

/// Positions of the characters among the first `n` that are kept, in
/// order.
spec fn kept_indices(s: Seq<char>, n: int) -> Seq<int>
    decreases n,
{
    if n <= 0 {
        Seq::empty()
    } else if dropped_space(s, n - 1) {
        kept_indices(s, n - 1)
    } else {
        kept_indices(s, n - 1).push(n - 1)
    }
}

proof fn lemma_kept_indices(s: Seq<char>, n: int)
    requires
        0 <= n <= s.len(),
    ensures
        kept_indices(s, n).len() == strip_prefix(s, n).len(),
        forall|j: int|
            0 <= j < kept_indices(s, n).len() ==> 0 <= #[trigger] kept_indices(s, n)[j] < n
                && strip_prefix(s, n)[j] == s[kept_indices(s, n)[j]] && !dropped_space(
                s,
                kept_indices(s, n)[j],
            ),
        forall|a: int, b: int|
            0 <= a < b < kept_indices(s, n).len() ==> #[trigger] kept_indices(s, n)[a]
                < #[trigger] kept_indices(s, n)[b],
        forall|i: int|
            0 <= i < n && !dropped_space(s, i) ==> exists|j: int|
                0 <= j < kept_indices(s, n).len() && #[trigger] kept_indices(s, n)[j] == i,
    decreases n,
{
    if n > 0 {
        lemma_kept_indices(s, n - 1);
        let k0 = kept_indices(s, n - 1);
        let k = kept_indices(s, n);
        if !dropped_space(s, n - 1) {
            assert(k == k0.push(n - 1));
            assert(strip_prefix(s, n) == strip_prefix(s, n - 1).push(s[n - 1]));
            assert forall|i: int| 0 <= i < n && !dropped_space(s, i) implies exists|j: int|
                0 <= j < k.len() && #[trigger] k[j] == i by {
                if i == n - 1 {
                    assert(k[k.len() - 1] == i);
                } else {
                    let j = choose|j: int| 0 <= j < k0.len() && #[trigger] k0[j] == i;
                    assert(k[j] == i);
                }
            }
        }
    }
}

/// A text where no space lies between two non-ASCII characters comes out
/// of the stripping unchanged.
proof fn lemma_nothing_to_strip(t: Seq<char>, n: int)
    requires
        0 <= n <= t.len(),
        forall|j: int| 0 <= j < t.len() ==> !dropped_space(t, j),
    ensures
        strip_prefix(t, n) == t.take(n),
    decreases n,
{
    if n > 0 {
        lemma_nothing_to_strip(t, n - 1);
        assert(t.take(n) == t.take(n - 1).push(t[n - 1]));
    }
}

/// Stripping is idempotent: its output has no space left between two
/// non-ASCII characters, so stripping it again changes nothing.
pub proof fn lemma_strip_idempotent(s: Seq<char>)
    ensures
        strip_spaces_spec(strip_spaces_spec(s)) == strip_spaces_spec(s),
{
    let n = s.len() as int;
    let t = strip_spaces_spec(s);
    let k = kept_indices(s, n);
    lemma_kept_indices(s, n);
    assert forall|j: int| 0 <= j < t.len() implies !dropped_space(t, j) by {
        if dropped_space(t, j) {
            let (l, r) = choose|l: int, r: int|
                #![trigger t[l - 1], t[r]]
                0 < l <= j < r < t.len() && !is_ascii_char(t[l - 1]) && !is_ascii_char(t[r])
                    && forall|m: int| l <= m < r ==> t[m] == ' ';
            let a = k[l - 1];
            let b = k[r];
            assert(s[a] == t[l - 1]);
            assert(s[b] == t[r]);
            assert(k[l - 1] < k[j] && k[j] < k[r]);
            // everything strictly between a and b is a space
            assert forall|i: int| a < i < b implies s[i] == ' ' by {
                if !dropped_space(s, i) {
                    let jj = choose|jj: int| 0 <= jj < k.len() && #[trigger] k[jj] == i;
                    if jj <= l - 1 {
                        if jj < l - 1 {
                            assert(k[jj] < k[l - 1]);
                        }
                    }
                    if jj >= r {
                        if jj > r {
                            assert(k[r] < k[jj]);
                        }
                    }
                    assert(l <= jj < r);
                    assert(t[jj] == ' ');
                    assert(s[k[jj]] == t[jj]);
                }
            }
            let i0 = k[j];
            assert(t[j] == ' ');
            assert(s[i0] == ' ');
            let l2 = a + 1;
            assert(s[l2 - 1] == s[a]);
            assert(0 < l2 <= i0 < b < s.len() && !is_ascii_char(s[l2 - 1]) && !is_ascii_char(s[b])
                && forall|m: int| l2 <= m < b ==> s[m] == ' ');
            assert(dropped_space(s, i0));
        }
    }
    lemma_nothing_to_strip(t, t.len() as int);
    assert(t.take(t.len() as int) == t);
}

/// Only spaces are removed: every other character is kept, in order.
pub proof fn lemma_only_spaces_removed(s: Seq<char>, n: int)
    requires
        0 <= n <= s.len(),
    ensures
        strip_prefix(s, n).filter(|c: char| c != ' ') == s.take(n).filter(|c: char| c != ' '),
    decreases n,
{
    if n > 0 {
        lemma_only_spaces_removed(s, n - 1);
        reveal_with_fuel(Seq::<_>::filter, 1);
        assert(s.take(n).drop_last() == s.take(n - 1));
        if !dropped_space(s, n - 1) {
            assert(strip_prefix(s, n).drop_last() == strip_prefix(s, n - 1));
        }
    }
}

/// Removes runs of spaces that have a non-ASCII character on both sides.
pub fn strip_japanese_spaces(text: &str) -> (out: String)
    ensures
        out@ == strip_spaces_spec(text@),
{
    let cs = chars_of(text);
    let n = cs.len();
    let mut out: Vec<char> = Vec::new();
    let mut i: usize = 0;
    while i < n
        invariant
            n == cs@.len(),
            cs@ == text@,
            i <= n,
            i == 0 || cs@[i - 1] != ' ' || i == n || cs@[i as int] != ' ',
            out@ == strip_prefix(cs@, i as int),
        decreases n - i,
    {
        if cs[i] != ' ' {
            assert(!dropped_space(cs@, i as int));
            out.push(cs[i]);
            i = i + 1;
        } else {
            // the run of spaces starts at i and ends before j
            let start = i;
            let mut j: usize = i;
            while j < n && cs[j] == ' '
                invariant
                    start <= j <= n,
                    n == cs@.len(),
                    forall|k: int| start <= k < j ==> cs@[k] == ' ',
                decreases n - j,
            {
                j = j + 1;
            }
            assert(start < j);
            assert(start == 0 || cs@[start - 1] != ' ');
            let drop = start > 0 && (cs[start - 1] as u32) >= 128 && j < n && (cs[j] as u32) >= 128;
            proof {
                assert forall|k: int| start <= k < j implies dropped_space(cs@, k) == drop by {
                    if drop {
                        assert(!is_ascii_char(cs@[start - 1]));
                        assert(!is_ascii_char(cs@[j as int]));
                    }
                    if dropped_space(cs@, k) {
                        let (l, r) = choose|l: int, r: int|
                            #![trigger cs@[l - 1], cs@[r]]
                            0 < l <= k < r < cs@.len() && !is_ascii_char(cs@[l - 1])
                                && !is_ascii_char(cs@[r]) && forall|m: int|
                                l <= m < r ==> cs@[m] == ' ';
                        if l - 1 >= start {
                            assert(cs@[l - 1] == ' ');
                        }
                        if l < start {
                            assert(cs@[start - 1] == ' ');
                        }
                        if r < j {
                            assert(cs@[r] == ' ');
                        }
                        if r > j {
                            assert(cs@[j as int] == ' ');
                        }
                        assert(l == start && r == j);
                    }
                }
            }
            let mut k: usize = start;
            while k < j
                invariant
                    start <= k <= j <= n,
                    n == cs@.len(),
                    forall|m: int| start <= m < j ==> cs@[m] == ' ',
                    forall|m: int| start <= m < j ==> dropped_space(cs@, m) == drop,
                    out@ == strip_prefix(cs@, k as int),
                decreases j - k,
            {
                if !drop {
                    out.push(' ');
                }
                k = k + 1;
            }
            i = j;
        }
    }
    string_of(out.as_slice())
}

} // verus!
