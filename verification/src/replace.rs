//! User dictionary of replacements, applied to recognised text.
//!
//! Misrecognitions concentrate on technical words spoken in katakana
//! (sherpa -> シェルパ, cargo -> カルゴ), so the recognised text is rewritten
//! by rules applied in order. Format: one rule per line, `wrong<TAB>right`;
//! lines that are blank or start with `#` are ignored, as are lines with no
//! tab.

use vstd::prelude::*;

use crate::chars::{chars_of, string_of};

verus! {

/// `char::is_whitespace`: the Unicode `White_Space` property.
pub open spec fn is_whitespace(c: char) -> bool {
    let u = c as u32;
    (0x09 <= u <= 0x0D) || u == 0x20 || u == 0x85 || u == 0xA0 || u == 0x1680 || (0x2000 <= u
        <= 0x200A) || u == 0x2028 || u == 0x2029 || u == 0x202F || u == 0x205F || u == 0x3000
}

/// A line that is empty after trimming whitespace.
pub open spec fn is_blank(l: Seq<char>) -> bool {
    forall|k: int| 0 <= k < l.len() ==> is_whitespace(#[trigger] l[k])
}

/// `str::lines` removes a `\r` only when it precedes the `\n`.
pub open spec fn strip_cr(l: Seq<char>) -> Seq<char> {
    if l.len() > 0 && l.last() == '\r' {
        l.drop_last()
    } else {
        l
    }
}

/// The lines of `s` (as `str::lines`), given that `cur` has already been
/// read of the current line.
pub open spec fn lines_from(s: Seq<char>, cur: Seq<char>) -> Seq<Seq<char>>
    decreases s.len(),
{
    if s.len() == 0 {
        if cur.len() == 0 {
            Seq::empty()
        } else {
            seq![cur]
        }
    } else if s[0] == '\n' {
        seq![strip_cr(cur)] + lines_from(s.skip(1), Seq::empty())
    } else {
        lines_from(s.skip(1), cur.push(s[0]))
    }
}

/// `str::lines`: split at `\n`, drop a `\r` before it, and no empty last
/// line after a final `\n`.
pub open spec fn text_lines(s: Seq<char>) -> Seq<Seq<char>> {
    lines_from(s, Seq::empty())
}

/// Index of the first tab of `l`, when there is one.
pub open spec fn first_tab(l: Seq<char>) -> int {
    choose|k: int| 0 <= k < l.len() && l[k] == '\t' && forall|m: int| 0 <= m < k ==> l[m] != '\t'
}

/// A line that yields a rule: not blank, not a comment, and with a tab.
pub open spec fn is_rule_line(l: Seq<char>) -> bool {
    !is_blank(l) && !(l.len() > 0 && l[0] == '#') && l.contains('\t')
}

/// The rule of a rule line: the text before the first tab and the text after it.
pub open spec fn rule_of_line(l: Seq<char>) -> (Seq<char>, Seq<char>) {
    (l.take(first_tab(l)), l.skip(first_tab(l) + 1))
}

/// The rules of the given lines, in order.
pub open spec fn rules_of_lines(ls: Seq<Seq<char>>) -> Seq<(Seq<char>, Seq<char>)>
    decreases ls.len(),
{
    if ls.len() == 0 {
        Seq::empty()
    } else if is_rule_line(ls.last()) {
        rules_of_lines(ls.drop_last()).push(rule_of_line(ls.last()))
    } else {
        rules_of_lines(ls.drop_last())
    }
}

/// The rules of a dictionary text.
pub open spec fn parse_rules(text: Seq<char>) -> Seq<(Seq<char>, Seq<char>)> {
    rules_of_lines(text_lines(text))
}

/// `to` before every character of `s` and after the last one: what
/// `str::replace` does with an empty pattern.
pub open spec fn interleave(s: Seq<char>, to: Seq<char>) -> Seq<char>
    decreases s.len(),
{
    if s.len() == 0 {
        to
    } else {
        to + seq![s[0]] + interleave(s.skip(1), to)
    }
}

/// `str::replace`: every non-overlapping occurrence of `from`, found from
/// left to right, replaced by `to`.
pub open spec fn replace_all(s: Seq<char>, from: Seq<char>, to: Seq<char>) -> Seq<char>
    decreases s.len(),
{
    if from.len() == 0 {
        interleave(s, to)
    } else if s.len() < from.len() {
        s
    } else if s.take(from.len() as int) == from {
        to + replace_all(s.skip(from.len() as int), from, to)
    } else {
        seq![s[0]] + replace_all(s.skip(1), from, to)
    }
}

/// The rules applied one after another, the first rule first.
pub open spec fn apply_rules(rules: Seq<(Seq<char>, Seq<char>)>, t: Seq<char>) -> Seq<char>
    decreases rules.len(),
{
    if rules.len() == 0 {
        t
    } else {
        replace_all(apply_rules(rules.drop_last(), t), rules.last().0, rules.last().1)
    }
}

/// `from` occurs in `s`.
pub open spec fn occurs_in(s: Seq<char>, from: Seq<char>) -> bool {
    exists|i: int| 0 <= i && i + from.len() <= s.len() && #[trigger] s.subrange(i, i + from.len()) == from
}

/// A non-empty pattern that does not occur leaves the text unchanged.
pub proof fn lemma_replace_absent(s: Seq<char>, from: Seq<char>, to: Seq<char>)
    requires
        from.len() > 0,
        !occurs_in(s, from),
    ensures
        replace_all(s, from, to) == s,
    decreases s.len(),
{
    if s.len() >= from.len() {
        assert(s.subrange(0, from.len() as int) == s.take(from.len() as int));
        let t = s.skip(1);
        assert forall|i: int| 0 <= i && i + from.len() <= t.len() implies #[trigger] t.subrange(
            i,
            i + from.len(),
        ) != from by {
            assert(t.subrange(i, i + from.len()) == s.subrange(i + 1, i + 1 + from.len()));
        }
        lemma_replace_absent(t, from, to);
        if s.subrange(0, from.len() as int) == from {
            let k: int = 0;
            assert(s.subrange(k, k + from.len()) == from);
            assert(occurs_in(s, from));
        }
        assert(replace_all(s, from, to) == seq![s[0]] + replace_all(t, from, to));
        assert(seq![s[0]] + t =~= s);
    }
}

/// The empty dictionary leaves every text unchanged, and so does any
/// dictionary none of whose (non-empty) patterns occur in the text.
pub proof fn lemma_apply_absent_rules(rules: Seq<(Seq<char>, Seq<char>)>, t: Seq<char>)
    requires
        forall|k: int|
            0 <= k < rules.len() ==> (#[trigger] rules[k]).0.len() > 0 && !occurs_in(t, rules[k].0),
    ensures
        apply_rules(rules, t) == t,
    decreases rules.len(),
{
    if rules.len() > 0 {
        assert forall|k: int| 0 <= k < rules.drop_last().len() implies (
        #[trigger] rules.drop_last()[k]).0.len() > 0 && !occurs_in(t, rules.drop_last()[k].0) by {
            assert(rules.drop_last()[k] == rules[k]);
        }
        lemma_apply_absent_rules(rules.drop_last(), t);
        assert(rules.last() == rules[rules.len() - 1]);
        lemma_replace_absent(t, rules.last().0, rules.last().1);
    }
}

/// Rules are applied in order: a dictionary made of two parts rewrites
/// the text with the first part, then the result with the second.
pub proof fn lemma_apply_concat(
    first: Seq<(Seq<char>, Seq<char>)>,
    second: Seq<(Seq<char>, Seq<char>)>,
    t: Seq<char>,
)
    ensures
        apply_rules(first + second, t) == apply_rules(second, apply_rules(first, t)),
    decreases second.len(),
{
    if second.len() == 0 {
        assert(first + second =~= first);
    } else {
        lemma_apply_concat(first, second.drop_last(), t);
        assert((first + second).drop_last() =~= first + second.drop_last());
        assert((first + second).last() == second.last());
    }
}

/// An occurrence at the front is replaced, whatever the replacement (an
/// empty one deletes it), and the rest is rewritten after it.
pub proof fn lemma_replace_front(from: Seq<char>, to: Seq<char>, rest: Seq<char>)
    requires
        from.len() > 0,
    ensures
        replace_all(from + rest, from, to) == to + replace_all(rest, from, to),
{
    let s = from + rest;
    assert(s.take(from.len() as int) =~= from);
    assert(s.skip(from.len() as int) =~= rest);
}

/// A single rule turns its own (non-empty) pattern into its replacement:
/// with an empty replacement, the pattern is deleted.
pub proof fn lemma_rule_on_pattern(from: Seq<char>, to: Seq<char>)
    requires
        from.len() > 0,
    ensures
        apply_rules(seq![(from, to)], from) == to,
        apply_rules(seq![(from, to)], from + from) == to + to,
{
    let r = seq![(from, to)];
    assert(r.drop_last() =~= Seq::<(Seq<char>, Seq<char>)>::empty());
    assert(r.last() == (from, to));
    assert(apply_rules(r.drop_last(), from) == from);
    assert(apply_rules(r, from) == replace_all(from, from, to));
    assert(apply_rules(r.drop_last(), from + from) == from + from);
    assert(apply_rules(r, from + from) == replace_all(from + from, from, to));
    lemma_replace_front(from, to, Seq::empty());
    assert(from + Seq::<char>::empty() =~= from);
    assert(replace_all(Seq::<char>::empty(), from, to) == Seq::<char>::empty());
    assert(to + Seq::<char>::empty() =~= to);
    lemma_replace_front(from, to, from);
}

proof fn lemma_lines_of_line(l: Seq<char>, cur: Seq<char>)
    requires
        !l.contains('\n'),
    ensures
        lines_from(l + seq!['\n'], cur) == seq![strip_cr(cur + l)],
    decreases l.len(),
{
    let s = l + seq!['\n'];
    if l.len() == 0 {
        assert(s =~= seq!['\n']);
        assert(s.len() == 1 && s[0] == '\n');
        assert(s.skip(1) =~= Seq::<char>::empty());
        assert(lines_from(s.skip(1), Seq::empty()) == Seq::<Seq<char>>::empty());
        assert(lines_from(s, cur) == seq![strip_cr(cur)] + lines_from(s.skip(1), Seq::empty()));
        assert(cur + l =~= cur);
        assert(seq![strip_cr(cur)] + Seq::<Seq<char>>::empty() =~= seq![strip_cr(cur)]);
    } else {
        assert(s[0] == l[0]);
        assert(l[0] != '\n') by {
            if l[0] == '\n' {
                assert(l.contains(l[0]));
            }
        }
        let l2 = l.skip(1);
        assert(!l2.contains('\n')) by {
            if l2.contains('\n') {
                let k = choose|k: int| 0 <= k < l2.len() && l2[k] == '\n';
                assert(l[k + 1] == '\n');
                assert(l.contains(l[k + 1]));
            }
        }
        assert(s.skip(1) =~= l2 + seq!['\n']);
        lemma_lines_of_line(l2, cur.push(l[0]));
        assert(lines_from(s, cur) == lines_from(s.skip(1), cur.push(s[0])));
        assert(cur.push(l[0]) + l2 =~= cur + l);
    }
}

/// A dictionary line (no line break in it, no carriage return at its
/// end) that is not blank and does not start with `#` yields exactly one
/// rule when it holds a tab: the text before its first tab becomes the
/// text after it (a `#` later in the line makes no difference); a line
/// starting with `#`, a blank line and a line without a tab yield none.
pub proof fn lemma_rule_line(l: Seq<char>)
    requires
        !l.contains('\n'),
        l.len() > 0 ==> l.last() != '\r',
    ensures
        !is_blank(l) && l[0] != '#' && l.contains('\t') ==> {
            let rules = parse_rules(l + seq!['\n']);
            &&& rules.len() == 1
            &&& rules[0].0 + seq!['\t'] + rules[0].1 == l
            &&& !rules[0].0.contains('\t')
        },
        l.len() > 0 && l[0] == '#' ==> parse_rules(l + seq!['\n']).len() == 0,
        is_blank(l) ==> parse_rules(l + seq!['\n']).len() == 0,
        !l.contains('\t') ==> parse_rules(l + seq!['\n']).len() == 0,
{
    lemma_lines_of_line(l, Seq::empty());
    assert(Seq::<char>::empty() + l =~= l);
    assert(strip_cr(l) == l);
    let ls = text_lines(l + seq!['\n']);
    assert(ls == seq![l]);
    assert(ls.drop_last() =~= Seq::<Seq<char>>::empty());
    assert(ls.last() == l);
    assert(rules_of_lines(ls.drop_last()).len() == 0);
    assert(parse_rules(l + seq!['\n']) == rules_of_lines(ls));
    if l.len() > 0 && l[0] == '#' {
        assert(!is_rule_line(l));
    }
    if !is_blank(l) && l[0] != '#' && l.contains('\t') {
        let k0 = choose|k: int| 0 <= k < l.len() && l[k] == '\t';
        let k = first_tab(l);
        assert(exists|k: int|
            0 <= k < l.len() && l[k] == '\t' && forall|m: int| 0 <= m < k ==> l[m] != '\t') by {
            lemma_first_tab_exists(l, k0);
        }
        let (a, b) = rule_of_line(l);
        assert(a + seq!['\t'] + b =~= l);
        assert(!a.contains('\t')) by {
            if a.contains('\t') {
                let m = choose|m: int| 0 <= m < a.len() && a[m] == '\t';
                assert(l[m] == '\t');
            }
        }
    }
}

proof fn lemma_first_tab_exists(l: Seq<char>, k0: int)
    requires
        0 <= k0 < l.len(),
        l[k0] == '\t',
    ensures
        exists|k: int| 0 <= k < l.len() && l[k] == '\t' && forall|m: int| 0 <= m < k ==> l[m] != '\t',
    decreases k0,
{
    if exists|m: int| 0 <= m < k0 && l[m] == '\t' {
        let m = choose|m: int| 0 <= m < k0 && l[m] == '\t';
        lemma_first_tab_exists(l, m);
    } else {
        assert(0 <= k0 < l.len() && l[k0] == '\t' && forall|m: int| 0 <= m < k0 ==> l[m] != '\t');
    }
}

pub open spec fn rules_view(v: Seq<(Vec<char>, Vec<char>)>) -> Seq<(Seq<char>, Seq<char>)> {
    v.map_values(|p: (Vec<char>, Vec<char>)| (p.0@, p.1@))
}

/// An ordered list of replacement rules.
pub struct Replacer {
    rules: Vec<(Vec<char>, Vec<char>)>,
}

impl View for Replacer {
    type V = Seq<(Seq<char>, Seq<char>)>;

    closed spec fn view(&self) -> Seq<(Seq<char>, Seq<char>)> {
        rules_view(self.rules@)
    }
}

/// The lines of `cs` (as `str::lines`).
fn split_lines(cs: &Vec<char>) -> (ls: Vec<Vec<char>>)
    ensures
        ls@.map_values(|l: Vec<char>| l@) == text_lines(cs@),
{
    let mut ls: Vec<Vec<char>> = Vec::new();
    let mut cur: Vec<char> = Vec::new();
    let mut i: usize = 0;
    assert(cs@.skip(0) == cs@);
    assert(ls@.map_values(|l: Vec<char>| l@) + text_lines(cs@) =~= text_lines(cs@));
    while i < cs.len()
        invariant
            i <= cs@.len(),
            ls@.map_values(|l: Vec<char>| l@) + lines_from(cs@.skip(i as int), cur@) == text_lines(
                cs@,
            ),
        decreases cs@.len() - i,
    {
        let ghost before = ls@.map_values(|l: Vec<char>| l@);
        assert(cs@.skip(i as int).skip(1) == cs@.skip(i + 1));
        if cs[i] == '\n' {
            let mut line = cur;
            if line.len() > 0 && line[line.len() - 1] == '\r' {
                line.pop();
            }
            assert(line@ == strip_cr(cur@));
            ls.push(line);
            cur = Vec::new();
            assert(ls@.map_values(|l: Vec<char>| l@) =~= before + seq![line@]);
        } else {
            cur.push(cs[i]);
        }
        i = i + 1;
    }
    let ghost before = ls@.map_values(|l: Vec<char>| l@);
    if cur.len() > 0 {
        ls.push(cur);
        assert(ls@.map_values(|l: Vec<char>| l@) =~= before + seq![cur@]);
    } else {
        assert(before + Seq::<Seq<char>>::empty() =~= before);
    }
    ls
}

fn is_whitespace_char(c: char) -> (b: bool)
    ensures
        b == is_whitespace(c),
{
    let u = c as u32;
    (0x09 <= u && u <= 0x0D) || u == 0x20 || u == 0x85 || u == 0xA0 || u == 0x1680 || (0x2000
        <= u && u <= 0x200A) || u == 0x2028 || u == 0x2029 || u == 0x202F || u == 0x205F || u
        == 0x3000
}

fn blank(l: &Vec<char>) -> (b: bool)
    ensures
        b == is_blank(l@),
{
    let mut i: usize = 0;
    while i < l.len()
        invariant
            i <= l@.len(),
            forall|k: int| 0 <= k < i ==> is_whitespace(#[trigger] l@[k]),
        decreases l@.len() - i,
    {
        if !is_whitespace_char(l[i]) {
            return false;
        }
        i = i + 1;
    }
    true
}

/// The first tab of `l`, if any.
fn find_tab(l: &Vec<char>) -> (r: Option<usize>)
    ensures
        r is None ==> !l@.contains('\t'),
        r matches Some(k) ==> k < l@.len() && k == first_tab(l@) && l@[k as int] == '\t',
{
    let mut i: usize = 0;
    while i < l.len()
        invariant
            i <= l@.len(),
            forall|m: int| 0 <= m < i ==> l@[m] != '\t',
        decreases l@.len() - i,
    {
        if l[i] == '\t' {
            proof {
                let k = first_tab(l@);
                assert(0 <= i < l@.len() && l@[i as int] == '\t' && forall|m: int|
                    0 <= m < i ==> l@[m] != '\t');
                assert(0 <= k < l@.len() && l@[k] == '\t' && forall|m: int|
                    0 <= m < k ==> l@[m] != '\t');
                if k < i {
                    assert(l@[k] != '\t');
                }
                if k > i {
                    assert(l@[i as int] != '\t');
                }
            }
            return Some(i);
        }
        i = i + 1;
    }
    None
}

/// The characters of `v` from `a` up to `b`.
fn sub_vec(v: &Vec<char>, a: usize, b: usize) -> (r: Vec<char>)
    requires
        a <= b <= v@.len(),
    ensures
        r@ == v@.subrange(a as int, b as int),
{
    let mut r: Vec<char> = Vec::new();
    let mut i: usize = a;
    while i < b
        invariant
            a <= i <= b <= v@.len(),
            r@ == v@.subrange(a as int, i as int),
        decreases b - i,
    {
        r.push(v[i]);
        i = i + 1;
    }
    r
}

/// The rule that line `l` yields, if it is a rule line.
fn rule_of(l: &Vec<char>) -> (r: Option<(Vec<char>, Vec<char>)>)
    ensures
        r is Some <==> is_rule_line(l@),
        r matches Some(p) ==> (p.0@, p.1@) == rule_of_line(l@),
{
    if blank(l) || (l.len() > 0 && l[0] == '#') {
        return None;
    }
    match find_tab(l) {
        Some(k) => {
            assert(l@.contains(l@[k as int]));
            let from = sub_vec(l, 0, k);
            let to = sub_vec(l, k + 1, l.len());
            assert(from@ == l@.take(k as int));
            assert(to@ == l@.skip(k + 1));
            Some((from, to))
        },
        None => None,
    }
}

/// Whether `from` occurs in `s` at index `i`.
fn occurs_at(s: &Vec<char>, i: usize, from: &Vec<char>) -> (b: bool)
    requires
        i + from.len() <= s.len(),
    ensures
        b == (s@.subrange(i as int, i + from@.len()) == from@),
{
    let mut k: usize = 0;
    while k < from.len()
        invariant
            k <= from@.len(),
            i + from.len() <= s.len(),
            forall|m: int| 0 <= m < k ==> s@[i + m] == from@[m],
        decreases from@.len() - k,
    {
        if s[i + k] != from[k] {
            assert(s@.subrange(i as int, i + from@.len())[k as int] != from@[k as int]);
            return false;
        }
        k = k + 1;
    }
    assert(s@.subrange(i as int, i + from@.len()) =~= from@);
    true
}

fn append_all(out: &mut Vec<char>, to: &Vec<char>)
    ensures
        final(out)@ == old(out)@ + to@,
{
    let ghost start = out@;
    let mut k: usize = 0;
    while k < to.len()
        invariant
            k <= to@.len(),
            out@ == start + to@.take(k as int),
        decreases to@.len() - k,
    {
        out.push(to[k]);
        k = k + 1;
        assert(to@.take(k as int) == to@.take((k - 1) as int).push(to@[k - 1]));
    }
    assert(to@.take(to@.len() as int) == to@);
}

/// Every non-overlapping occurrence of `from` in `s`, leftmost first,
/// replaced by `to` (as `str::replace`).
fn replace_chars(s: &Vec<char>, from: &Vec<char>, to: &Vec<char>) -> (r: Vec<char>)
    ensures
        r@ == replace_all(s@, from@, to@),
{
    let n = s.len();
    let m = from.len();
    let mut out: Vec<char> = Vec::new();
    let mut i: usize = 0;
    assert(s@.skip(0) == s@);
    if m == 0 {
        while i < n
            invariant
                n == s@.len(),
                m == from@.len() == 0,
                i <= n,
                out@ + interleave(s@.skip(i as int), to@) == interleave(s@, to@),
            decreases n - i,
        {
            let ghost before = out@;
            assert(s@.skip(i as int).skip(1) == s@.skip(i + 1));
            assert(interleave(s@.skip(i as int), to@) == to@ + seq![s@[i as int]] + interleave(
                s@.skip(i + 1),
                to@,
            ));
            append_all(&mut out, to);
            out.push(s[i]);
            i = i + 1;
            assert(out@ == before + to@ + seq![s@[i - 1]]);
        }
        assert(s@.skip(n as int).len() == 0);
        assert(interleave(s@.skip(n as int), to@) == to@);
        append_all(&mut out, to);
        return out;
    }
    while i < n
        invariant
            n == s@.len(),
            m == from@.len() > 0,
            i <= n,
            out@ + replace_all(s@.skip(i as int), from@, to@) == replace_all(s@, from@, to@),
        decreases n - i,
    {
        let ghost rest = s@.skip(i as int);
        let ghost before = out@;
        if m <= n - i && occurs_at(s, i, from) {
            assert(rest.take(m as int) == s@.subrange(i as int, i + m));
            assert(rest.skip(m as int) == s@.skip(i + m));
            append_all(&mut out, to);
            i = i + m;
            assert(out@ + replace_all(s@.skip(i as int), from@, to@) == before + replace_all(
                rest,
                from@,
                to@,
            ));
        } else {
            if m <= n - i {
                assert(rest.take(m as int) == s@.subrange(i as int, i + m));
            }
            assert(rest.skip(1) == s@.skip(i + 1));
            out.push(s[i]);
            i = i + 1;
            assert(out@ == before + seq![rest[0]]);
        }
    }
    assert(s@.skip(n as int).len() == 0);
    out
}

impl Replacer {
    /// Reads the rules of a dictionary text, in the order of their lines.
    pub fn parse(text: &str) -> (r: Self)
        ensures
            r@ == parse_rules(text@),
    {
        let cs = chars_of(text);
        let ls = split_lines(&cs);
        let ghost lsv = ls@.map_values(|l: Vec<char>| l@);
        let mut rules: Vec<(Vec<char>, Vec<char>)> = Vec::new();
        let mut i: usize = 0;
        assert(lsv.take(0) =~= Seq::<Seq<char>>::empty());
        while i < ls.len()
            invariant
                i <= ls@.len(),
                lsv == ls@.map_values(|l: Vec<char>| l@),
                lsv == text_lines(cs@),
                rules_view(rules@) == rules_of_lines(lsv.take(i as int)),
            decreases ls@.len() - i,
        {
            let l = &ls[i];
            assert(lsv.take(i + 1).drop_last() == lsv.take(i as int));
            assert(lsv.take(i + 1).last() == l@);
            match rule_of(l) {
                Some(rule) => {
                    let ghost old_rules = rules_view(rules@);
                    let ghost rv = (rule.0@, rule.1@);
                    rules.push(rule);
                    assert(rules_view(rules@) =~= old_rules.push(rv));
                },
                None => {},
            }
            i = i + 1;
        }
        assert(lsv.take(ls@.len() as int) == lsv);
        Replacer { rules }
    }

    /// Whether the dictionary has no rule.
    pub fn is_empty(&self) -> (b: bool)
        ensures
            b == (self@.len() == 0),
    {
        self.rules.len() == 0
    }

    /// The text with every rule applied in order: each rule replaces all
    /// occurrences of its pattern in the output of the rules before it.
    pub fn apply(&self, text: &str) -> (out: String)
        ensures
            out@ == apply_rules(self@, text@),
    {
        let mut cur = chars_of(text);
        let mut i: usize = 0;
        let ghost rv = rules_view(self.rules@);
        assert(rv.take(0) =~= Seq::<(Seq<char>, Seq<char>)>::empty());
        while i < self.rules.len()
            invariant
                i <= self.rules@.len(),
                rv == rules_view(self.rules@),
                cur@ == apply_rules(rv.take(i as int), text@),
            decreases self.rules@.len() - i,
        {
            let (from, to) = &self.rules[i];
            assert(rv.take(i + 1).drop_last() == rv.take(i as int));
            assert(rv.take(i + 1).last() == (from@, to@));
            cur = replace_chars(&cur, from, to);
            i = i + 1;
        }
        assert(rv.take(self.rules@.len() as int) == rv);
        string_of(cur.as_slice())
    }

    /// Number of rules.
    pub fn len(&self) -> (n: usize)
        ensures
            n == self@.len(),
    {
        self.rules.len()
    }
}

} // verus!
