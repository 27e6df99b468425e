//! Size of the overlay box. The box grows with every committed or partial
//! text so that the session's text stays visible; the number of displayed
//! rows, wrapping included, is estimated from character widths. The layout
//! constants of the view and this computation are kept in step.

use vstd::prelude::*;

use crate::chars::chars_of;

verus! {

/// Font size of the text (px).
pub const TEXT_SIZE: u32 = 20;
/// Estimated width of a half-width (ASCII) character (px): 0.5em. A
/// full-width (CJK) character is 1em = `TEXT_SIZE`.
pub const HALF_WIDTH: u32 = 10;
/// Height of one row (px): the default line height 1.3 x `TEXT_SIZE`.
pub const LINE_HEIGHT: u32 = 26;
/// Space between rows (px).
pub const SPACING: u32 = 4;
/// Vertical padding of the box (px, each side).
pub const PADDING_V: u32 = 8;
/// Horizontal padding of the box (px, each side).
pub const PADDING_H: u32 = 16;
/// Most rows shown (wrapping included); older rows are hidden beyond it.
pub const MAX_ROWS: u32 = 9;

/// Estimated width of one character: half width for ASCII, full otherwise.
pub open spec fn char_width(c: char) -> nat {
    if (c as u32) < 128 {
        HALF_WIDTH as nat
    } else {
        TEXT_SIZE as nat
    }
}

/// Estimated width of a text: the sum of its character widths.
pub open spec fn text_width(s: Seq<char>) -> nat
    decreases s.len(),
{
    if s.len() == 0 {
        0
    } else {
        text_width(s.drop_last()) + char_width(s.last())
    }
}

/// Rows needed to show `width` pixels of text in lines `usable` pixels
/// wide: the ceiling of the quotient, and at least one.
pub open spec fn rows_for(width: nat, usable: nat) -> nat {
    let q = width / usable + if width % usable == 0 {
        0nat
    } else {
        1nat
    };
    if q == 0 {
        1
    } else {
        q
    }
}

/// Height of a box showing `rows` rows: rows are clamped to `1..=MAX_ROWS`;
/// padding on both sides, the rows, and the spacing between them.
pub open spec fn height_for(rows: nat) -> nat {
    let r: nat = if rows < 1 {
        1
    } else if rows > MAX_ROWS {
        MAX_ROWS as nat
    } else {
        rows
    };
    (2 * PADDING_V + r * LINE_HEIGHT + (r - 1) * SPACING) as nat
}

/// Widths add up: the width of two texts one after the other is the sum
/// of their widths.
pub proof fn lemma_text_width_concat(a: Seq<char>, b: Seq<char>)
    ensures
        text_width(a + b) == text_width(a) + text_width(b),
    decreases b.len(),
{
    if b.len() == 0 {
        assert(a + b =~= a);
    } else {
        lemma_text_width_concat(a, b.drop_last());
        assert((a + b).drop_last() =~= a + b.drop_last());
        assert((a + b).last() == b.last());
    }
}

/// Every ASCII character (any code below 128: letters, digits,
/// punctuation, space) is estimated at half width, so an ASCII text of
/// `n` characters is `n` half widths wide.
pub proof fn lemma_ascii_width(s: Seq<char>)
    requires
        forall|k: int| 0 <= k < s.len() ==> (#[trigger] s[k] as u32) < 128,
    ensures
        text_width(s) == s.len() * HALF_WIDTH,
    decreases s.len(),
{
    if s.len() > 0 {
        assert forall|k: int| 0 <= k < s.drop_last().len() implies (
        #[trigger] s.drop_last()[k] as u32) < 128 by {
            assert(s.drop_last()[k] == s[k]);
        }
        lemma_ascii_width(s.drop_last());
        assert((s[s.len() - 1] as u32) < 128);
    }
}

/// Every other character is estimated at full width, so a text of `n`
/// non-ASCII characters is `n` times `TEXT_SIZE` wide.
pub proof fn lemma_wide_width(s: Seq<char>)
    requires
        forall|k: int| 0 <= k < s.len() ==> (#[trigger] s[k] as u32) >= 128,
    ensures
        text_width(s) == s.len() * TEXT_SIZE,
    decreases s.len(),
{
    if s.len() > 0 {
        assert forall|k: int| 0 <= k < s.drop_last().len() implies (
        #[trigger] s.drop_last()[k] as u32) >= 128 by {
            assert(s.drop_last()[k] == s[k]);
        }
        lemma_wide_width(s.drop_last());
        assert((s[s.len() - 1] as u32) >= 128);
    }
}

/// Beyond `MAX_ROWS` rows the box stops growing: older rows are hidden.
pub proof fn lemma_height_capped(rows: nat)
    requires
        rows >= MAX_ROWS,
    ensures
        height_for(rows) == height_for(MAX_ROWS as nat),
{
}

/// Zero rows are shown as one, and below the cap each further row adds
/// one row height and one spacing.
pub proof fn lemma_height_step(rows: nat)
    requires
        rows < MAX_ROWS,
    ensures
        height_for(0) == height_for(1),
        rows >= 1 ==> height_for(rows + 1) == height_for(rows) + LINE_HEIGHT + SPACING,
{
}

/// The estimated rows hold the whole text, and one row fewer would not.
pub proof fn lemma_rows_cover(width: nat, usable: nat)
    requires
        usable > 0,
    ensures
        rows_for(width, usable) * usable >= width,
        rows_for(width, usable) > 1 ==> (rows_for(width, usable) - 1) * usable < width,
{
    let q = width / usable;
    let r = width % usable;
    assert(width == q * usable + r && 0 <= r < usable) by (nonlinear_arith)
        requires
            usable > 0,
            q == width / usable,
            r == width % usable,
    ;
    let rows = rows_for(width, usable);
    if r == 0 && q > 0 {
        assert(rows == q);
    } else if r == 0 {
        assert(rows == 1);
    } else {
        assert(rows == q + 1);
    }
    assert(rows * usable >= width && (rows > 1 ==> (rows - 1) * usable < width)) by (nonlinear_arith)
        requires
            usable > 0,
            width == q * usable + r,
            0 <= r < usable,
            q >= 0,
            r == 0 && q > 0 ==> rows == q,
            r == 0 && q == 0 ==> rows == 1,
            r != 0 ==> rows == q + 1,
    ;
}

/// Estimated display width of a text (px).
pub fn est_text_width(s: &str) -> (w: u32)
    requires
        text_width(s@) <= u32::MAX,
    ensures
        w == text_width(s@),
{
    let cs = chars_of(s);
    let mut w: u32 = 0;
    let mut i: usize = 0;
    while i < cs.len()
        invariant
            i <= cs@.len(),
            cs@ == s@,
            text_width(s@) <= u32::MAX,
            w == text_width(cs@.take(i as int)),
        decreases cs@.len() - i,
    {
        proof {
            assert(cs@.take(i + 1).drop_last() == cs@.take(i as int));
            lemma_text_width_prefix(cs@, i + 1);
        }
        let c = cs[i];
        if (c as u32) < 128 {
            w = w + HALF_WIDTH;
        } else {
            w = w + TEXT_SIZE;
        }
        i = i + 1;
    }
    assert(cs@.take(cs@.len() as int) == cs@);
    w
}

pub proof fn lemma_text_width_prefix(s: Seq<char>, n: int)
    requires
        0 <= n <= s.len(),
    ensures
        text_width(s.take(n)) <= text_width(s),
    decreases s.len() - n,
{
    if n < s.len() {
        lemma_text_width_prefix(s, n + 1);
        assert(s.take(n + 1).drop_last() == s.take(n));
    } else {
        assert(s.take(n) == s);
    }
}

/// Estimated number of rows of `s` wrapped in `usable_px` wide lines
/// (at least one).
pub fn est_rows(s: &str, usable_px: u32) -> (r: u32)
    requires
        usable_px > 0,
        text_width(s@) <= u32::MAX,
    ensures
        r == rows_for(text_width(s@), usable_px as nat),
{
    let w = est_text_width(s);
    assert(w % usable_px != 0 ==> w / usable_px < 0xFFFF_FFFF) by (nonlinear_arith)
        requires
            usable_px > 0,
            w <= 0xFFFF_FFFF,
    ;
    let q = w / usable_px + if w % usable_px == 0 {
        0
    } else {
        1
    };
    if q == 0 {
        1
    } else {
        q
    }
}

/// Height (px) of the box that shows `rows` rows, wrapping included; it
/// stops growing at `MAX_ROWS`.
pub fn bar_height(rows: u32) -> (h: u32)
    ensures
        h == height_for(rows as nat),
{
    let r = if rows < 1 {
        1
    } else if rows > MAX_ROWS {
        MAX_ROWS
    } else {
        rows
    };
    2 * PADDING_V + r * LINE_HEIGHT + (r - 1) * SPACING
}

} // verus!
