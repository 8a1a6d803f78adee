use vstd::prelude::*;
use crate::text::{decimal, decimal_string};

verus! {

/// Width of the separator drawn between the line numbers and the text.
pub const SEPARATOR_WIDTH: usize = 3;

/// Where a scroll offset goes so that position `pos` is shown in a window
/// of `span` rows (or columns): unchanged when `pos` is already inside,
/// else just far enough to bring it to the nearest edge.
pub open spec fn follow(pos: int, offset: int, span: int) -> int {
    if pos < offset {
        pos
    } else if pos >= offset + span {
        pos - span + 1
    } else {
        offset
    }
}

/// The number of decimal digits of `n`.
pub open spec fn digit_count(n: nat) -> nat {
    decimal(n).len()
}

/// Width of the gutter for a document of `n_lines` lines: the digits of the
/// line count and the separator.
pub open spec fn gutter_width_of(n_lines: nat) -> nat {
    (digit_count(n_lines) + SEPARATOR_WIDTH) as nat
}

/// The scroll offset that keeps `pos` in a window of `span` positions.
pub fn follow_offset(pos: usize, offset: usize, span: usize) -> (r: usize)
    requires
        span >= 1,
    ensures
        r == follow(pos as int, offset as int, span as int),
        r <= pos,
        pos < r + span,
{
    if pos < offset {
        pos
    } else if pos - offset >= span {
        pos - span + 1
    } else {
        offset
    }
}

/// After scrolling, the position lies inside the window, whatever the old
/// offset and whatever the window's size, as long as it shows at least one
/// position.
pub proof fn lemma_follow_keeps_visible(pos: int, offset: int, span: int)
    requires
        0 <= pos,
        span >= 1,
    ensures
        follow(pos, offset, span) <= pos < follow(pos, offset, span) + span,
        offset <= pos < offset + span ==> follow(pos, offset, span) == offset,
{
}

/// The number of decimal digits of `n`.
pub fn count_digits(n: usize) -> (r: usize)
    ensures
        r == digit_count(n as nat),
{
    let s = decimal_string(n);
    s.as_str().unicode_len()
}

/// Width of the gutter: the digits of the line count and the separator.
pub fn gutter_width(n_lines: usize) -> (r: usize)
    ensures
        r == gutter_width_of(n_lines as nat),
{
    let d = count_digits(n_lines);
    proof {
        reveal_with_fuel(pow10, 21);
        assert(pow10(20) == 100000000000000000000nat);
        lemma_decimal_len_bound(n_lines as nat, 20);
    }
    d + SEPARATOR_WIDTH
}

/// Ten to the power `k`.
pub open spec fn pow10(k: nat) -> nat
    decreases k,
{
    if k == 0 {
        1
    } else {
        10 * pow10((k - 1) as nat)
    }
}

/// A number below `10^k` has at most `k` digits.
pub proof fn lemma_decimal_len_bound(n: nat, k: nat)
    requires
        k >= 1,
        n < pow10(k),
    ensures
        1 <= decimal(n).len() <= k,
    decreases k,
{
    if n >= 10 {
        let p = pow10((k - 1) as nat);
        assert(k >= 2) by {
            if k == 1 {
                assert(pow10(1) == 10 * pow10(0));
            }
        }
        assert(n / 10 < p) by (nonlinear_arith)
            requires
                n < 10 * p,
        ;
        lemma_decimal_len_bound(n / 10, (k - 1) as nat);
    }
}

} // verus!
