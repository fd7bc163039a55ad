//! Tidying of decimal UI amount strings.

use vstd::prelude::*;
use vstd::string::StrSliceExecFns;

verus! {

/// `s` without its trailing run of `c`.
pub open spec fn trim_end_char(s: Seq<char>, c: char) -> Seq<char>
    decreases s.len(),
{
    if s.len() > 0 && s.last() == c {
        trim_end_char(s.drop_last(), c)
    } else {
        s
    }
}

/// With a positive `decimals`, the trailing zeros and then a trailing
/// decimal point are dropped; with zero decimals the string is kept.
pub open spec fn spec_trim_ui_amount(s: Seq<char>, decimals: u8) -> Seq<char> {
    if decimals > 0 {
        trim_end_char(trim_end_char(s, '0'), '.')
    } else {
        s
    }
}

/// The length of `s@.subrange(0, end)` without its trailing run of `c`.
fn trimmed_end(s: &str, end: usize, c: char) -> (r: usize)
    requires
        end <= s@.len(),
    ensures
        r <= end,
        s@.subrange(0, r as int) == trim_end_char(s@.subrange(0, end as int), c),
{
    let mut i: usize = end;
    while i > 0 && s.get_char(i - 1) == c
        invariant
            i <= end <= s@.len(),
            trim_end_char(s@.subrange(0, end as int), c) == trim_end_char(
                s@.subrange(0, i as int),
                c,
            ),
        decreases i,
    {
        assert(s@.subrange(0, i as int).drop_last() =~= s@.subrange(0, i - 1));
        i = i - 1;
    }
    i
}

/// Drops the trailing zeros of a decimal string, then its decimal point if
/// that is left last; nothing is dropped when `decimals` is zero, since then
/// the string has no fractional part.
pub fn trim_ui_amount_string(ui_amount: String, decimals: u8) -> (r: String)
    ensures
        r@ == spec_trim_ui_amount(ui_amount@, decimals),
{
    if decimals == 0 {
        return ui_amount;
    }
    let s = ui_amount.as_str();
    let n = s.unicode_len();
    assert(s@.subrange(0, n as int) =~= s@);
    let end = trimmed_end(s, n, '0');
    let end = trimmed_end(s, end, '.');
    s.substring_char(0, end).to_owned()
}

} // verus!
