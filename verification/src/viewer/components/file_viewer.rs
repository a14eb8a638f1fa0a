//! The entries shown by the file viewer and its header texts.

use vstd::prelude::*;
use crate::shared::types::log_entry::{entry_views, LogEntry};
use crate::text::{decimal, extend_str, from_chars, push_decimal, to_chars};
use crate::viewer::filters::apply_filters::{apply_filters, filter_defined, filter_source, keep_pred};
use crate::viewer::rendering::group_assignment::{assign_groups, group_line_of};
use crate::viewer::types::{DisplayEntry, FilterParams};

verus! {

/// Value of a sequence of decimal digits.
pub open spec fn digits_value(ds: Seq<char>) -> nat
    decreases ds.len(),
{
    if ds.len() == 0 {
        0
    } else {
        digits_value(ds.drop_last()) * 10 + ((ds.last() as u32 - 48) as nat)
    }
}

/// An ASCII digit.
pub open spec fn is_digit(c: char) -> bool {
    '0' <= c && c <= '9'
}

/// The text after an optional leading `+`.
pub open spec fn digits_part(s: Seq<char>) -> Seq<char> {
    if s.len() > 0 && s[0] == '+' {
        s.skip(1)
    } else {
        s
    }
}

/// Whether every character is a decimal digit.
pub open spec fn all_digits(ds: Seq<char>) -> bool {
    forall|i: int| 0 <= i < ds.len() ==> is_digit(#[trigger] ds[i])
}

/// `str::parse::<usize>()`: an optional `+`, then at least one digit and
/// nothing else, of a value that fits.
pub open spec fn parse_usize_spec(s: Seq<char>) -> Option<nat> {
    let ds = digits_part(s);
    if ds.len() == 0 || !all_digits(ds) {
        None
    } else if digits_value(ds) > usize::MAX {
        None
    } else {
        Some(digits_value(ds))
    }
}

/// A prefix of a digit string has no larger value.
proof fn lemma_digits_value_grows(ds: Seq<char>, i: int)
    requires
        0 <= i <= ds.len(),
        forall|j: int| 0 <= j < ds.len() ==> is_digit(#[trigger] ds[j]),
    ensures
        digits_value(ds.take(i)) <= digits_value(ds),
    decreases ds.len() - i,
{
    if i < ds.len() {
        assert(ds.take(i + 1).drop_last() =~= ds.take(i));
        lemma_digits_value_grows(ds, i + 1);
    } else {
        assert(ds.take(i) =~= ds);
    }
}

/// A line bound typed in the filter panel: its number, or 0 when it is
/// not one (`parse::<usize>().unwrap_or(0)`).
pub fn parse_line_bound(s: &str) -> (r: usize)
    ensures
        r == match parse_usize_spec(s@) {
            Some(v) => v,
            None => 0,
        },
{
    let v = to_chars(s);
    let start: usize = if v.len() > 0 && v[0] == '+' { 1 } else { 0 };
    let ghost ds = v@.skip(start as int);
    assert(ds == digits_part(s@)) by {
        if start == 0 {
            assert(v@.skip(0) =~= v@);
        }
    }
    if start >= v.len() {
        return 0;
    }
    let mut i = start;
    while i < v.len()
        invariant
            start <= i <= v.len(),
            ds == v@.skip(start as int),
            v@ == s@,
            ds == digits_part(s@),
            forall|j: int| 0 <= j < i - start ==> is_digit(#[trigger] ds[j]),
        decreases v.len() - i,
    {
        if !('0' <= v[i] && v[i] <= '9') {
            assert(ds[i - start] == v@[i as int]);
            assert(!is_digit(ds[i - start]));
            assert(ds.len() == v.len() - start);
            assert(!all_digits(ds));
            return 0;
        }
        i += 1;
    }
    let mut acc: usize = 0;
    let mut k = start;
    while k < v.len()
        invariant
            start <= k <= v.len(),
            ds == v@.skip(start as int),
            v@ == s@,
            ds.len() > 0,
            ds == digits_part(s@),
            forall|j: int| 0 <= j < ds.len() ==> is_digit(#[trigger] ds[j]),
            acc as nat == digits_value(ds.take(k - start)),
        decreases v.len() - k,
    {
        assert(is_digit(ds[k - start]));
        assert(ds[k - start] == v@[k as int]);
        let d = (v[k] as u32 - 48) as usize;
        assert(ds.take(k - start + 1).drop_last() =~= ds.take(k - start));
        assert(ds.take(k - start + 1).last() == v@[k as int]);
        if acc > (usize::MAX - d) / 10 {
            proof {
                assert(acc * 10 + d > usize::MAX) by (nonlinear_arith)
                    requires
                        acc > (usize::MAX - d) / 10,
                        d <= 9,
                ;
                lemma_digits_value_grows(ds, k - start + 1);
            }
            return 0;
        }
        proof {
            assert(acc * 10 + d <= usize::MAX) by (nonlinear_arith)
                requires
                    acc <= (usize::MAX - d) / 10,
                    d <= 9,
            ;
        }
        acc = acc * 10 + d;
        k += 1;
    }
    assert(ds.take(k - start) =~= ds);
    acc
}

/// The entries shown for a file: the filtered entries with their groups.
pub fn display_entries(entries: &[LogEntry], params: &FilterParams) -> (r: Vec<DisplayEntry>)
    requires
        forall|i: int|
            0 <= i < filter_source(entry_views(entries@), *params).len() ==> filter_defined(
                #[trigger] filter_source(entry_views(entries@), *params)[i],
                *params,
            ),
    ensures
        ({
            let kept = filter_source(entry_views(entries@), *params).filter(keep_pred(*params));
            &&& r@.len() == kept.len()
            &&& forall|i: int|
                0 <= i < r@.len() ==> {
                    &&& (#[trigger] r@[i]).entry@ == kept[i]
                    &&& r@[i].group_line == group_line_of(kept, i)
                    &&& r@[i].is_continuation == (kept[i].status.len() == 0)
                }
        }),
{
    let filtered = apply_filters(entries, params);
    let ghost kept = filtered@;
    let r = assign_groups(filtered);
    assert forall|i: int| 0 <= i < r@.len() implies (#[trigger] r@[i]).entry@ == entry_views(kept)[i] by {}
    r
}

/// The entry count in the viewer's header.
pub open spec fn entries_label_spec(count: usize, total: usize) -> Seq<char> {
    if count == total {
        decimal(count as nat) + " entries"@
    } else {
        decimal(count as nat) + " / "@ + decimal(total as nat) + " entries"@
    }
}

/// "N entries", or "N / M entries" when filters hide some.
pub fn entries_label(count: usize, total: usize) -> (r: String)
    ensures
        r@ == entries_label_spec(count, total),
{
    let mut v: Vec<char> = Vec::new();
    push_decimal(&mut v, count);
    if count != total {
        extend_str(&mut v, " / ");
        push_decimal(&mut v, total);
    }
    extend_str(&mut v, " entries");
    from_chars(&v)
}

} // verus!
