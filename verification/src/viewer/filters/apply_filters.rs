//! Applying the viewer's filters to the entries of a file.
//!
//! An entry is kept when it passes, in this order: the level filter, the
//! minimum-severity filter, the "hide lines without a level" switch, the
//! search (plain, fuzzy or by regular expression, case-sensitive or not,
//! possibly inverted), the timestamp range and the line range.  When levels
//! are inherited, continuation lines are first given the level in force.

use vstd::prelude::*;
use vstd::utf8::{encode_utf8, is_char_boundary};
use crate::components::severity::{is_lit, severity_rank, severity_rank_spec};
use crate::shared::types::log_entry::{entry_views, EntryView, LogEntry};
use crate::text::{
    contains_sub, extend_chars, fuzzy, fuzzy_chars, has_sub, lower, lower_chars, prefix_lt,
    replace_char, replace_chars, split_at_char, split_char, to_chars, trim, trim_chars, upper,
    upper_chars, views, bytes_lt, from_chars, chars_eq,
};
use crate::viewer::filters::level_propagation::{propagate_levels, propagated};
use crate::viewer::filters::pattern::{regex_find, regex_match};
use crate::viewer::types::FilterParams;

verus! {

// ---------------------------------------------------------------------------
// The individual filters
// ---------------------------------------------------------------------------

/// The level filter.  `sf` is the selected level in lower case, `cf` the
/// custom list trimmed and in upper case.
pub open spec fn level_ok(status: Seq<char>, sf: Seq<char>, cf: Seq<char>) -> bool {
    if sf == "all"@ {
        true
    } else {
        let es = upper(status);
        if sf == "custom"@ {
            cf.len() == 0 || exists|i: int|
                0 <= i < split_char(cf, ',').len() && #[trigger] trim(split_char(cf, ',')[i]) == es
        } else if sf == "warn"@ {
            es == "WARN"@ || es == "WARNING"@
        } else {
            es == upper(sf)
        }
    }
}

/// The minimum-severity filter: lines without a level always pass.
pub open spec fn severity_ok(status: Seq<char>, min_severity: Seq<char>, min_rank: int) -> bool {
    min_severity == "all"@ || status.len() == 0 || severity_rank_spec(status) as int >= min_rank
}

/// The text searched in an entry.
pub open spec fn haystack(e: EntryView, in_datetime: bool) -> Seq<char> {
    if in_datetime {
        e.datetime + seq![' '] + e.status + seq![' '] + e.message
    } else {
        e.status + seq![' '] + e.message
    }
}

/// Fuzzy search: with `match_case` the query as given, otherwise the
/// lower-cased query `query_lower` in the lower-cased text.
pub open spec fn fuzzy_match_spec(h: Seq<char>, q: Seq<char>, match_case: bool, query_lower: Seq<char>) -> bool {
    if match_case {
        fuzzy(q, h)
    } else {
        fuzzy(query_lower, lower(h))
    }
}

/// Whether the search finds the query in the entry (before inversion).
pub open spec fn search_matches(e: EntryView, p: FilterParams, query_lower: Seq<char>) -> bool {
    let h = haystack(e, p.search_in_datetime);
    if p.fuzzy {
        fuzzy_match_spec(h, p.query@, p.match_case, query_lower)
    } else if p.regex_mode {
        if p.match_case {
            regex_match(p.query@, h)
        } else {
            regex_match(query_lower, lower(h))
        }
    } else if p.match_case {
        has_sub(h, p.query@)
    } else {
        has_sub(lower(h), query_lower)
    }
}

/// The search filter: an empty query keeps everything.
pub open spec fn search_ok(e: EntryView, p: FilterParams, query_lower: Seq<char>) -> bool {
    p.query@.len() == 0 || (if p.invert_match {
        !search_matches(e, p, query_lower)
    } else {
        search_matches(e, p, query_lower)
    })
}

/// Lower timestamp bound: a timestamp below `from` (in byte order) fails.
pub open spec fn from_ok(dt: Seq<char>, from: Seq<char>) -> bool {
    !(from.len() > 0 && dt.len() > 0 && bytes_lt(encode_utf8(dt), encode_utf8(from)))
}

/// Number of bytes of the timestamp compared with the upper bound.
pub open spec fn cut_len(dt: Seq<char>, to: Seq<char>) -> int {
    if encode_utf8(dt).len() <= encode_utf8(to).len() {
        encode_utf8(dt).len() as int
    } else {
        encode_utf8(to).len() as int
    }
}

/// Upper timestamp bound: the timestamp cut to the bound's length must not
/// be above the bound.
pub open spec fn to_ok(dt: Seq<char>, to: Seq<char>) -> bool {
    !(to.len() > 0 && dt.len() > 0 && bytes_lt(encode_utf8(to), encode_utf8(dt).take(cut_len(dt, to))))
}

/// The timestamp filter.
pub open spec fn datetime_ok(dt: Seq<char>, from: Seq<char>, to: Seq<char>) -> bool {
    from_ok(dt, from) && to_ok(dt, to)
}

/// The cut of the timestamp falls on a character boundary (else slicing
/// the timestamp there panics).
pub open spec fn cut_valid(dt: Seq<char>, to: Seq<char>) -> bool {
    (to.len() > 0 && dt.len() > 0) ==> is_char_boundary(encode_utf8(dt), cut_len(dt, to))
}

/// The line-range filter (a bound of 0 is no bound).
pub open spec fn line_ok(line: int, from: int, to: int) -> bool {
    !(from > 0 && line < from) && !(to > 0 && line > to)
}

/// The timestamp bounds as compared: `'T'` replaced by a space.
pub open spec fn bound(s: Seq<char>) -> Seq<char> {
    replace_char(s, 'T', ' ')
}

/// The filters before the upper timestamp bound all pass.
pub open spec fn reaches_to_bound(e: EntryView, p: FilterParams) -> bool {
    &&& level_ok(e.status, lower(p.status@), upper(trim(p.custom_status@)))
    &&& severity_ok(e.status, p.min_severity@, severity_rank_spec(p.min_severity@) as int)
    &&& !(p.hide_no_level && e.status.len() == 0)
    &&& search_ok(e, p, lower(p.query@))
    &&& from_ok(e.datetime, bound(p.from_datetime@))
}

/// Whether the entry is kept.
pub open spec fn keep(e: EntryView, p: FilterParams) -> bool {
    &&& reaches_to_bound(e, p)
    &&& to_ok(e.datetime, bound(p.to_datetime@))
    &&& line_ok(e.line, p.line_from as int, p.line_to as int)
}

/// `keep` as a predicate.
pub open spec fn keep_pred(p: FilterParams) -> spec_fn(EntryView) -> bool {
    |e: EntryView| keep(e, p)
}

/// Filtering does not panic on this entry.
pub open spec fn filter_defined(e: EntryView, p: FilterParams) -> bool {
    reaches_to_bound(e, p) ==> cut_valid(e.datetime, bound(p.to_datetime@))
}

/// The entries that the filters see.
pub open spec fn filter_source(es: Seq<EntryView>, p: FilterParams) -> Seq<EntryView> {
    if p.inherit_level {
        propagated(es)
    } else {
        es
    }
}

/// Filters by level.
pub fn filter_by_level(entry: &LogEntry, status_filter: &str, custom_filter: &str) -> (r: bool)
    ensures
        r == level_ok(entry.status@, status_filter@, custom_filter@),
{
    let sf = to_chars(status_filter);
    if is_lit(&sf, "all") {
        return true;
    }
    let st = to_chars(entry.status.as_str());
    let es = upper_chars(&st);
    if is_lit(&sf, "custom") {
        let cf = to_chars(custom_filter);
        if cf.len() == 0 {
            return true;
        }
        let pieces = split_at_char(&cf, ',');
        let ghost ps = split_char(cf@, ',');
        let mut i: usize = 0;
        while i < pieces.len()
            invariant
                i <= pieces.len(),
                views(pieces@) == ps,
                ps == split_char(custom_filter@, ','),
                status_filter@ != "all"@,
                status_filter@ == "custom"@,
                custom_filter@.len() != 0,
                es@ == upper(entry.status@),
                forall|j: int| 0 <= j < i ==> #[trigger] trim(ps[j]) != es@,
            decreases pieces.len() - i,
        {
            let t = trim_chars(&pieces[i]);
            assert(ps[i as int] == pieces@[i as int]@);
            if chars_eq(&t, &es) {
                assert(ps.len() == pieces@.len());
                assert(trim(split_char(custom_filter@, ',')[i as int]) == upper(entry.status@));
                assert(exists|k: int|
                    0 <= k < split_char(custom_filter@, ',').len() && #[trigger] trim(
                        split_char(custom_filter@, ',')[k],
                    ) == upper(entry.status@));
                return true;
            }
            i += 1;
        }
        return false;
    }
    if is_lit(&sf, "warn") {
        return is_lit(&es, "WARN") || is_lit(&es, "WARNING");
    }
    let su = upper_chars(&sf);
    chars_eq(&es, &su)
}

/// Filters by minimum severity.
pub fn filter_by_severity(entry: &LogEntry, min_severity: &str, min_rank: i32) -> (r: bool)
    ensures
        r == severity_ok(entry.status@, min_severity@, min_rank as int),
{
    let ms = to_chars(min_severity);
    if is_lit(&ms, "all") || entry.status.as_str().is_empty() {
        return true;
    }
    severity_rank(entry.status.as_str()) as i32 >= min_rank
}

/// The search text of an entry.
pub fn build_haystack(entry: &LogEntry, in_datetime: bool) -> (r: Vec<char>)
    ensures
        r@ == haystack(entry@, in_datetime),
{
    let mut h: Vec<char> = Vec::new();
    if in_datetime {
        let d = to_chars(entry.datetime.as_str());
        extend_chars(&mut h, &d);
        h.push(' ');
    }
    let s = to_chars(entry.status.as_str());
    extend_chars(&mut h, &s);
    h.push(' ');
    let m = to_chars(entry.message.as_str());
    extend_chars(&mut h, &m);
    h
}

/// Fuzzy search of `query` in `haystack`.
pub fn fuzzy_match(haystack: &str, query: &str, match_case: bool, query_lower: &str) -> (r: bool)
    ensures
        r == fuzzy_match_spec(haystack@, query@, match_case, query_lower@),
{
    let h = to_chars(haystack);
    if match_case {
        let q = to_chars(query);
        fuzzy_chars(&h, &q)
    } else {
        let hl = lower_chars(&h);
        let ql = to_chars(query_lower);
        fuzzy_chars(&hl, &ql)
    }
}

/// Filters by the search text.
pub fn filter_by_search(entry: &LogEntry, params: &FilterParams, query_lower: &str) -> (r: bool)
    ensures
        r == search_ok(entry@, *params, query_lower@),
{
    if params.query.as_str().is_empty() {
        return true;
    }
    let h = build_haystack(entry, params.search_in_datetime);
    let matched = if params.fuzzy {
        let hs = from_chars(&h);
        fuzzy_match(hs.as_str(), params.query.as_str(), params.match_case, query_lower)
    } else if params.regex_mode {
        if params.match_case {
            let q = to_chars(params.query.as_str());
            regex_find(&q, &h)
        } else {
            let hl = lower_chars(&h);
            let ql = to_chars(query_lower);
            regex_find(&ql, &hl)
        }
    } else if params.match_case {
        let q = to_chars(params.query.as_str());
        contains_sub(&h, &q)
    } else {
        let hl = lower_chars(&h);
        let ql = to_chars(query_lower);
        contains_sub(&hl, &ql)
    };
    if params.invert_match {
        !matched
    } else {
        matched
    }
}

/// Filters by timestamp range (`from_bound`, `to_bound` already have `'T'`
/// replaced by a space).
pub fn filter_by_datetime(entry: &LogEntry, from_bound: &str, to_bound: &str) -> (r: bool)
    requires
        from_ok(entry.datetime@, from_bound@) ==> cut_valid(entry.datetime@, to_bound@),
    ensures
        r == datetime_ok(entry.datetime@, from_bound@, to_bound@),
{
    let dt = entry.datetime.as_str();
    let db = dt.as_bytes();
    let fb = from_bound.as_bytes();
    let tb = to_bound.as_bytes();
    assert(db@.take(db@.len() as int) =~= db@);
    assert(fb@.take(fb@.len() as int) =~= fb@);
    assert(tb@.take(tb@.len() as int) =~= tb@);
    if !from_bound.is_empty() && !dt.is_empty() && prefix_lt(db, db.len(), fb, fb.len()) {
        return false;
    }
    if !to_bound.is_empty() && !dt.is_empty() {
        let cut = if db.len() <= tb.len() {
            db.len()
        } else {
            tb.len()
        };
        if prefix_lt(tb, tb.len(), db, cut) {
            return false;
        }
    }
    true
}

/// Whether the timestamp passes the lower bound.
pub(crate) fn from_passes(dt: &str, from_bound: &str) -> (r: bool)
    ensures
        r == from_ok(dt@, from_bound@),
{
    let db = dt.as_bytes();
    let fb = from_bound.as_bytes();
    assert(db@.take(db@.len() as int) =~= db@);
    assert(fb@.take(fb@.len() as int) =~= fb@);
    !(!from_bound.is_empty() && !dt.is_empty() && prefix_lt(db, db.len(), fb, fb.len()))
}

/// Whether the timestamp can be cut to the length of the upper bound.
pub(crate) fn cut_passes(dt: &str, to_bound: &str) -> (r: bool)
    ensures
        r == cut_valid(dt@, to_bound@),
{
    if to_bound.is_empty() || dt.is_empty() {
        return true;
    }
    let db = dt.as_bytes();
    let tb = to_bound.as_bytes();
    let cut = if db.len() <= tb.len() {
        db.len()
    } else {
        tb.len()
    };
    assert(cut as int == cut_len(dt@, to_bound@));
    dt.is_char_boundary(cut)
}

/// Filters by line range.
pub fn filter_by_line_range(entry: &LogEntry, line_from: usize, line_to: usize) -> (r: bool)
    ensures
        r == line_ok(entry.line as int, line_from as int, line_to as int),
{
    if line_from > 0 && entry.line < line_from {
        return false;
    }
    if line_to > 0 && entry.line > line_to {
        return false;
    }
    true
}

/// A copy of `s` with `'T'` replaced by a space.
fn bound_of(s: &str) -> (r: String)
    ensures
        r@ == bound(s@),
{
    let v = to_chars(s);
    let w = replace_chars(&v, 'T', ' ');
    from_chars(&w)
}

/// The entries of `src` that pass all the filters, in order.
fn filter_all(src: &[LogEntry], params: &FilterParams) -> (r: Vec<LogEntry>)
    requires
        forall|i: int| 0 <= i < src@.len() ==> filter_defined(#[trigger] src@[i]@, *params),
    ensures
        entry_views(r@) == entry_views(src@).filter(keep_pred(*params)),
{
    let from_bound = bound_of(params.from_datetime.as_str());
    let to_bound = bound_of(params.to_datetime.as_str());
    let st = to_chars(params.status.as_str());
    let sfv = lower_chars(&st);
    let status_filter = from_chars(&sfv);
    let cs = to_chars(params.custom_status.as_str());
    let ct = trim_chars(&cs);
    let cfv = upper_chars(&ct);
    let custom_filter = from_chars(&cfv);
    let qv = to_chars(params.query.as_str());
    let qlv = lower_chars(&qv);
    let query_lower = from_chars(&qlv);
    let min_rank = severity_rank(params.min_severity.as_str()) as i32;
    let ghost es = entry_views(src@);
    let ghost pred = keep_pred(*params);
    let mut out: Vec<LogEntry> = Vec::new();
    let mut i: usize = 0;
    while i < src.len()
        invariant
            i <= src@.len(),
            es == entry_views(src@),
            pred == keep_pred(*params),
            forall|j: int| 0 <= j < src@.len() ==> filter_defined(#[trigger] src@[j]@, *params),
            from_bound@ == bound(params.from_datetime@),
            to_bound@ == bound(params.to_datetime@),
            status_filter@ == lower(params.status@),
            custom_filter@ == upper(trim(params.custom_status@)),
            query_lower@ == lower(params.query@),
            min_rank as int == severity_rank_spec(params.min_severity@) as int,
            entry_views(out@) == es.take(i as int).filter(pred),
        decreases src@.len() - i,
    {
        let e = &src[i];
        let ghost ev = e@;
        assert(es[i as int] == ev);
        assert(es.take(i + 1).drop_last() =~= es.take(i as int));
        assert(filter_defined(src@[i as int]@, *params));
        let keep_it = filter_by_level(e, status_filter.as_str(), custom_filter.as_str())
            && filter_by_severity(e, params.min_severity.as_str(), min_rank)
            && !(params.hide_no_level && e.status.as_str().is_empty())
            && filter_by_search(e, params, query_lower.as_str())
            && filter_by_datetime(e, from_bound.as_str(), to_bound.as_str())
            && filter_by_line_range(e, params.line_from, params.line_to);
        assert(keep_it == keep(ev, *params));
        assert(pred(ev) == keep(ev, *params));
        let ghost prev = out@;
        assert(es.take(i + 1).last() == ev);
        proof {
            reveal_with_fuel(Seq::<_>::filter, 1);
        }
        assert(es.take(i + 1).filter(pred) == if pred(ev) {
            es.take(i as int).filter(pred).push(ev)
        } else {
            es.take(i as int).filter(pred)
        });
        if keep_it {
            out.push(e.duplicate());
            assert(entry_views(out@) =~= entry_views(prev).push(ev));
        }
        i += 1;
    }
    assert(es.take(i as int) =~= es);
    out
}

/// Whether the filters run on these entries without failing: every entry
/// that reaches the upper timestamp bound can be cut to its length.
pub fn filters_defined(entries: &[LogEntry], params: &FilterParams) -> (r: bool)
    ensures
        r == forall|i: int|
            0 <= i < filter_source(entry_views(entries@), *params).len() ==> filter_defined(
                #[trigger] filter_source(entry_views(entries@), *params)[i],
                *params,
            ),
{
    let owned: Vec<LogEntry> = if params.inherit_level {
        propagate_levels(entries)
    } else {
        let mut v: Vec<LogEntry> = Vec::new();
        let mut k: usize = 0;
        while k < entries.len()
            invariant
                k <= entries@.len(),
                entry_views(v@) =~= entry_views(entries@).take(k as int),
            decreases entries@.len() - k,
        {
            let ghost prev = v@;
            v.push(entries[k].duplicate());
            assert(entry_views(v@) =~= entry_views(prev).push(entries@[k as int]@));
            assert(entry_views(entries@).take(k + 1) =~= entry_views(entries@).take(k as int).push(
                entries@[k as int]@,
            ));
            k += 1;
        }
        v
    };
    let ghost src = filter_source(entry_views(entries@), *params);
    assert(entry_views(owned@) =~= src);
    let from_bound = bound_of(params.from_datetime.as_str());
    let to_bound = bound_of(params.to_datetime.as_str());
    let st = to_chars(params.status.as_str());
    let status_filter = from_chars(&lower_chars(&st));
    let cs = to_chars(params.custom_status.as_str());
    let custom_filter = from_chars(&upper_chars(&trim_chars(&cs)));
    let qv = to_chars(params.query.as_str());
    let query_lower = from_chars(&lower_chars(&qv));
    let min_rank = severity_rank(params.min_severity.as_str()) as i32;
    let mut i: usize = 0;
    while i < owned.len()
        invariant
            i <= owned@.len(),
            entry_views(owned@) == src,
            src == filter_source(entry_views(entries@), *params),
            from_bound@ == bound(params.from_datetime@),
            to_bound@ == bound(params.to_datetime@),
            status_filter@ == lower(params.status@),
            custom_filter@ == upper(trim(params.custom_status@)),
            query_lower@ == lower(params.query@),
            min_rank as int == severity_rank_spec(params.min_severity@) as int,
            forall|j: int| 0 <= j < i ==> filter_defined(#[trigger] src[j], *params),
        decreases owned@.len() - i,
    {
        let e = &owned[i];
        assert(src[i as int] == e@);
        let reaches = filter_by_level(e, status_filter.as_str(), custom_filter.as_str())
            && filter_by_severity(e, params.min_severity.as_str(), min_rank)
            && !(params.hide_no_level && e.status.as_str().is_empty())
            && filter_by_search(e, params, query_lower.as_str())
            && from_passes(e.datetime.as_str(), from_bound.as_str());
        assert(reaches == reaches_to_bound(e@, *params));
        if reaches && !cut_passes(e.datetime.as_str(), to_bound.as_str()) {
            assert(!filter_defined(src[i as int], *params));
            return false;
        }
        i += 1;
    }
    true
}

/// Applies all the filters to the entries, after propagating levels to
/// continuation lines when `inherit_level` is set.
pub fn apply_filters(entries: &[LogEntry], params: &FilterParams) -> (r: Vec<LogEntry>)
    requires
        forall|i: int|
            0 <= i < filter_source(entry_views(entries@), *params).len() ==> filter_defined(
                #[trigger] filter_source(entry_views(entries@), *params)[i],
                *params,
            ),
    ensures
        entry_views(r@) == filter_source(entry_views(entries@), *params).filter(keep_pred(*params)),
{
    if params.inherit_level {
        let owned = propagate_levels(entries);
        let ghost src = filter_source(entry_views(entries@), *params);
        assert(src == entry_views(owned@));
        assert forall|i: int| 0 <= i < owned@.len() implies filter_defined(
            #[trigger] owned@[i]@,
            *params,
        ) by {
            assert(owned@[i]@ == entry_views(owned@)[i]);
            assert(filter_defined(src[i], *params));
        }
        filter_all(owned.as_slice(), params)
    } else {
        let ghost src = filter_source(entry_views(entries@), *params);
        assert(src == entry_views(entries@));
        assert forall|i: int| 0 <= i < entries@.len() implies filter_defined(
            #[trigger] entries@[i]@,
            *params,
        ) by {
            assert(entries@[i]@ == entry_views(entries@)[i]);
            assert(filter_defined(src[i], *params));
        }
        filter_all(entries, params)
    }
}

/// Filtering with a predicate that every element meets keeps everything.
pub proof fn lemma_filter_keeps_all(s: Seq<EntryView>, pred: spec_fn(EntryView) -> bool)
    requires
        forall|i: int| 0 <= i < s.len() ==> pred(#[trigger] s[i]),
    ensures
        s.filter(pred) == s,
    decreases s.len(),
{
    reveal_with_fuel(Seq::<_>::filter, 1);
    if s.len() > 0 {
        assert forall|i: int| 0 <= i < s.drop_last().len() implies pred(#[trigger] s.drop_last()[i]) by {
            assert(s.drop_last()[i] == s[i]);
        }
        lemma_filter_keeps_all(s.drop_last(), pred);
        assert(pred(s[s.len() - 1]));
        assert(s.drop_last().push(s.last()) =~= s);
    }
}

/// The settings under which no filter is active.
pub open spec fn no_filter_set(p: FilterParams) -> bool {
    &&& p.status@ == "all"@
    &&& !p.inherit_level
    &&& p.query@.len() == 0
    &&& p.from_datetime@.len() == 0
    &&& p.to_datetime@.len() == 0
    &&& p.line_from == 0
    &&& p.line_to == 0
    &&& !p.hide_no_level
    &&& p.min_severity@ == "all"@
}

/// Law: with no filter set, every entry is shown, in its order, and
/// filtering cannot fail.
pub proof fn lemma_no_filter_keeps_all(es: Seq<EntryView>, p: FilterParams)
    requires
        no_filter_set(p),
    ensures
        forall|i: int| 0 <= i < filter_source(es, p).len() ==> filter_defined(#[trigger] filter_source(es, p)[i], p),
        filter_source(es, p).filter(keep_pred(p)) == es,
{
    reveal_strlit("all");
    assert(lower("all"@) =~= "all"@);
    assert(bound(p.from_datetime@).len() == 0);
    assert(bound(p.to_datetime@).len() == 0);
    assert forall|i: int| 0 <= i < es.len() implies (keep_pred(p))(#[trigger] es[i]) by {}
    lemma_filter_keeps_all(es, keep_pred(p));
}

/// Law: the search can be inverted: with a non-empty query an entry passes
/// the inverted search exactly when it fails the plain one.
pub proof fn lemma_invert_search(e: EntryView, p: FilterParams, q: FilterParams, ql: Seq<char>)
    requires
        p.query@.len() > 0,
        q.query == p.query,
        q.fuzzy == p.fuzzy,
        q.regex_mode == p.regex_mode,
        q.match_case == p.match_case,
        q.search_in_datetime == p.search_in_datetime,
        q.invert_match == !p.invert_match,
    ensures
        search_ok(e, q, ql) == !search_ok(e, p, ql),
{
}


/// Filtering by `b` or by `c` keeps the same as filtering by `a` first,
/// and when `a` holds exactly one of `b` and `c` holds, the two filtered
/// sequences together are as long as the one filtered by `a`.
pub proof fn lemma_filter_split(
    s: Seq<EntryView>,
    a: spec_fn(EntryView) -> bool,
    b: spec_fn(EntryView) -> bool,
    c: spec_fn(EntryView) -> bool,
)
    requires
        forall|e: EntryView| #[trigger] b(e) ==> a(e),
        forall|e: EntryView| #[trigger] c(e) ==> a(e),
        forall|e: EntryView| #[trigger] a(e) ==> (b(e) != c(e)),
    ensures
        s.filter(b) == s.filter(a).filter(b),
        s.filter(c) == s.filter(a).filter(c),
        s.filter(b).len() + s.filter(c).len() == s.filter(a).len(),
    decreases s.len(),
{
    reveal_with_fuel(Seq::<_>::filter, 2);
    if s.len() > 0 {
        let t = s.drop_last();
        let x = s.last();
        lemma_filter_split(t, a, b, c);
        if a(x) {
            assert(s.filter(a) == t.filter(a).push(x));
            assert(s.filter(a).drop_last() =~= t.filter(a));
            assert(s.filter(a).last() == x);
        } else {
            assert(s.filter(a) == t.filter(a));
        }
    }
}

/// Law: a search and the same search inverted split the entries that the
/// other filters keep: each such entry is kept by exactly one of the two,
/// and each keeps its entries in their order.
pub proof fn lemma_search_partition(es: Seq<EntryView>, p: FilterParams, p_inv: FilterParams, p_all: FilterParams)
    requires
        p.query@.len() > 0,
        p_inv == (FilterParams { invert_match: !p.invert_match, ..p }),
        p_all == (FilterParams { query: p_all.query, ..p }),
        p_all.query@.len() == 0,
    ensures
        filter_source(es, p).filter(keep_pred(p)) == filter_source(es, p_all).filter(keep_pred(p_all)).filter(
            keep_pred(p),
        ),
        filter_source(es, p_inv).filter(keep_pred(p_inv)) == filter_source(es, p_all).filter(
            keep_pred(p_all),
        ).filter(keep_pred(p_inv)),
        filter_source(es, p).filter(keep_pred(p)).len() + filter_source(es, p_inv).filter(keep_pred(p_inv)).len()
            == filter_source(es, p_all).filter(keep_pred(p_all)).len(),
        forall|e: EntryView| #[trigger] keep(e, p_all) ==> (keep(e, p) != keep(e, p_inv)),
{
    assert forall|e: EntryView| #[trigger] keep(e, p_all) ==> (keep(e, p) != keep(e, p_inv)) by {
        lemma_invert_search(e, p, p_inv, lower(p.query@));
    }
    assert forall|e: EntryView| #[trigger] (keep_pred(p))(e) ==> (keep_pred(p_all))(e) by {}
    assert forall|e: EntryView| #[trigger] (keep_pred(p_inv))(e) ==> (keep_pred(p_all))(e) by {}
    assert forall|e: EntryView| #[trigger] (keep_pred(p_all))(e) ==> ((keep_pred(p))(e) != (keep_pred(p_inv))(e)) by {
        if keep(e, p_all) {
            lemma_invert_search(e, p, p_inv, lower(p.query@));
        }
    }
    lemma_filter_split(filter_source(es, p), keep_pred(p_all), keep_pred(p), keep_pred(p_inv));
}

} // verus!
