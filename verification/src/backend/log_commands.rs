//! Parsing a log text into entries.
//!
//! Each non-blank line becomes an entry.  Its whitespace-separated tokens
//! are read as: an optional timestamp (`DATE'T'TIME` in one token, or a
//! token holding `'-'` followed by one holding `':'`; never when the first
//! token is a level name), then the first token
//! that names a level once its non-alphanumeric edges are cut off and it is
//! upper-cased, and the remaining tokens as the message.

use vstd::prelude::*;
use crate::shared::types::log_entry::{entry_views, EntryView, LogEntry};
use crate::backend::types::FilterParams;
use crate::viewer::filters::apply_filters::{
    bound, build_haystack, cut_passes, cut_valid, datetime_ok, filter_by_level, from_ok,
    from_passes, fuzzy_match_spec, haystack, keep, level_ok,
};
use crate::text::{lemma_lines_add_break, lemma_lines_append, contains_sub, fuzzy_chars, has_sub, lower, lower_chars, replace_chars};
use crate::text::{
    char_pos, contains_char, extend_chars, find_char_from, from_chars, has_char, join,
    join_chars, lines, slice_chars, split_lines, split_words, strip_nonalnum,
    strip_nonalnum_chars, str_eq, to_chars, trim, trim_chars, upper, upper_chars, views, words,
};

verus! {

/// The level names that the parser recognises.
pub open spec fn status_names() -> Seq<Seq<char>> {
    seq![
        "TRACE"@,
        "DEBUG"@,
        "INFO"@,
        "WARN"@,
        "WARNING"@,
        "ERROR"@,
        "SUCCESS"@,
        "FATAL"@,
    ]
}

/// A token as compared with the level names: its non-alphanumeric edges cut
/// off, then upper-cased (ASCII).
pub open spec fn clean_token(t: Seq<char>) -> Seq<char> {
    upper(strip_nonalnum(t))
}

/// The timestamp of a line and the number of tokens it takes.
pub open spec fn datetime_of(toks: Seq<Seq<char>>) -> (Seq<char>, int) {
    if toks.len() == 0 {
        (seq![], 0)
    } else {
        let f = toks[0];
        let p = char_pos(f, 'T') as int;
        if status_names().contains(clean_token(f)) {
            (seq![], 0)
        } else if p < f.len() {
            let d = f.take(p);
            let t = f.skip(p + 1);
            if d.len() > 0 && t.len() > 0 {
                (d + seq![' '] + t, 1)
            } else {
                (seq![], 0)
            }
        } else if toks.len() >= 2 && has_char(toks[0], '-') && has_char(toks[1], ':') {
            (toks[0] + seq![' '] + toks[1], 2)
        } else {
            (seq![], 0)
        }
    }
}

/// Index of the first token at or after `i` whose cleaned form is a level.
pub open spec fn status_index(toks: Seq<Seq<char>>, i: int) -> Option<int>
    decreases toks.len() - i,
{
    if i < 0 || i >= toks.len() {
        None
    } else if status_names().contains(clean_token(toks[i])) {
        Some(i)
    } else {
        status_index(toks, i + 1)
    }
}

/// The level token found is at or after `i`, within the tokens, and names a level.
pub proof fn lemma_status_index_range(toks: Seq<Seq<char>>, i: int)
    ensures
        status_index(toks, i) matches Some(k) ==> 0 <= i <= k < toks.len() && status_names().contains(
            clean_token(toks[k]),
        ),
    decreases toks.len() - i,
{
    if 0 <= i < toks.len() && !status_names().contains(clean_token(toks[i])) {
        lemma_status_index_range(toks, i + 1);
    }
}

/// The message: the tokens from `start` on, without the level token.
pub open spec fn message_of(toks: Seq<Seq<char>>, start: int, si: Option<int>) -> Seq<char> {
    match si {
        Some(k) => join(toks.subrange(start, k) + toks.skip(k + 1), seq![' ']),
        None => join(toks.skip(start), seq![' ']),
    }
}

/// The entry read from a trimmed, non-blank line numbered `n`.
pub open spec fn line_entry(t: Seq<char>, n: int) -> EntryView {
    let toks = words(t);
    let (dt, start) = datetime_of(toks);
    let si = status_index(toks, start);
    EntryView {
        line: n,
        datetime: dt,
        status: match si {
            Some(k) => clean_token(toks[k]),
            None => seq![],
        },
        message: message_of(toks, start, si),
    }
}

/// The entries of the lines `ls`, the first of which has number `n + 1`;
/// blank lines give no entry but keep their number.
pub open spec fn parsed_lines(ls: Seq<Seq<char>>, n: int) -> Seq<EntryView>
    decreases ls.len(),
{
    if ls.len() == 0 {
        seq![]
    } else {
        let t = trim(ls[0]);
        let rest = parsed_lines(ls.drop_first(), n + 1);
        if t.len() == 0 {
            rest
        } else {
            seq![line_entry(t, n + 1)] + rest
        }
    }
}

/// The entries of a log text.
pub open spec fn parse_log_spec(text: Seq<char>) -> Seq<EntryView> {
    parsed_lines(lines(text), 0)
}

/// Timestamp of the token list and the number of tokens it takes.
pub fn extract_datetime(tokens: &Vec<Vec<char>>) -> (r: (Vec<char>, usize))
    ensures
        (r.0@, r.1 as int) == datetime_of(views(tokens@)),
        r.1 <= tokens.len(),
{
    let ghost toks = views(tokens@);
    if tokens.len() == 0 {
        return (Vec::new(), 0);
    }
    let first = &tokens[0];
    let cleaned = upper_chars(&strip_nonalnum_chars(first));
    assert(toks[0] == first@);
    if is_status_name(&cleaned) {
        return (Vec::new(), 0);
    }
    let p = find_char_from(first, 0, 'T');
    assert(first@.skip(0) =~= first@);
    assert(toks[0] == first@);
    if p < first.len() {
        let d = slice_chars(first, 0, p);
        let t = slice_chars(first, p + 1, first.len());
        assert(d@ =~= first@.take(p as int));
        assert(t@ =~= first@.skip(p + 1));
        if d.len() > 0 && t.len() > 0 {
            let mut dt = d;
            dt.push(' ');
            extend_chars(&mut dt, &t);
            return (dt, 1);
        }
        return (Vec::new(), 0);
    }
    if tokens.len() >= 2 && contains_char(&tokens[0], '-') && contains_char(&tokens[1], ':') {
        assert(toks[1] == tokens@[1]@);
        let mut dt = slice_chars(&tokens[0], 0, tokens[0].len());
        assert(dt@ =~= toks[0]);
        dt.push(' ');
        extend_chars(&mut dt, &tokens[1]);
        return (dt, 2);
    }
    (Vec::new(), 0)
}

/// Whether `v` is one of the level names.
pub fn is_status_name(v: &Vec<char>) -> (r: bool)
    ensures
        r == status_names().contains(v@),
{
    let names: [&str; 8] = ["TRACE", "DEBUG", "INFO", "WARN", "WARNING", "ERROR", "SUCCESS", "FATAL"];
    let ghost sn = status_names();
    assert(sn.len() == 8);
    let mut i: usize = 0;
    while i < 8
        invariant
            i <= 8,
            names@ == seq!["TRACE", "DEBUG", "INFO", "WARN", "WARNING", "ERROR", "SUCCESS", "FATAL"],
            sn == status_names(),
            forall|j: int| 0 <= j < i ==> sn[j] != v@,
        decreases 8 - i,
    {
        let n = to_chars(names[i]);
        assert(n@ == sn[i as int]);
        if crate::text::chars_eq(v, &n) {
            assert(sn[i as int] == v@);
            return true;
        }
        i += 1;
    }
    assert(!sn.contains(v@));
    false
}

/// The first level token at or after `start`: its cleaned text and index.
pub fn extract_status(tokens: &Vec<Vec<char>>, start: usize) -> (r: (Vec<char>, Option<usize>))
    requires
        start <= tokens.len(),
    ensures
        match status_index(views(tokens@), start as int) {
            Some(k) => r.1 == Some(k as usize) && r.0@ == clean_token(views(tokens@)[k]),
            None => r.1 is None && r.0@.len() == 0,
        },
        r.1 matches Some(k) ==> start <= k < tokens.len(),
{
    let ghost toks = views(tokens@);
    let mut i = start;
    while i < tokens.len()
        invariant
            start <= i <= tokens.len(),
            toks == views(tokens@),
            status_index(toks, start as int) == status_index(toks, i as int),
        decreases tokens.len() - i,
    {
        let stripped = strip_nonalnum_chars(&tokens[i]);
        let cleaned = upper_chars(&stripped);
        assert(toks[i as int] == tokens@[i as int]@);
        if is_status_name(&cleaned) {
            return (cleaned, Some(i));
        }
        i += 1;
    }
    (Vec::new(), None)
}

/// Appends `tokens[lo..hi]` to `acc`.
fn push_tokens(acc: &mut Vec<Vec<char>>, tokens: &Vec<Vec<char>>, lo: usize, hi: usize)
    requires
        lo <= hi <= tokens.len(),
    ensures
        views(final(acc)@) == views(old(acc)@) + views(tokens@).subrange(lo as int, hi as int),
{
    let mut i = lo;
    while i < hi
        invariant
            lo <= i <= hi <= tokens.len(),
            views(acc@) == views(old(acc)@) + views(tokens@).subrange(lo as int, i as int),
        decreases hi - i,
    {
        let ghost prev = acc@;
        let t = slice_chars(&tokens[i], 0, tokens[i].len());
        assert(t@ =~= tokens@[i as int]@);
        acc.push(t);
        assert(views(acc@) =~= views(prev).push(t@));
        assert(views(tokens@).subrange(lo as int, i + 1) =~= views(tokens@).subrange(
            lo as int,
            i as int,
        ).push(t@));
        i += 1;
    }
}

/// The message of a line: the tokens from `start` on, the level token left out.
pub fn extract_message(tokens: &Vec<Vec<char>>, start: usize, status_idx: Option<usize>) -> (r:
    Vec<char>)
    requires
        start <= tokens.len(),
        status_idx matches Some(k) ==> start <= k < tokens.len(),
    ensures
        r@ == message_of(
            views(tokens@),
            start as int,
            match status_idx {
                Some(k) => Some(k as int),
                None => None,
            },
        ),
{
    let mut kept: Vec<Vec<char>> = Vec::new();
    let ghost toks = views(tokens@);
    match status_idx {
        Some(k) => {
            push_tokens(&mut kept, tokens, start, k);
            push_tokens(&mut kept, tokens, k + 1, tokens.len());
            assert(views(kept@) =~= toks.subrange(start as int, k as int) + toks.skip(k + 1));
        },
        None => {
            push_tokens(&mut kept, tokens, start, tokens.len());
            assert(views(kept@) =~= toks.skip(start as int));
        },
    }
    let sep = vec![' '];
    assert(sep@ =~= seq![' ']);
    join_chars(&kept, &sep)
}

/// The entry of a trimmed, non-blank line with number `n`.
pub fn parse_line(t: &Vec<char>, n: usize) -> (r: LogEntry)
    ensures
        r@ == line_entry(t@, n as int),
{
    let tokens = split_words(t);
    let ghost toks = views(tokens@);
    assert(toks == words(t@));
    let (dt, start) = extract_datetime(&tokens);
    assert(datetime_of(toks).1 == start as int);
    assert(datetime_of(toks).0 == dt@);
    let (status, si) = extract_status(&tokens, start);
    let ghost gsi = status_index(toks, start as int);
    proof {
        lemma_status_index_range(toks, start as int);
    }
    assert(gsi == match si {
        Some(k) => Some(k as int),
        None => None::<int>,
    });
    let msg = extract_message(&tokens, start, si);
    let r = LogEntry {
        line: n,
        datetime: from_chars(&dt),
        status: from_chars(&status),
        message: from_chars(&msg),
    };
    assert(r@.status == match gsi {
        Some(k) => clean_token(toks[k]),
        None => Seq::<char>::empty(),
    });
    assert(r@.message == message_of(toks, start as int, gsi));
    r
}

/// Parses a log text into entries, one per non-blank line, numbered by
/// their line in the text (starting at 1).
pub fn parse_log(text: String) -> (r: Vec<LogEntry>)
    ensures
        entry_views(r@) == parse_log_spec(text@),
{
    let chars = to_chars(text.as_str());
    let ls = split_lines(&chars);
    let ghost all = views(ls@);
    let mut out: Vec<LogEntry> = Vec::new();
    let mut i: usize = 0;
    assert(all.skip(0) =~= all);
    while i < ls.len()
        invariant
            i <= ls.len(),
            all == views(ls@),
            all == lines(chars@),
            parsed_lines(all, 0) == entry_views(out@) + parsed_lines(all.skip(i as int), i as int),
        decreases ls.len() - i,
    {
        assert(all.skip(i as int).drop_first() =~= all.skip(i + 1));
        assert(all.skip(i as int)[0] == ls@[i as int]@);
        let t = trim_chars(&ls[i]);
        if t.len() > 0 {
            let ghost prev = out@;
            let e = parse_line(&t, i + 1);
            out.push(e);
            assert(entry_views(out@) =~= entry_views(prev) + seq![e@]);
        }
        i += 1;
    }
    assert(all.skip(i as int) =~= Seq::<Seq<char>>::empty());
    assert(entry_views(out@) + seq![] =~= entry_views(out@));
    out
}


/// Every parsed entry of `ls` (numbered from `n + 1`) has a number in
/// `n + 1 ..= n + ls.len()`, the numbers increase, and each level is empty
/// or a level name.
pub proof fn lemma_parsed_lines_numbering(ls: Seq<Seq<char>>, n: int)
    ensures
        forall|i: int|
            0 <= i < parsed_lines(ls, n).len() ==> n < (#[trigger] parsed_lines(ls, n)[i]).line <= n
                + ls.len(),
        forall|i: int, j: int|
            0 <= i < j < parsed_lines(ls, n).len() ==> (#[trigger] parsed_lines(ls, n)[i]).line
                < (#[trigger] parsed_lines(ls, n)[j]).line,
        forall|i: int|
            0 <= i < parsed_lines(ls, n).len() ==> {
                let st = (#[trigger] parsed_lines(ls, n)[i]).status;
                st.len() == 0 || status_names().contains(st)
            },
    decreases ls.len(),
{
    if ls.len() > 0 {
        lemma_parsed_lines_numbering(ls.drop_first(), n + 1);
        let t = trim(ls[0]);
        let rest = parsed_lines(ls.drop_first(), n + 1);
        let toks = words(t);
        lemma_status_index_range(toks, datetime_of(toks).1);
        if t.len() > 0 {
            let all = parsed_lines(ls, n);
            assert(all == seq![line_entry(t, n + 1)] + rest);
            assert forall|i: int| 0 <= i < all.len() implies n < (#[trigger] all[i]).line <= n + ls.len() by {
                if i > 0 {
                    assert(all[i] == rest[i - 1]);
                }
            }
            assert forall|i: int, j: int| 0 <= i < j < all.len() implies (#[trigger] all[i]).line
                < (#[trigger] all[j]).line by {
                assert(all[j] == rest[j - 1]);
                if i > 0 {
                    assert(all[i] == rest[i - 1]);
                }
            }
            assert forall|i: int| 0 <= i < all.len() implies {
                let st = (#[trigger] all[i]).status;
                st.len() == 0 || status_names().contains(st)
            } by {
                if i > 0 {
                    assert(all[i] == rest[i - 1]);
                }
            }
        }
    }
}

/// Law: the entries of a log text are numbered by their line (from 1, at
/// most the number of lines), in increasing order, and every level is
/// empty or one of the recognised level names.
pub proof fn lemma_parse_log_numbering(text: Seq<char>)
    ensures
        forall|i: int|
            0 <= i < parse_log_spec(text).len() ==> 1 <= (#[trigger] parse_log_spec(text)[i]).line
                <= lines(text).len(),
        forall|i: int, j: int|
            0 <= i < j < parse_log_spec(text).len() ==> (#[trigger] parse_log_spec(text)[i]).line
                < (#[trigger] parse_log_spec(text)[j]).line,
        forall|i: int|
            0 <= i < parse_log_spec(text).len() ==> {
                let st = (#[trigger] parse_log_spec(text)[i]).status;
                st.len() == 0 || status_names().contains(st)
            },
{
    lemma_parsed_lines_numbering(lines(text), 0);
}

/// The entries with every line number raised by `k`.
pub open spec fn renumbered(es: Seq<EntryView>, k: int) -> Seq<EntryView> {
    es.map_values(|e: EntryView| EntryView { line: e.line + k, ..e })
}

/// Numbering the lines from `n + k + 1` gives the entries numbered from
/// `n + 1`, each raised by `k`.
proof fn lemma_parsed_lines_shift(ls: Seq<Seq<char>>, n: int, k: int)
    ensures
        parsed_lines(ls, n + k) == renumbered(parsed_lines(ls, n), k),
    decreases ls.len(),
{
    if ls.len() > 0 {
        lemma_parsed_lines_shift(ls.drop_first(), n + 1, k);
        assert(n + k + 1 == (n + 1) + k);
        let t = trim(ls[0]);
        let rest = parsed_lines(ls.drop_first(), n + 1);
        if t.len() > 0 {
            assert(renumbered(seq![line_entry(t, n + 1)] + rest, k) =~= seq![line_entry(t, n + k + 1)]
                + renumbered(rest, k));
        }
    }
}

/// The entries of two runs of lines are those of the first, then those of
/// the second numbered on from the first.
proof fn lemma_parsed_lines_append(a: Seq<Seq<char>>, b: Seq<Seq<char>>, n: int)
    ensures
        parsed_lines(a + b, n) == parsed_lines(a, n) + parsed_lines(b, n + a.len()),
    decreases a.len(),
{
    if a.len() == 0 {
        assert(a + b =~= b);
        assert(parsed_lines(a, n) + parsed_lines(b, n) =~= parsed_lines(b, n));
    } else {
        assert((a + b)[0] == a[0]);
        assert((a + b).drop_first() =~= a.drop_first() + b);
        lemma_parsed_lines_append(a.drop_first(), b, n + 1);
        assert(n + 1 + a.drop_first().len() == n + a.len());
        let t = trim(a[0]);
        if t.len() > 0 {
            assert(parsed_lines(a + b, n) =~= parsed_lines(a, n) + parsed_lines(b, n + a.len()));
        }
    }
}

/// Law: reading a log text made of a text that ends with a line break and
/// a second text gives the entries of the first, then those of the second
/// with their line numbers raised by the number of lines of the first.
pub proof fn lemma_parse_log_concat(x: Seq<char>, y: Seq<char>)
    requires
        x.len() > 0,
        x.last() == '\n',
    ensures
        parse_log_spec(x + y) == parse_log_spec(x) + renumbered(parse_log_spec(y), lines(x).len() as int),
{
    lemma_lines_append(x, y);
    lemma_parsed_lines_append(lines(x), lines(y), 0);
    lemma_parsed_lines_shift(lines(y), 0, lines(x).len() as int);
    assert(0 + lines(x).len() == lines(x).len() as int);
}

/// Lines that are the same once trimmed give the same entries.
proof fn lemma_parsed_lines_same_trims(l1: Seq<Seq<char>>, l2: Seq<Seq<char>>, n: int)
    requires
        l1.len() == l2.len(),
        forall|i: int| 0 <= i < l1.len() ==> trim(#[trigger] l1[i]) == trim(l2[i]),
    ensures
        parsed_lines(l1, n) == parsed_lines(l2, n),
    decreases l1.len(),
{
    if l1.len() > 0 {
        assert(trim(l1[0]) == trim(l2[0]));
        assert forall|i: int| 0 <= i < l1.drop_first().len() implies trim(#[trigger] l1.drop_first()[i]) == trim(
            l2.drop_first()[i],
        ) by {
            assert(trim(l1[i + 1]) == trim(l2[i + 1]));
        }
        lemma_parsed_lines_same_trims(l1.drop_first(), l2.drop_first(), n + 1);
    }
}

/// Law: reading two log texts joined by a line break gives the entries of
/// the first, then those of the second with their line numbers raised by
/// the number of lines of the first (a first text that ends with a line
/// break is covered by `lemma_parse_log_concat`).
pub proof fn lemma_parse_log_join(a: Seq<char>, b: Seq<char>)
    requires
        a.len() > 0,
        a.last() != '\n',
    ensures
        parse_log_spec(a + seq!['\n'] + b) == parse_log_spec(a) + renumbered(parse_log_spec(b), lines(a).len() as int),
{
    let x = a + seq!['\n'];
    lemma_parse_log_concat(x, b);
    lemma_lines_add_break(a);
    lemma_parsed_lines_same_trims(lines(x), lines(a), 0);
}

// ---------------------------------------------------------------------------
// Filtering
// ---------------------------------------------------------------------------

/// The search of the `filter_entries` command: timestamp, level and message
/// are searched; an empty query keeps everything.
pub open spec fn query_ok(e: EntryView, p: FilterParams) -> bool {
    let q = p.query@;
    let h = haystack(e, true);
    q.len() == 0 || (if p.fuzzy {
        fuzzy_match_spec(h, q, p.match_case, lower(q))
    } else if p.match_case {
        has_sub(h, q)
    } else {
        has_sub(lower(h), lower(q))
    })
}

/// The filters of `filter_entries` before the upper timestamp bound pass.
pub open spec fn reaches_to_bound(e: EntryView, p: FilterParams) -> bool {
    &&& level_ok(e.status, lower(p.status@), upper(trim(p.custom_status@)))
    &&& query_ok(e, p)
    &&& from_ok(e.datetime, bound(p.from_datetime@))
}

/// Whether `filter_entries` keeps the entry.
pub open spec fn keep_entry(e: EntryView, p: FilterParams) -> bool {
    &&& level_ok(e.status, lower(p.status@), upper(trim(p.custom_status@)))
    &&& query_ok(e, p)
    &&& datetime_ok(e.datetime, bound(p.from_datetime@), bound(p.to_datetime@))
}

/// `keep_entry` as a predicate.
pub open spec fn keep_entry_pred(p: FilterParams) -> spec_fn(EntryView) -> bool {
    |e: EntryView| keep_entry(e, p)
}

/// Filters by level (`sf` lower-case selection, `cf` upper-case custom list).
pub fn filter_by_status(entry: &LogEntry, sf: &str, cf: &str) -> (r: bool)
    ensures
        r == level_ok(entry.status@, sf@, cf@),
{
    filter_by_level(entry, sf, cf)
}

/// Fuzzy search of `query` in `haystack` (ASCII case folded unless
/// `match_case`).
pub fn fuzzy_match(haystack: &str, query: &str, match_case: bool) -> (r: bool)
    ensures
        r == fuzzy_match_spec(haystack@, query@, match_case, lower(query@)),
{
    let h = to_chars(haystack);
    let q = to_chars(query);
    if match_case {
        fuzzy_chars(&h, &q)
    } else {
        let hl = lower_chars(&h);
        let ql = lower_chars(&q);
        fuzzy_chars(&hl, &ql)
    }
}

/// Filters by the search text.
pub fn filter_by_query(entry: &LogEntry, params: &FilterParams) -> (r: bool)
    ensures
        r == query_ok(entry@, *params),
{
    if params.query.as_str().is_empty() {
        return true;
    }
    let h = build_haystack(entry, true);
    if params.fuzzy {
        let hs = from_chars(&h);
        fuzzy_match(hs.as_str(), params.query.as_str(), params.match_case)
    } else if params.match_case {
        let q = to_chars(params.query.as_str());
        contains_sub(&h, &q)
    } else {
        let hl = lower_chars(&h);
        let q = to_chars(params.query.as_str());
        let ql = lower_chars(&q);
        contains_sub(&hl, &ql)
    }
}

/// Filters by timestamp range.
pub fn filter_by_datetime(entry: &LogEntry, from_bound: &str, to_bound: &str) -> (r: bool)
    requires
        from_ok(entry.datetime@, from_bound@) ==> cut_valid(entry.datetime@, to_bound@),
    ensures
        r == datetime_ok(entry.datetime@, from_bound@, to_bound@),
{
    crate::viewer::filters::apply_filters::filter_by_datetime(entry, from_bound, to_bound)
}

/// Whether `filter_entries` runs on these entries without failing: every
/// entry that reaches the upper timestamp bound can be cut to its length.
pub fn filter_entries_defined(entries: &[LogEntry], params: &FilterParams) -> (r: bool)
    ensures
        r == forall|i: int|
            0 <= i < entries@.len() && reaches_to_bound(#[trigger] entries@[i]@, *params) ==> cut_valid(
                entries@[i]@.datetime,
                bound(params.to_datetime@),
            ),
{
    let fv = to_chars(params.from_datetime.as_str());
    let from_bound = from_chars(&replace_chars(&fv, 'T', ' '));
    let tv = to_chars(params.to_datetime.as_str());
    let to_bound = from_chars(&replace_chars(&tv, 'T', ' '));
    let st = to_chars(params.status.as_str());
    let sf = from_chars(&lower_chars(&st));
    let cs = to_chars(params.custom_status.as_str());
    let cf = from_chars(&upper_chars(&trim_chars(&cs)));
    let mut i: usize = 0;
    while i < entries.len()
        invariant
            i <= entries@.len(),
            from_bound@ == bound(params.from_datetime@),
            to_bound@ == bound(params.to_datetime@),
            sf@ == lower(params.status@),
            cf@ == upper(trim(params.custom_status@)),
            forall|j: int|
                0 <= j < i && reaches_to_bound(#[trigger] entries@[j]@, *params) ==> cut_valid(
                    entries@[j]@.datetime,
                    bound(params.to_datetime@),
                ),
        decreases entries@.len() - i,
    {
        let e = &entries[i];
        let reaches = filter_by_status(e, sf.as_str(), cf.as_str()) && filter_by_query(e, params)
            && from_passes(e.datetime.as_str(), from_bound.as_str());
        if reaches && !cut_passes(e.datetime.as_str(), to_bound.as_str()) {
            return false;
        }
        i += 1;
    }
    true
}

/// The entries that pass the level, search and timestamp filters, in order.
pub fn filter_entries(entries: Vec<LogEntry>, params: FilterParams) -> (r: Vec<LogEntry>)
    requires
        forall|i: int|
            0 <= i < entries@.len() && reaches_to_bound(#[trigger] entries@[i]@, params) ==> cut_valid(
                entries@[i]@.datetime,
                bound(params.to_datetime@),
            ),
    ensures
        entry_views(r@) == entry_views(entries@).filter(keep_entry_pred(params)),
{
    let fv = to_chars(params.from_datetime.as_str());
    let from_bound = from_chars(&replace_chars(&fv, 'T', ' '));
    let tv = to_chars(params.to_datetime.as_str());
    let to_bound = from_chars(&replace_chars(&tv, 'T', ' '));
    let st = to_chars(params.status.as_str());
    let sf = from_chars(&lower_chars(&st));
    let cs = to_chars(params.custom_status.as_str());
    let cf = from_chars(&upper_chars(&trim_chars(&cs)));
    let ghost es = entry_views(entries@);
    let ghost pred = keep_entry_pred(params);
    let mut out: Vec<LogEntry> = Vec::new();
    let mut i: usize = 0;
    while i < entries.len()
        invariant
            i <= entries@.len(),
            es == entry_views(entries@),
            pred == keep_entry_pred(params),
            forall|j: int|
                0 <= j < entries@.len() && reaches_to_bound(#[trigger] entries@[j]@, params)
                    ==> cut_valid(entries@[j]@.datetime, bound(params.to_datetime@)),
            from_bound@ == bound(params.from_datetime@),
            to_bound@ == bound(params.to_datetime@),
            sf@ == lower(params.status@),
            cf@ == upper(trim(params.custom_status@)),
            entry_views(out@) == es.take(i as int).filter(pred),
        decreases entries@.len() - i,
    {
        let e = &entries[i];
        let ghost ev = e@;
        assert(es[i as int] == ev);
        assert(es.take(i + 1).drop_last() =~= es.take(i as int));
        let keep_it = filter_by_status(e, sf.as_str(), cf.as_str()) && filter_by_query(e, &params)
            && filter_by_datetime(e, from_bound.as_str(), to_bound.as_str());
        assert(keep_it == keep_entry(ev, params));
        assert(pred(ev) == keep_entry(ev, params));
        assert(es.take(i + 1).last() == ev);
        proof {
            reveal_with_fuel(Seq::<_>::filter, 1);
        }
        let ghost prev = out@;
        if keep_it {
            out.push(e.duplicate());
            assert(entry_views(out@) =~= entry_views(prev).push(ev));
        }
        i += 1;
    }
    assert(es.take(i as int) =~= es);
    out
}

/// Law: the `filter_entries` command and the viewer's filters apply the
/// same rule when the viewer uses the same level, search and timestamp
/// settings, searches the timestamp too, and sets nothing else.
pub proof fn lemma_command_filter_matches_viewer(
    e: EntryView,
    bp: FilterParams,
    vp: crate::viewer::types::FilterParams,
)
    requires
        vp.status@ == bp.status@,
        vp.custom_status@ == bp.custom_status@,
        vp.query@ == bp.query@,
        vp.match_case == bp.match_case,
        vp.fuzzy == bp.fuzzy,
        vp.from_datetime@ == bp.from_datetime@,
        vp.to_datetime@ == bp.to_datetime@,
        !vp.invert_match,
        !vp.regex_mode,
        vp.search_in_datetime,
        vp.line_from == 0,
        vp.line_to == 0,
        !vp.hide_no_level,
        vp.min_severity@ == "all"@,
    ensures
        keep(e, vp) == keep_entry(e, bp),
{
}

} // verus!
