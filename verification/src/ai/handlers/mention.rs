//! `@file` mentions: when the text being typed ends in `@name`, the open
//! files whose short name contains `name` (case-insensitively) are offered.

use vstd::prelude::*;
use crate::shared::types::log_file::{last_component, short_name_of, LogFile};
use crate::text::{
    lower,
    contains_sub, from_chars, has_sub, is_whitespace, is_ws, slice_chars, str_eq, to_chars,
    trim_end,
};

verus! {

/// Unicode lower case of a text (what `str::to_lowercase` returns).
pub uninterp spec fn lowercase(s: Seq<char>) -> Seq<char>;

/// `str::to_lowercase`.  The contract names the result `lowercase(s@)`
/// and states what it is on ASCII text: each letter `A`-`Z` becomes its
/// lower-case form, everything else is kept.  The Unicode case tables
/// behind other characters are not restated.
#[verifier::external_body]
pub(crate) fn to_lowercase(s: &str) -> (r: String)
    ensures
        r@ == lowercase(s@),
        (forall|i: int| 0 <= i < s@.len() ==> (#[trigger] s@[i] as u32) < 128) ==> r@ == lower(s@),
{
    s.to_lowercase()
}

/// Position of the last `c` in `s`.
pub open spec fn last_pos(s: Seq<char>, c: char) -> Option<int>
    decreases s.len(),
{
    if s.len() == 0 {
        None
    } else if s.last() == c {
        Some(s.len() - 1)
    } else {
        last_pos(s.drop_last(), c)
    }
}

/// `last_pos` finds the last occurrence, or reports that there is none.
pub proof fn lemma_last_pos(s: Seq<char>, c: char)
    ensures
        last_pos(s, c) matches Some(k) ==> 0 <= k < s.len() && s[k] == c && forall|j: int|
            k < j < s.len() ==> s[j] != c,
        last_pos(s, c) is None ==> forall|j: int| 0 <= j < s.len() ==> s[j] != c,
    decreases s.len(),
{
    if s.len() > 0 && s.last() != c {
        lemma_last_pos(s.drop_last(), c);
        assert forall|j: int| 0 <= j < s.len() - 1 implies s.drop_last()[j] == s[j] by {}
    }
}

/// Whether `s` holds a whitespace character.
pub open spec fn has_ws(s: Seq<char>) -> bool {
    exists|j: int| 0 <= j < s.len() && is_ws(#[trigger] s[j])
}

/// The text typed after the last `@`, when that `@` starts a word and
/// nothing typed after it is whitespace.
pub open spec fn mention_query(val: Seq<char>) -> Option<Seq<char>> {
    match last_pos(val, '@') {
        None => None,
        Some(k) => {
            let after = val.skip(k + 1);
            if (k == 0 || is_ws(val[k - 1])) && !has_ws(after) {
                Some(after)
            } else {
                None
            }
        },
    }
}

/// The character before the last `@` is one byte long (the byte slice
/// taken before it is otherwise not on a character boundary).
pub open spec fn mention_defined(val: Seq<char>) -> bool {
    match last_pos(val, '@') {
        Some(k) => k > 0 ==> (val[k - 1] as u32) < 128,
        None => true,
    }
}

/// The names of `names` whose lower-cased form (the same position of
/// `lowered`) contains `q`; every name when `q` is empty.
pub open spec fn picked(names: Seq<Seq<char>>, lowered: Seq<Seq<char>>, q: Seq<char>) -> Seq<Seq<char>>
    decreases names.len(),
{
    if names.len() == 0 || lowered.len() != names.len() {
        seq![]
    } else {
        let rest = picked(names.drop_last(), lowered.drop_last(), q);
        if q.len() == 0 || has_sub(lowered.last(), q) {
            rest.push(names.last())
        } else {
            rest
        }
    }
}

/// The short names of the files (the text after the last `'/'` or `'\'`).
pub open spec fn short_names(files: Seq<LogFile>) -> Seq<Seq<char>> {
    files.map_values(|f: LogFile| last_component(f.name@))
}

/// The short names of the files that match the lower-cased query `q`.
pub open spec fn suggestions_spec(files: Seq<LogFile>, q: Seq<char>) -> Seq<Seq<char>> {
    picked(short_names(files), short_names(files).map_values(|n: Seq<char>| lowercase(n)), q)
}

/// The views of a list of strings.
pub open spec fn string_views(v: Seq<String>) -> Seq<Seq<char>> {
    v.map_values(|s: String| s@)
}

/// The mentioned files once `f` is picked: unchanged when it is there,
/// else `f` added at the end.
pub open spec fn with_mention(v: Seq<Seq<char>>, f: Seq<char>) -> Seq<Seq<char>> {
    if v.contains(f) {
        v
    } else {
        v.push(f)
    }
}

/// Law: picking a suggestion never mentions a file twice.
pub proof fn lemma_mentions_stay_distinct(v: Seq<Seq<char>>, f: Seq<char>)
    requires
        forall|i: int, j: int| 0 <= i < j < v.len() ==> v[i] != v[j],
    ensures
        ({
            let w = with_mention(v, f);
            forall|i: int, j: int| 0 <= i < j < w.len() ==> w[i] != w[j]
        }),
{
    if !v.contains(f) {
        let w = v.push(f);
        assert forall|i: int, j: int| 0 <= i < j < w.len() implies w[i] != w[j] by {
            assert(w[i] == v[i]);
            if j < v.len() {
                assert(w[j] == v[j]);
            }
        }
    }
}

/// The suggestions among `names` for the lower-cased query `query`:
/// `lowered[i]` is the lower-cased form of `names[i]`.
pub fn pick_suggestions(names: &[String], lowered: &[String], query: &str) -> (r: Vec<String>)
    requires
        names@.len() == lowered@.len(),
    ensures
        string_views(r@) == picked(string_views(names@), string_views(lowered@), query@),
{
    let qv = to_chars(query);
    let mut out: Vec<String> = Vec::new();
    let mut i: usize = 0;
    while i < names.len()
        invariant
            i <= names@.len(),
            names@.len() == lowered@.len(),
            qv@ == query@,
            string_views(out@) =~= picked(
                string_views(names@).take(i as int),
                string_views(lowered@).take(i as int),
                query@,
            ),
        decreases names@.len() - i,
    {
        let ghost ns = string_views(names@).take(i + 1);
        let ghost ls = string_views(lowered@).take(i + 1);
        assert(ns.drop_last() =~= string_views(names@).take(i as int));
        assert(ls.drop_last() =~= string_views(lowered@).take(i as int));
        assert(ns.last() == names@[i as int]@);
        assert(ls.last() == lowered@[i as int]@);
        let keep = if qv.len() == 0 {
            true
        } else {
            let lv = to_chars(lowered[i].as_str());
            contains_sub(&lv, &qv)
        };
        if keep {
            let ghost before = string_views(out@);
            out.push(names[i].clone());
            assert(string_views(out@) =~= before.push(out@[out@.len() - 1]@));
        }
        i += 1;
    }
    assert(string_views(names@).take(i as int) =~= string_views(names@));
    assert(string_views(lowered@).take(i as int) =~= string_views(lowered@));
    out
}

/// The mention suggestions for the text being typed: `Some` (non-empty)
/// when the list opens, `None` when it closes.
pub fn handle_mention_input(val: &str, open_files: &[LogFile]) -> (r: Option<Vec<String>>)
    requires
        mention_defined(val@),
    ensures
        match mention_query(val@) {
            Some(after) => {
                let sug = suggestions_spec(open_files@, lowercase(after));
                match r {
                    Some(v) => sug.len() > 0 && string_views(v@) == sug,
                    None => sug.len() == 0,
                }
            },
            None => r is None,
        },
{
    let v = to_chars(val);
    let mut k = v.len();
    assert(v@.take(k as int) =~= v@);
    while k > 0 && v[k - 1] != '@'
        invariant
            k <= v.len(),
            last_pos(v@, '@') == last_pos(v@.take(k as int), '@'),
        decreases k,
    {
        assert(v@.take(k as int).drop_last() =~= v@.take(k - 1));
        k -= 1;
    }
    if k == 0 {
        assert(last_pos(v@.take(0), '@') is None);
        return None;
    }
    let at = k - 1;
    assert(v@.take(k as int).last() == '@');
    assert(last_pos(v@, '@') == Some(at as int));
    let before_ok = at == 0 || is_whitespace(v[at - 1]);
    let mut j = at + 1;
    let mut ws_after = false;
    while j < v.len()
        invariant
            at + 1 <= j <= v.len(),
            ws_after == exists|m: int| at + 1 <= m < j && is_ws(#[trigger] v@[m]),
        decreases v.len() - j,
    {
        if is_whitespace(v[j]) {
            ws_after = true;
        }
        j += 1;
    }
    let ghost after = v@.skip(at + 1);
    assert(ws_after == has_ws(after)) by {
        if ws_after {
            let m = choose|m: int| at + 1 <= m < v.len() && is_ws(#[trigger] v@[m]);
            assert(after[m - at - 1] == v@[m]);
        }
        if has_ws(after) {
            let m = choose|m: int| 0 <= m < after.len() && is_ws(#[trigger] after[m]);
            assert(after[m] == v@[m + at + 1]);
        }
    }
    if !before_ok || ws_after {
        return None;
    }
    let tail = slice_chars(&v, at + 1, v.len());
    assert(tail@ =~= after);
    let tail_s = from_chars(&tail);
    let query = to_lowercase(tail_s.as_str());
    let mut names: Vec<String> = Vec::new();
    let mut lowered: Vec<String> = Vec::new();
    let ghost sn = short_names(open_files@);
    let mut i: usize = 0;
    while i < open_files.len()
        invariant
            i <= open_files@.len(),
            sn == short_names(open_files@),
            names@.len() == i,
            lowered@.len() == i,
            string_views(names@) =~= sn.take(i as int),
            string_views(lowered@) =~= sn.take(i as int).map_values(|n: Seq<char>| lowercase(n)),
        decreases open_files@.len() - i,
    {
        let name = short_name_of(open_files[i].name.as_str());
        let low = to_lowercase(name.as_str());
        let ghost nb = string_views(names@);
        let ghost lb = string_views(lowered@);
        names.push(name);
        lowered.push(low);
        assert(string_views(names@) =~= nb.push(names@[i as int]@));
        assert(string_views(lowered@) =~= lb.push(lowered@[i as int]@));
        i += 1;
    }
    assert(sn.take(i as int) =~= sn);
    let out = pick_suggestions(names.as_slice(), lowered.as_slice(), query.as_str());
    if out.len() == 0 {
        None
    } else {
        Some(out)
    }
}

/// Keyboard navigation in the suggestion list: whether the key is handled
/// and the new selection, if it changes.
pub fn handle_mention_keydown(key: &str, suggestions: &[String], selected: usize) -> (r: (
    bool,
    Option<usize>,
))
    requires
        key@ == "ArrowDown"@ ==> selected < usize::MAX,
    ensures
        r == (if key@ == "ArrowDown"@ {
            (true, if selected + 1 < suggestions@.len() {
                Some((selected + 1) as usize)
            } else {
                None
            })
        } else if key@ == "ArrowUp"@ {
            (true, if selected > 0 {
                Some((selected - 1) as usize)
            } else {
                None
            })
        } else {
            (false, None)
        }),
{
    if str_eq(key, "ArrowDown") {
        if selected + 1 < suggestions.len() {
            (true, Some(selected + 1))
        } else {
            (true, None)
        }
    } else if str_eq(key, "ArrowUp") {
        if selected > 0 {
            (true, Some(selected - 1))
        } else {
            (true, None)
        }
    } else {
        (false, None)
    }
}

/// The input after choosing a suggestion: the text before the last `@`,
/// trailing whitespace removed (`None`: the input is unchanged).  The file
/// joins the mentioned files unless it is there already.
pub fn select_mention(file_name: String, input: &str, mentioned: &mut Vec<String>) -> (r: Option<String>)
    ensures
        string_views(final(mentioned)@) == with_mention(string_views(old(mentioned)@), file_name@),
        match last_pos(input@, '@') {
            Some(k) => r matches Some(s) && s@ == trim_end(input@.take(k)),
            None => r is None,
        },
{
    let mut present = false;
    let mut i: usize = 0;
    while i < mentioned.len()
        invariant
            i <= mentioned@.len(),
            mentioned@ == old(mentioned)@,
            present == exists|m: int| 0 <= m < i && #[trigger] mentioned@[m]@ == file_name@,
        decreases mentioned@.len() - i,
    {
        if str_eq(mentioned[i].as_str(), file_name.as_str()) {
            present = true;
        }
        i += 1;
    }
    proof {
        if present {
            let m = choose|m: int| 0 <= m < mentioned@.len() && #[trigger] mentioned@[m]@ == file_name@;
            assert(string_views(mentioned@)[m] == file_name@);
        }
        if string_views(mentioned@).contains(file_name@) {
            let m = choose|m: int| 0 <= m < mentioned@.len() && string_views(mentioned@)[m] == file_name@;
            assert(mentioned@[m]@ == file_name@);
        }
    }
    if !present {
        let ghost before = string_views(mentioned@);
        mentioned.push(file_name);
        assert(string_views(mentioned@) =~= before.push(mentioned@[mentioned@.len() - 1]@));
    }
    let v = to_chars(input);
    let mut k = v.len();
    assert(v@.take(k as int) =~= v@);
    while k > 0 && v[k - 1] != '@'
        invariant
            k <= v.len(),
            last_pos(v@, '@') == last_pos(v@.take(k as int), '@'),
        decreases k,
    {
        assert(v@.take(k as int).drop_last() =~= v@.take(k - 1));
        k -= 1;
    }
    if k == 0 {
        assert(last_pos(v@.take(0), '@') is None);
        return None;
    }
    let at = k - 1;
    assert(v@.take(k as int).last() == '@');
    let mut end = at;
    while end > 0 && is_whitespace(v[end - 1])
        invariant
            end <= at < v.len(),
            trim_end(v@.take(at as int)) == trim_end(v@.take(end as int)),
        decreases end,
    {
        assert(v@.take(end as int).drop_last() =~= v@.take(end - 1));
        end -= 1;
    }
    let kept = slice_chars(&v, 0, end);
    assert(kept@ =~= v@.take(end as int));
    Some(from_chars(&kept))
}

} // verus!
