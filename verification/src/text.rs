//! Character-sequence primitives shared by the log parser, the filters and
//! the markdown renderer.  Every string operation is stated over `Seq<char>`
//! (the view of `str`/`String`), following the documented behaviour of the
//! corresponding `str` method.

use vstd::prelude::*;

verus! {

// ---------------------------------------------------------------------------
// Whitespace
// ---------------------------------------------------------------------------

/// The Unicode `White_Space` property, as used by `char::is_whitespace`.
pub open spec fn is_ws(c: char) -> bool {
    ||| ('\u{9}' <= c && c <= '\u{d}')
    ||| c == ' '
    ||| c == '\u{85}'
    ||| c == '\u{a0}'
    ||| c == '\u{1680}'
    ||| ('\u{2000}' <= c && c <= '\u{200a}')
    ||| c == '\u{2028}'
    ||| c == '\u{2029}'
    ||| c == '\u{202f}'
    ||| c == '\u{205f}'
    ||| c == '\u{3000}'
}

/// `char::is_whitespace`.
pub fn is_whitespace(c: char) -> (r: bool)
    ensures
        r == is_ws(c),
{
    ('\u{9}' <= c && c <= '\u{d}') || c == ' ' || c == '\u{85}' || c == '\u{a0}' || c
        == '\u{1680}' || ('\u{2000}' <= c && c <= '\u{200a}') || c == '\u{2028}' || c
        == '\u{2029}' || c == '\u{202f}' || c == '\u{205f}' || c == '\u{3000}'
}

// ---------------------------------------------------------------------------
// Trimming
// ---------------------------------------------------------------------------

/// `s` without its leading whitespace.
pub open spec fn trim_start(s: Seq<char>) -> Seq<char>
    decreases s.len(),
{
    if s.len() > 0 && is_ws(s[0]) {
        trim_start(s.drop_first())
    } else {
        s
    }
}

/// `s` without its trailing whitespace.
pub open spec fn trim_end(s: Seq<char>) -> Seq<char>
    decreases s.len(),
{
    if s.len() > 0 && is_ws(s.last()) {
        trim_end(s.drop_last())
    } else {
        s
    }
}

/// `str::trim`: leading and trailing whitespace removed.
pub open spec fn trim(s: Seq<char>) -> Seq<char> {
    trim_end(trim_start(s))
}

/// Bounds `(lo, hi)` with `s.subrange(lo, hi) == trim(s)`.
pub fn trim_bounds(s: &Vec<char>) -> (r: (usize, usize))
    ensures
        r.0 <= r.1 <= s.len(),
        s@.subrange(r.0 as int, r.1 as int) == trim(s@),
{
    let mut lo: usize = 0;
    assert(s@.subrange(0, s.len() as int) =~= s@);
    while lo < s.len() && is_whitespace(s[lo])
        invariant
            lo <= s.len(),
            trim_start(s@) == trim_start(s@.subrange(lo as int, s.len() as int)),
        decreases s.len() - lo,
    {
        assert(s@.subrange(lo as int, s.len() as int).drop_first() =~= s@.subrange(
            lo + 1,
            s.len() as int,
        ));
        lo += 1;
    }
    assert(trim_start(s@) == s@.subrange(lo as int, s.len() as int));
    let mut hi: usize = s.len();
    while hi > lo && is_whitespace(s[hi - 1])
        invariant
            lo <= hi <= s.len(),
            trim(s@) == trim_end(s@.subrange(lo as int, hi as int)),
        decreases hi,
    {
        assert(s@.subrange(lo as int, hi as int).drop_last() =~= s@.subrange(
            lo as int,
            hi - 1,
        ));
        hi -= 1;
    }
    (lo, hi)
}

/// Copy of `s[lo..hi]`.
pub fn slice_chars(s: &Vec<char>, lo: usize, hi: usize) -> (r: Vec<char>)
    requires
        lo <= hi <= s.len(),
    ensures
        r@ == s@.subrange(lo as int, hi as int),
{
    let mut r: Vec<char> = Vec::new();
    let mut i = lo;
    while i < hi
        invariant
            lo <= i <= hi <= s.len(),
            r@ == s@.subrange(lo as int, i as int),
        decreases hi - i,
    {
        r.push(s[i]);
        i += 1;
    }
    r
}

/// `str::trim` on a character vector.
pub fn trim_chars(s: &Vec<char>) -> (r: Vec<char>)
    ensures
        r@ == trim(s@),
{
    let (lo, hi) = trim_bounds(s);
    slice_chars(s, lo, hi)
}

// ---------------------------------------------------------------------------
// Conversions between `str`, `String` and `Vec<char>`
// ---------------------------------------------------------------------------

/// `String::push`.
#[verifier::external_body]
pub(crate) fn push_char(s: &mut String, c: char)
    ensures
        final(s)@ == old(s)@.push(c),
{
    s.push(c);
}

/// The characters of `s`, in order.
pub fn to_chars(s: &str) -> (v: Vec<char>)
    ensures
        v@ == s@,
{
    let mut v: Vec<char> = Vec::new();
    for c in it: s.chars()
        invariant
            v@ == it.seq().take(it.index() as int),
            it.seq() == s@,
    {
        v.push(c);
    }
    v
}

/// A `String` holding the characters of `v`.
pub fn from_chars(v: &Vec<char>) -> (s: String)
    ensures
        s@ == v@,
{
    let mut s = String::new();
    let mut i: usize = 0;
    while i < v.len()
        invariant
            i <= v.len(),
            s@ == v@.take(i as int),
        decreases v.len() - i,
    {
        push_char(&mut s, v[i]);
        assert(v@.take(i + 1) =~= v@.take(i as int).push(v@[i as int]));
        i += 1;
    }
    assert(v@.take(v.len() as int) =~= v@);
    s
}

/// Appends the characters of `v` to `s`.
pub fn push_chars(s: &mut String, v: &Vec<char>)
    ensures
        final(s)@ == old(s)@ + v@,
{
    let mut i: usize = 0;
    while i < v.len()
        invariant
            i <= v.len(),
            s@ == old(s)@ + v@.take(i as int),
        decreases v.len() - i,
    {
        push_char(s, v[i]);
        assert(v@.take(i + 1) =~= v@.take(i as int).push(v@[i as int]));
        assert(old(s)@ + v@.take(i + 1) =~= (old(s)@ + v@.take(i as int)).push(v@[i as int]));
        i += 1;
    }
    assert(v@.take(v.len() as int) =~= v@);
}

/// Appends `b` to the vector `a`.
pub fn extend_chars(a: &mut Vec<char>, b: &Vec<char>)
    ensures
        final(a)@ == old(a)@ + b@,
{
    let mut i: usize = 0;
    while i < b.len()
        invariant
            i <= b.len(),
            a@ == old(a)@ + b@.take(i as int),
        decreases b.len() - i,
    {
        a.push(b[i]);
        assert(old(a)@ + b@.take(i + 1) =~= (old(a)@ + b@.take(i as int)).push(b@[i as int]));
        i += 1;
    }
    assert(b@.take(b.len() as int) =~= b@);
}

/// Appends the characters of `t` to the vector `a`.
pub fn extend_str(a: &mut Vec<char>, t: &str)
    ensures
        final(a)@ == old(a)@ + t@,
{
    let v = to_chars(t);
    extend_chars(a, &v);
}

/// Equality of two character vectors.
pub fn chars_eq(a: &Vec<char>, b: &Vec<char>) -> (r: bool)
    ensures
        r == (a@ == b@),
{
    if a.len() != b.len() {
        return false;
    }
    let mut i: usize = 0;
    while i < a.len()
        invariant
            i <= a.len() == b.len(),
            a@.take(i as int) == b@.take(i as int),
        decreases a.len() - i,
    {
        if a[i] != b[i] {
            assert(a@[i as int] != b@[i as int]);
            return false;
        }
        assert(a@.take(i + 1) =~= a@.take(i as int).push(a@[i as int]));
        assert(b@.take(i + 1) =~= b@.take(i as int).push(b@[i as int]));
        i += 1;
    }
    assert(a@.take(a.len() as int) =~= a@);
    assert(b@.take(b.len() as int) =~= b@);
    true
}

/// Equality of two strings, character by character.
pub fn str_eq(a: &str, b: &str) -> (r: bool)
    ensures
        r == (a@ == b@),
{
    let x = to_chars(a);
    let y = to_chars(b);
    chars_eq(&x, &y)
}

// ---------------------------------------------------------------------------
// ASCII case mapping
// ---------------------------------------------------------------------------

/// `char::to_ascii_uppercase`.
pub open spec fn upper_char(c: char) -> char {
    if 'a' <= c && c <= 'z' {
        ((c as u32) - 32) as char
    } else {
        c
    }
}

/// `char::to_ascii_lowercase`.
pub open spec fn lower_char(c: char) -> char {
    if 'A' <= c && c <= 'Z' {
        ((c as u32) + 32) as char
    } else {
        c
    }
}

/// `str::to_ascii_uppercase`.
pub open spec fn upper(s: Seq<char>) -> Seq<char> {
    s.map_values(|c: char| upper_char(c))
}

/// `str::to_ascii_lowercase`.
pub open spec fn lower(s: Seq<char>) -> Seq<char> {
    s.map_values(|c: char| lower_char(c))
}

/// `char::to_ascii_uppercase`.
pub fn upper_char_exec(c: char) -> (r: char)
    ensures
        r == upper_char(c),
{
    if 'a' <= c && c <= 'z' {
        ((c as u8) - 32) as char
    } else {
        c
    }
}

/// `char::to_ascii_lowercase`.
pub fn lower_char_exec(c: char) -> (r: char)
    ensures
        r == lower_char(c),
{
    if 'A' <= c && c <= 'Z' {
        ((c as u8) + 32) as char
    } else {
        c
    }
}

/// ASCII upper-case copy of `s`.
pub fn upper_chars(s: &Vec<char>) -> (r: Vec<char>)
    ensures
        r@ == upper(s@),
{
    let mut r: Vec<char> = Vec::new();
    let mut i: usize = 0;
    while i < s.len()
        invariant
            i <= s.len(),
            r@ == upper(s@.take(i as int)),
        decreases s.len() - i,
    {
        r.push(upper_char_exec(s[i]));
        assert(upper(s@.take(i + 1)) =~= upper(s@.take(i as int)).push(upper_char(s@[i as int])));
        i += 1;
    }
    assert(s@.take(s.len() as int) =~= s@);
    r
}

/// ASCII lower-case copy of `s`.
pub fn lower_chars(s: &Vec<char>) -> (r: Vec<char>)
    ensures
        r@ == lower(s@),
{
    let mut r: Vec<char> = Vec::new();
    let mut i: usize = 0;
    while i < s.len()
        invariant
            i <= s.len(),
            r@ == lower(s@.take(i as int)),
        decreases s.len() - i,
    {
        r.push(lower_char_exec(s[i]));
        assert(lower(s@.take(i + 1)) =~= lower(s@.take(i as int)).push(lower_char(s@[i as int])));
        i += 1;
    }
    assert(s@.take(s.len() as int) =~= s@);
    r
}


// ---------------------------------------------------------------------------
// Searching for a character
// ---------------------------------------------------------------------------

/// Index of the first `c` in `s`, or `s.len()` when there is none.
pub open spec fn char_pos(s: Seq<char>, c: char) -> nat
    decreases s.len(),
{
    if s.len() == 0 {
        0
    } else if s[0] == c {
        0
    } else {
        1 + char_pos(s.drop_first(), c)
    }
}

/// `char_pos` is a position of `c`, or the length, and no `c` comes before it.
pub proof fn lemma_char_pos(s: Seq<char>, c: char)
    ensures
        char_pos(s, c) <= s.len(),
        forall|j: int| 0 <= j < char_pos(s, c) ==> s[j] != c,
        char_pos(s, c) < s.len() ==> s[char_pos(s, c) as int] == c,
    decreases s.len(),
{
    if s.len() > 0 && s[0] != c {
        lemma_char_pos(s.drop_first(), c);
        assert forall|j: int| 0 <= j < char_pos(s, c) implies s[j] != c by {
            if j > 0 {
                assert(s[j] == s.drop_first()[j - 1]);
            }
        }
    }
}

/// `k` is the first position of `c` in `s` (or `s.len()` when absent).
pub proof fn lemma_char_pos_unique(s: Seq<char>, c: char, k: int)
    requires
        0 <= k <= s.len(),
        forall|j: int| 0 <= j < k ==> s[j] != c,
        k < s.len() ==> s[k] == c,
    ensures
        char_pos(s, c) == k,
    decreases s.len(),
{
    if s.len() > 0 && s[0] != c {
        assert forall|j: int| 0 <= j < k - 1 implies s.drop_first()[j] != c by {
            assert(s.drop_first()[j] == s[j + 1]);
        }
        lemma_char_pos_unique(s.drop_first(), c, k - 1);
    }
}

/// Whether `c` occurs in `s` (`str::contains(char)`).
pub open spec fn has_char(s: Seq<char>, c: char) -> bool {
    s.contains(c)
}

/// Position of the first `c` in `s` at or after `start`, or `s.len()`.
pub fn find_char_from(s: &Vec<char>, start: usize, c: char) -> (k: usize)
    requires
        start <= s.len(),
    ensures
        start <= k <= s.len(),
        char_pos(s@.skip(start as int), c) == k - start,
        forall|j: int| start <= j < k ==> s@[j] != c,
        k < s.len() ==> s@[k as int] == c,
{
    let mut k = start;
    while k < s.len() && s[k] != c
        invariant
            start <= k <= s.len(),
            forall|j: int| start <= j < k ==> s@[j] != c,
        decreases s.len() - k,
    {
        k += 1;
    }
    proof {
        let t = s@.skip(start as int);
        assert forall|j: int| 0 <= j < k - start implies t[j] != c by {
            assert(t[j] == s@[j + start]);
        }
        if k < s.len() {
            assert(t[k - start] == s@[k as int]);
        }
        lemma_char_pos_unique(t, c, k - start);
    }
    k
}

/// Whether `c` occurs in `s`.
pub fn contains_char(s: &Vec<char>, c: char) -> (r: bool)
    ensures
        r == has_char(s@, c),
{
    let k = find_char_from(s, 0, c);
    assert(s@.skip(0) =~= s@);
    if k < s.len() {
        assert(s@[k as int] == c);
        true
    } else {
        assert(!s@.contains(c));
        false
    }
}

// ---------------------------------------------------------------------------
// Lines
// ---------------------------------------------------------------------------

/// A line without the `'\r'` of a `"\r\n"` terminator.
pub open spec fn strip_cr(l: Seq<char>) -> Seq<char> {
    if l.len() > 0 && l.last() == '\r' {
        l.drop_last()
    } else {
        l
    }
}

/// `str::lines`: the text split at `'\n'`; a line ended by `"\r\n"` loses
/// the `'\r'`; a final line terminator does not start an empty line.
pub open spec fn lines(s: Seq<char>) -> Seq<Seq<char>>
    decreases s.len(),
{
    if s.len() == 0 {
        seq![]
    } else {
        let k = char_pos(s, '\n');
        if k >= s.len() {
            seq![s]
        } else {
            seq![strip_cr(s.take(k as int))] + lines(s.skip((k + 1) as int))
        }
    }
}

/// The lines of a text that ends with a line break, followed by more text,
/// are the lines of the first text, then those of the second.
pub proof fn lemma_lines_append(x: Seq<char>, y: Seq<char>)
    requires
        x.len() > 0,
        x.last() == '\n',
    ensures
        lines(x + y) == lines(x) + lines(y),
    decreases x.len(),
{
    let s = x + y;
    lemma_char_pos(x, '\n');
    let k = char_pos(x, '\n') as int;
    if k == x.len() {
        assert(x[x.len() - 1] != '\n');
    }
    assert forall|j: int| 0 <= j < k implies s[j] != '\n' by {
        assert(s[j] == x[j]);
    }
    assert(s[k] == x[k]);
    lemma_char_pos_unique(s, '\n', k);
    assert(s.take(k) =~= x.take(k));
    let xr = x.skip(k + 1);
    assert(s.skip(k + 1) =~= xr + y);
    if xr.len() == 0 {
        assert(xr + y =~= y);
        assert(lines(xr) =~= Seq::<Seq<char>>::empty());
        assert(lines(x) =~= seq![strip_cr(x.take(k))]);
    } else {
        assert(xr.last() == x.last());
        lemma_lines_append(xr, y);
    }
    assert(lines(s) =~= lines(x) + lines(y));
}

/// Dropping a final whitespace character before trimming the start drops
/// it after.
proof fn lemma_trim_start_drop_last(l: Seq<char>)
    requires
        l.len() > 0,
        is_ws(l.last()),
    ensures
        trim_start(l).len() == 0 ==> trim_start(l.drop_last()).len() == 0,
        trim_start(l).len() > 0 ==> trim_start(l.drop_last()) == trim_start(l).drop_last() && trim_start(
            l,
        ).last() == l.last(),
    decreases l.len(),
{
    if is_ws(l[0]) {
        if l.len() == 1 {
            assert(l.drop_first().len() == 0);
            assert(l.drop_last().len() == 0);
        } else {
            assert(l.drop_last()[0] == l[0]);
            assert(l.drop_last().drop_first() =~= l.drop_first().drop_last());
            assert(l.drop_first().last() == l.last());
            lemma_trim_start_drop_last(l.drop_first());
        }
    } else {
        assert(l.len() > 1);
        assert(l.drop_last()[0] == l[0]);
    }
}

/// Trimming a line does not see whether a final `'\r'` was taken off.
pub proof fn lemma_trim_strip_cr(l: Seq<char>)
    ensures
        trim(strip_cr(l)) == trim(l),
{
    if l.len() > 0 && l.last() == '\r' {
        lemma_trim_start_drop_last(l);
        let t = trim_start(l);
        if t.len() == 0 {
            assert(trim_end(trim_start(l.drop_last())) == trim_start(l.drop_last()));
        }
    }
}

/// A text that does not end with a line break has, once one is added, the
/// same number of lines, each the same once trimmed.
pub proof fn lemma_lines_add_break(a: Seq<char>)
    requires
        a.len() > 0,
        a.last() != '\n',
    ensures
        lines(a + seq!['\n']).len() == lines(a).len(),
        forall|i: int| 0 <= i < lines(a).len() ==> trim(#[trigger] lines(a + seq!['\n'])[i]) == trim(lines(a)[i]),
    decreases a.len(),
{
    let s = a + seq!['\n'];
    lemma_char_pos(a, '\n');
    let k = char_pos(a, '\n') as int;
    assert forall|j: int| 0 <= j < k implies s[j] != '\n' by {
        assert(s[j] == a[j]);
    }
    if k == a.len() {
        assert(s[k] == '\n');
        lemma_char_pos_unique(s, '\n', k);
        assert(s.take(k) =~= a);
        assert(s.skip(k + 1) =~= Seq::<char>::empty());
        assert(lines(s.skip(k + 1)) =~= Seq::<Seq<char>>::empty());
        assert(lines(s) =~= seq![strip_cr(a)]);
        assert(lines(a) == seq![a]);
        lemma_trim_strip_cr(a);
    } else {
        assert(s[k] == a[k]);
        lemma_char_pos_unique(s, '\n', k);
        assert(s.take(k) =~= a.take(k));
        let ar = a.skip(k + 1);
        assert(k != a.len() - 1);
        assert(s.skip(k + 1) =~= ar + seq!['\n']);
        assert(ar.last() == a.last());
        lemma_lines_add_break(ar);
        assert forall|i: int| 0 <= i < lines(a).len() implies trim(#[trigger] lines(s)[i]) == trim(lines(a)[i]) by {
            if i > 0 {
                assert(lines(s)[i] == lines(ar + seq!['\n'])[i - 1]);
                assert(lines(a)[i] == lines(ar)[i - 1]);
            }
        }
    }
}

/// The views of a vector of character vectors.
pub open spec fn views(v: Seq<Vec<char>>) -> Seq<Seq<char>> {
    v.map_values(|x: Vec<char>| x@)
}

/// `str::lines` on a character vector.
pub fn split_lines(s: &Vec<char>) -> (r: Vec<Vec<char>>)
    ensures
        views(r@) == lines(s@),
{
    let mut out: Vec<Vec<char>> = Vec::new();
    let mut i: usize = 0;
    assert(s@.skip(0) =~= s@);
    while i < s.len()
        invariant
            i <= s.len(),
            lines(s@) == views(out@) + lines(s@.skip(i as int)),
        decreases s.len() - i,
    {
        let k = find_char_from(s, i, '\n');
        let ghost t = s@.skip(i as int);
        let ghost prev = out@;
        if k == s.len() {
            let l = slice_chars(s, i, k);
            assert(l@ =~= t);
            out.push(l);
            assert(views(out@) =~= views(prev) + seq![t]);
            assert(s@.skip(k as int) =~= Seq::<char>::empty());
            i = k;
        } else {
            let mut l = slice_chars(s, i, k);
            assert(l@ =~= t.take(k - i));
            if l.len() > 0 && l[l.len() - 1] == '\r' {
                l.pop();
            }
            assert(l@ == strip_cr(t.take(k - i)));
            assert(t.skip(k - i + 1) =~= s@.skip(k + 1));
            out.push(l);
            assert(views(out@) =~= views(prev) + seq![l@]);
            i = k + 1;
        }
    }
    assert(s@.skip(i as int).len() == 0);
    assert(views(out@) + seq![] =~= views(out@));
    out
}


// ---------------------------------------------------------------------------
// Whitespace-separated words
// ---------------------------------------------------------------------------

/// Length of the run of non-whitespace characters that starts `s`.
pub open spec fn run_len(s: Seq<char>) -> nat
    decreases s.len(),
{
    if s.len() == 0 || is_ws(s[0]) {
        0
    } else {
        1 + run_len(s.drop_first())
    }
}

/// The run is within `s`, holds no whitespace, and is followed by whitespace or the end.
pub proof fn lemma_run_len(s: Seq<char>)
    ensures
        run_len(s) <= s.len(),
        s.len() > 0 && !is_ws(s[0]) ==> run_len(s) >= 1,
    decreases s.len(),
{
    if s.len() > 0 && !is_ws(s[0]) {
        lemma_run_len(s.drop_first());
    }
}

/// A non-whitespace prefix followed by whitespace or the end has the run's length.
pub proof fn lemma_run_len_unique(s: Seq<char>, k: int)
    requires
        0 <= k <= s.len(),
        forall|j: int| 0 <= j < k ==> !is_ws(s[j]),
        k < s.len() ==> is_ws(s[k]),
    ensures
        run_len(s) == k,
    decreases s.len(),
{
    if k > 0 {
        assert forall|j: int| 0 <= j < k - 1 implies !is_ws(s.drop_first()[j]) by {
            assert(s.drop_first()[j] == s[j + 1]);
        }
        lemma_run_len_unique(s.drop_first(), k - 1);
    }
}

/// `str::split_whitespace`: the maximal runs of non-whitespace characters.
pub open spec fn words(s: Seq<char>) -> Seq<Seq<char>>
    decreases s.len(),
    via words_decreases
{
    if s.len() == 0 {
        seq![]
    } else if is_ws(s[0]) {
        words(s.drop_first())
    } else {
        seq![s.take(run_len(s) as int)] + words(s.skip(run_len(s) as int))
    }
}

#[via_fn]
/// The recursion of `words` ends.
proof fn words_decreases(s: Seq<char>) {
    lemma_run_len(s);
}

/// `str::split_whitespace` on a character vector.
pub fn split_words(s: &Vec<char>) -> (r: Vec<Vec<char>>)
    ensures
        views(r@) == words(s@),
{
    let mut out: Vec<Vec<char>> = Vec::new();
    let mut i: usize = 0;
    assert(s@.skip(0) =~= s@);
    assert(views(out@) + words(s@) =~= words(s@));
    while i < s.len()
        invariant
            i <= s.len(),
            words(s@) == views(out@) + words(s@.skip(i as int)),
        decreases s.len() - i,
    {
        let ghost t = s@.skip(i as int);
        if is_whitespace(s[i]) {
            assert(t.drop_first() =~= s@.skip(i + 1));
            i += 1;
        } else {
            let mut j = i;
            while j < s.len() && !is_whitespace(s[j])
                invariant
                    i <= j <= s.len(),
                    forall|m: int| i <= m < j ==> !is_ws(s@[m]),
                decreases s.len() - j,
            {
                j += 1;
            }
            proof {
                assert forall|m: int| 0 <= m < j - i implies !is_ws(t[m]) by {
                    assert(t[m] == s@[m + i]);
                }
                if j < s.len() {
                    assert(t[j - i] == s@[j as int]);
                }
                lemma_run_len_unique(t, j - i);
            }
            let ghost prev = out@;
            let w = slice_chars(s, i, j);
            assert(w@ =~= t.take(j - i));
            assert(t.skip(j - i) =~= s@.skip(j as int));
            out.push(w);
            assert(views(out@) =~= views(prev) + seq![w@]);
            i = j;
        }
    }
    assert(s@.skip(i as int) =~= Seq::<char>::empty());
    assert(views(out@) + seq![] =~= views(out@));
    out
}

// ---------------------------------------------------------------------------
// Joining
// ---------------------------------------------------------------------------

/// `[..].join(sep)`.
pub open spec fn join(ws: Seq<Seq<char>>, sep: Seq<char>) -> Seq<char>
    decreases ws.len(),
{
    if ws.len() == 0 {
        seq![]
    } else if ws.len() == 1 {
        ws[0]
    } else {
        join(ws.drop_last(), sep) + sep + ws.last()
    }
}

/// Joins the words of `ws` with `sep` between consecutive words.
pub fn join_chars(ws: &Vec<Vec<char>>, sep: &Vec<char>) -> (r: Vec<char>)
    ensures
        r@ == join(views(ws@), sep@),
{
    let mut r: Vec<char> = Vec::new();
    let mut i: usize = 0;
    while i < ws.len()
        invariant
            i <= ws.len(),
            r@ == join(views(ws@).take(i as int), sep@),
        decreases ws.len() - i,
    {
        let ghost pre = views(ws@).take(i as int);
        let ghost nxt = views(ws@).take(i + 1);
        assert(nxt.drop_last() =~= pre);
        if i > 0 {
            extend_chars(&mut r, sep);
        }
        extend_chars(&mut r, &ws[i]);
        proof {
            if i == 0 {
                assert(r@ =~= nxt[0]);
            }
        }
        i += 1;
    }
    assert(views(ws@).take(ws.len() as int) =~= views(ws@));
    r
}

// ---------------------------------------------------------------------------
// Splitting at a character
// ---------------------------------------------------------------------------

/// `str::split(c)`: the pieces between occurrences of `c`, empty pieces
/// included (an empty text gives one empty piece).
pub open spec fn split_char(s: Seq<char>, c: char) -> Seq<Seq<char>>
    decreases s.len(),
{
    let k = char_pos(s, c);
    if k >= s.len() {
        seq![s]
    } else {
        seq![s.take(k as int)] + split_char(s.skip((k + 1) as int), c)
    }
}

/// `str::split(c)` on a character vector.
pub fn split_at_char(s: &Vec<char>, c: char) -> (r: Vec<Vec<char>>)
    ensures
        views(r@) == split_char(s@, c),
{
    let mut out: Vec<Vec<char>> = Vec::new();
    let mut i: usize = 0;
    assert(s@.skip(0) =~= s@);
    loop
        invariant_except_break
            i <= s.len(),
            split_char(s@, c) == views(out@) + split_char(s@.skip(i as int), c),
        ensures
            split_char(s@, c) == views(out@),
        decreases s.len() - i,
    {
        let ghost t = s@.skip(i as int);
        let ghost prev = out@;
        let k = find_char_from(s, i, c);
        let w = slice_chars(s, i, k);
        if k == s.len() {
            assert(w@ =~= t);
            out.push(w);
            assert(views(out@) =~= views(prev) + seq![w@]);
            break;
        }
        assert(w@ =~= t.take(k - i));
        assert(t.skip(k - i + 1) =~= s@.skip(k + 1));
        out.push(w);
        assert(views(out@) =~= views(prev) + seq![w@]);
        i = k + 1;
    }
    out
}

// ---------------------------------------------------------------------------
// Substrings, subsequences, prefixes
// ---------------------------------------------------------------------------

/// `str::contains(&str)`: `q` occurs contiguously in `h`.
pub open spec fn has_sub(h: Seq<char>, q: Seq<char>) -> bool {
    exists|i: int| 0 <= i && i + q.len() <= h.len() && #[trigger] h.subrange(i, i + q.len()) == q
}

/// Whether `q` occurs in `h` at position `i`.
pub fn matches_at(h: &Vec<char>, i: usize, q: &Vec<char>) -> (r: bool)
    requires
        i + q.len() <= h.len(),
    ensures
        r == (h@.subrange(i as int, i + q.len()) == q@),
{
    let mut j: usize = 0;
    while j < q.len()
        invariant
            j <= q.len(),
            i + q.len() <= h.len(),
            forall|m: int| 0 <= m < j ==> h@[i + m] == q@[m],
        decreases q.len() - j,
    {
        if h[i + j] != q[j] {
            assert(h@.subrange(i as int, i + q.len())[j as int] != q@[j as int]);
            return false;
        }
        j += 1;
    }
    assert(h@.subrange(i as int, i + q.len()) =~= q@);
    true
}

/// `str::contains(&str)` on character vectors.
pub fn contains_sub(h: &Vec<char>, q: &Vec<char>) -> (r: bool)
    ensures
        r == has_sub(h@, q@),
{
    if q.len() > h.len() {
        return false;
    }
    let last = h.len() - q.len();
    let mut i: usize = 0;
    loop
        invariant
            i <= last,
            last + q.len() == h.len(),
            forall|m: int| 0 <= m < i ==> #[trigger] h@.subrange(m, m + q.len()) != q@,
        decreases last - i,
    {
        if matches_at(h, i, q) {
            return true;
        }
        if i == last {
            return false;
        }
        i += 1;
    }
}

/// The iterator walk `q.chars().all(|c| hay.any(|hc| hc == c))`: `q` is a
/// subsequence of `h`, each character of `q` taking the next match in `h`.
pub open spec fn fuzzy(q: Seq<char>, h: Seq<char>) -> bool
    decreases h.len(),
{
    if q.len() == 0 {
        true
    } else if h.len() == 0 {
        false
    } else if h[0] == q[0] {
        fuzzy(q.drop_first(), h.drop_first())
    } else {
        fuzzy(q, h.drop_first())
    }
}

/// `fuzzy` on character vectors.
pub fn fuzzy_chars(h: &Vec<char>, q: &Vec<char>) -> (r: bool)
    ensures
        r == fuzzy(q@, h@),
{
    let mut i: usize = 0;
    let mut j: usize = 0;
    assert(h@.skip(0) =~= h@);
    assert(q@.skip(0) =~= q@);
    while j < q.len() && i < h.len()
        invariant
            i <= h.len(),
            j <= q.len(),
            fuzzy(q@, h@) == fuzzy(q@.skip(j as int), h@.skip(i as int)),
        decreases h.len() - i,
    {
        assert(h@.skip(i as int).drop_first() =~= h@.skip(i + 1));
        if h[i] == q[j] {
            assert(q@.skip(j as int).drop_first() =~= q@.skip(j + 1));
            j += 1;
        }
        i += 1;
    }
    j == q.len()
}

/// `str::starts_with(&str)`.
pub open spec fn starts_with(s: Seq<char>, p: Seq<char>) -> bool {
    p.len() <= s.len() && s.take(p.len() as int) == p
}

/// `str::ends_with(&str)`.
pub open spec fn ends_with(s: Seq<char>, p: Seq<char>) -> bool {
    p.len() <= s.len() && s.skip(s.len() - p.len()) == p
}

/// Whether `s` starts with `p`.
pub fn starts_with_chars(s: &Vec<char>, p: &Vec<char>) -> (r: bool)
    ensures
        r == starts_with(s@, p@),
{
    if p.len() > s.len() {
        return false;
    }
    let r = matches_at(s, 0, p);
    assert(s@.subrange(0, p.len() as int) =~= s@.take(p.len() as int));
    r
}

/// `str::replace(from, to)` for single characters.
pub open spec fn replace_char(s: Seq<char>, from: char, to: char) -> Seq<char> {
    s.map_values(|c: char| if c == from { to } else { c })
}

/// `replace_char` on a character vector.
pub fn replace_chars(s: &Vec<char>, from: char, to: char) -> (r: Vec<char>)
    ensures
        r@ == replace_char(s@, from, to),
{
    let mut r: Vec<char> = Vec::new();
    let mut i: usize = 0;
    while i < s.len()
        invariant
            i <= s.len(),
            r@ == replace_char(s@.take(i as int), from, to),
        decreases s.len() - i,
    {
        let c = s[i];
        r.push(if c == from { to } else { c });
        assert(replace_char(s@.take(i + 1), from, to) =~= replace_char(s@.take(i as int), from, to).push(
            if c == from { to } else { c },
        ));
        i += 1;
    }
    assert(s@.take(s.len() as int) =~= s@);
    r
}

// ---------------------------------------------------------------------------
// Byte-wise ordering of strings
// ---------------------------------------------------------------------------

/// The order of `str` (lexicographic on the UTF-8 bytes): `a < b`.
pub open spec fn bytes_lt(a: Seq<u8>, b: Seq<u8>) -> bool
    decreases a.len(),
{
    if b.len() == 0 {
        false
    } else if a.len() == 0 {
        true
    } else if a[0] < b[0] {
        true
    } else if a[0] > b[0] {
        false
    } else {
        bytes_lt(a.drop_first(), b.drop_first())
    }
}

/// Whether `a[..an] < b[..bn]` in byte order.
pub fn prefix_lt(a: &[u8], an: usize, b: &[u8], bn: usize) -> (r: bool)
    requires
        an <= a@.len(),
        bn <= b@.len(),
    ensures
        r == bytes_lt(a@.take(an as int), b@.take(bn as int)),
{
    let mut i: usize = 0;
    assert(a@.take(an as int).skip(0) =~= a@.take(an as int));
    assert(b@.take(bn as int).skip(0) =~= b@.take(bn as int));
    while i < an && i < bn
        invariant
            i <= an <= a@.len(),
            i <= bn <= b@.len(),
            bytes_lt(a@.take(an as int), b@.take(bn as int)) == bytes_lt(
                a@.take(an as int).skip(i as int),
                b@.take(bn as int).skip(i as int),
            ),
        decreases an - i,
    {
        let x = a[i];
        let y = b[i];
        assert(a@.take(an as int).skip(i as int)[0] == x);
        assert(b@.take(bn as int).skip(i as int)[0] == y);
        if x < y {
            return true;
        }
        if x > y {
            return false;
        }
        assert(a@.take(an as int).skip(i as int).drop_first() =~= a@.take(an as int).skip(i + 1));
        assert(b@.take(bn as int).skip(i as int).drop_first() =~= b@.take(bn as int).skip(i + 1));
        i += 1;
    }
    i < bn
}


// ---------------------------------------------------------------------------
// Alphanumeric characters
// ---------------------------------------------------------------------------

/// Whether `c` is alphabetic or numeric in the Unicode sense
/// (what `char::is_alphanumeric` returns).
pub uninterp spec fn is_alnum(c: char) -> bool;

/// ASCII letters and digits.
pub open spec fn is_ascii_alnum(c: char) -> bool {
    ('a' <= c && c <= 'z') || ('A' <= c && c <= 'Z') || ('0' <= c && c <= '9')
}

/// `char::is_alphanumeric`.  The contract names the result `is_alnum(c)`
/// and states what the Unicode tables give for the ASCII range: there the
/// alphanumeric characters are exactly the letters and the digits.
/// Outside ASCII nothing more is stated.
#[verifier::external_body]
pub(crate) fn char_is_alphanumeric(c: char) -> (r: bool)
    ensures
        r == is_alnum(c),
        (c as u32) < 128 ==> (r == is_ascii_alnum(c)),
{
    c.is_alphanumeric()
}

/// `s` without its leading characters that are not alphanumeric.
pub open spec fn strip_nonalnum_start(s: Seq<char>) -> Seq<char>
    decreases s.len(),
{
    if s.len() > 0 && !is_alnum(s[0]) {
        strip_nonalnum_start(s.drop_first())
    } else {
        s
    }
}

/// `s` without its trailing characters that are not alphanumeric.
pub open spec fn strip_nonalnum_end(s: Seq<char>) -> Seq<char>
    decreases s.len(),
{
    if s.len() > 0 && !is_alnum(s.last()) {
        strip_nonalnum_end(s.drop_last())
    } else {
        s
    }
}

/// `str::trim_matches(|c| !c.is_alphanumeric())`.
pub open spec fn strip_nonalnum(s: Seq<char>) -> Seq<char> {
    strip_nonalnum_end(strip_nonalnum_start(s))
}

/// `s` (with its flags `f`) without the leading characters whose flag is
/// `false`.
pub open spec fn strip_start_flagged(s: Seq<char>, f: Seq<bool>) -> (Seq<char>, Seq<bool>)
    decreases s.len(),
{
    if s.len() > 0 && f.len() > 0 && !f[0] {
        strip_start_flagged(s.drop_first(), f.drop_first())
    } else {
        (s, f)
    }
}

/// `s` (with its flags `f`) without the trailing characters whose flag is
/// `false`.
pub open spec fn strip_end_flagged(s: Seq<char>, f: Seq<bool>) -> Seq<char>
    decreases s.len(),
{
    if s.len() > 0 && f.len() > 0 && !f.last() {
        strip_end_flagged(s.drop_last(), f.drop_last())
    } else {
        s
    }
}

/// `s` without the leading and trailing characters whose flag (the same
/// position of `f`) is `false`.
pub open spec fn strip_flagged(s: Seq<char>, f: Seq<bool>) -> Seq<char> {
    let (s1, f1) = strip_start_flagged(s, f);
    strip_end_flagged(s1, f1)
}

/// The alphanumeric flags of the characters of `s`.
pub open spec fn alnum_flags(s: Seq<char>) -> Seq<bool> {
    s.map_values(|c: char| is_alnum(c))
}

/// Stripping by the alphanumeric flags is `strip_nonalnum`.
proof fn lemma_strip_flagged_alnum(s: Seq<char>)
    ensures
        strip_flagged(s, alnum_flags(s)) == strip_nonalnum(s),
{
    lemma_strip_start_flagged(s);
    lemma_strip_end_flagged(strip_nonalnum_start(s));
}

/// The leading part of the stripping agrees with `strip_nonalnum_start`.
proof fn lemma_strip_start_flagged(s: Seq<char>)
    ensures
        strip_start_flagged(s, alnum_flags(s)) == (strip_nonalnum_start(s), alnum_flags(strip_nonalnum_start(s))),
    decreases s.len(),
{
    if s.len() > 0 && !is_alnum(s[0]) {
        assert(alnum_flags(s).drop_first() =~= alnum_flags(s.drop_first()));
        lemma_strip_start_flagged(s.drop_first());
    }
}

/// The trailing part of the stripping agrees with `strip_nonalnum_end`.
proof fn lemma_strip_end_flagged(s: Seq<char>)
    ensures
        strip_end_flagged(s, alnum_flags(s)) == strip_nonalnum_end(s),
    decreases s.len(),
{
    if s.len() > 0 && !is_alnum(s.last()) {
        assert(alnum_flags(s).drop_last() =~= alnum_flags(s.drop_last()));
        lemma_strip_end_flagged(s.drop_last());
    }
}

/// Strips the leading and trailing characters of `s` whose flag is `false`.
pub fn strip_by_flags(s: &Vec<char>, flags: &Vec<bool>) -> (r: Vec<char>)
    requires
        flags@.len() == s@.len(),
    ensures
        r@ == strip_flagged(s@, flags@),
{
    let n = s.len();
    let mut lo: usize = 0;
    assert(s@.subrange(0, n as int) =~= s@);
    assert(flags@.subrange(0, n as int) =~= flags@);
    while lo < n && !flags[lo]
        invariant
            lo <= n,
            n == s@.len(),
            n == flags@.len(),
            strip_start_flagged(s@, flags@) == strip_start_flagged(
                s@.subrange(lo as int, n as int),
                flags@.subrange(lo as int, n as int),
            ),
        decreases n - lo,
    {
        assert(s@.subrange(lo as int, n as int).drop_first() =~= s@.subrange(lo + 1, n as int));
        assert(flags@.subrange(lo as int, n as int).drop_first() =~= flags@.subrange(lo + 1, n as int));
        lo += 1;
    }
    let mut hi: usize = n;
    while hi > lo && !flags[hi - 1]
        invariant
            lo <= hi <= n,
            n == s@.len(),
            n == flags@.len(),
            strip_flagged(s@, flags@) == strip_end_flagged(
                s@.subrange(lo as int, hi as int),
                flags@.subrange(lo as int, hi as int),
            ),
        decreases hi,
    {
        assert(s@.subrange(lo as int, hi as int).drop_last() =~= s@.subrange(lo as int, hi - 1));
        assert(flags@.subrange(lo as int, hi as int).drop_last() =~= flags@.subrange(lo as int, hi - 1));
        hi -= 1;
    }
    slice_chars(s, lo, hi)
}

/// `strip_nonalnum` on a character vector.
pub fn strip_nonalnum_chars(s: &Vec<char>) -> (r: Vec<char>)
    ensures
        r@ == strip_nonalnum(s@),
{
    let mut flags: Vec<bool> = Vec::new();
    let mut i: usize = 0;
    while i < s.len()
        invariant
            i <= s@.len(),
            flags@ =~= alnum_flags(s@).take(i as int),
        decreases s@.len() - i,
    {
        let a = char_is_alphanumeric(s[i]);
        flags.push(a);
        i += 1;
    }
    assert(alnum_flags(s@).take(i as int) =~= alnum_flags(s@));
    proof {
        lemma_strip_flagged_alnum(s@);
    }
    strip_by_flags(s, &flags)
}


// ---------------------------------------------------------------------------
// Decimal numbers
// ---------------------------------------------------------------------------

/// The ASCII digit of `d` (< 10).
pub open spec fn digit_char(d: nat) -> char {
    ((d + 48) as u8) as char
}

/// The decimal representation of `n` (what `{}` prints for an integer).
pub open spec fn decimal(n: nat) -> Seq<char>
    decreases n,
{
    if n < 10 {
        seq![digit_char(n)]
    } else {
        decimal(n / 10).push(digit_char(n % 10))
    }
}

/// Appends the decimal representation of `n`.
pub fn push_decimal(out: &mut Vec<char>, n: usize)
    ensures
        final(out)@ == old(out)@ + decimal(n as nat),
    decreases n,
{
    if n >= 10 {
        push_decimal(out, n / 10);
    }
    let d = (n % 10) as u8;
    out.push((d + 48) as char);
    proof {
        if n < 10 {
            assert(old(out)@.push(digit_char(n as nat)) =~= old(out)@ + decimal(n as nat));
        } else {
            assert(old(out)@ + decimal((n / 10) as nat) + seq![digit_char((n % 10) as nat)]
                =~= old(out)@ + decimal(n as nat));
        }
    }
}


/// `q` occurring at position `i` of `h` is also found by the fuzzy walk.
pub proof fn lemma_sub_at_is_fuzzy(q: Seq<char>, h: Seq<char>, i: int)
    requires
        0 <= i && i + q.len() <= h.len(),
        h.subrange(i, i + q.len()) == q,
    ensures
        fuzzy(q, h),
    decreases h.len(),
{
    if q.len() == 0 {
    } else if i > 0 {
        assert(h.drop_first().subrange(i - 1, i - 1 + q.len()) =~= h.subrange(i, i + q.len()));
        lemma_sub_at_is_fuzzy(q, h.drop_first(), i - 1);
        if h[0] == q[0] {
            lemma_fuzzy_drop(q, h.drop_first());
        }
    } else {
        assert(h[0] == q[0]) by {
            assert(h.subrange(0, q.len() as int)[0] == h[0]);
        }
        assert(h.drop_first().subrange(0, q.len() - 1) =~= q.drop_first());
        lemma_sub_at_is_fuzzy(q.drop_first(), h.drop_first(), 0);
    }
}

/// A subsequence stays a subsequence when its first character is dropped.
pub proof fn lemma_fuzzy_drop(q: Seq<char>, h: Seq<char>)
    requires
        q.len() > 0,
        fuzzy(q, h),
    ensures
        fuzzy(q.drop_first(), h),
    decreases h.len(), 1int,
{
    if h.len() > 0 {
        if h[0] == q[0] {
            lemma_fuzzy_weaken(q.drop_first(), h);
        } else {
            lemma_fuzzy_drop(q, h.drop_first());
            lemma_fuzzy_weaken(q.drop_first(), h);
        }
    }
}

/// A subsequence of `h` without its first character is a subsequence of `h`.
pub proof fn lemma_fuzzy_weaken(q: Seq<char>, h: Seq<char>)
    requires
        h.len() > 0,
        fuzzy(q, h.drop_first()),
    ensures
        fuzzy(q, h),
    decreases h.len(), 0int,
{
    if q.len() > 0 && h[0] == q[0] {
        lemma_fuzzy_drop(q, h.drop_first());
    }
}

/// Law: a plain (contiguous) match is also a fuzzy match.
pub proof fn lemma_substring_is_fuzzy(q: Seq<char>, h: Seq<char>)
    requires
        has_sub(h, q),
    ensures
        fuzzy(q, h),
{
    let i = choose|i: int| 0 <= i && i + q.len() <= h.len() && #[trigger] h.subrange(i, i + q.len()) == q;
    lemma_sub_at_is_fuzzy(q, h, i);
}

} // verus!
