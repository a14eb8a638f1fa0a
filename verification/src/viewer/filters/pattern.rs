//! Regular-expression search.
//!
//! The search box's regex mode understands a small, always valid syntax:
//! an ordinary character matches itself, `.` matches any character, a
//! character or `.` followed by `*` matches any number of them (none
//! included), `^` at the start anchors the pattern to the start of the text
//! and `$` at the end anchors it to the end.  A pattern matches a text when
//! it matches some part of it.

use vstd::prelude::*;
use crate::text::has_sub;

verus! {

/// Whether the pattern character `p` (`.` or an ordinary character) matches `c`.
pub open spec fn atom_ok(p: char, c: char) -> bool {
    p == '.' || p == c
}

/// Whether the pattern `re` matches a prefix of `t`.
pub open spec fn regex_here(re: Seq<char>, t: Seq<char>) -> bool
    decreases re.len(), t.len(),
{
    if re.len() == 0 {
        true
    } else if re.len() >= 2 && re[1] == '*' {
        regex_here(re.skip(2), t) || (t.len() > 0 && atom_ok(re[0], t[0]) && regex_here(re, t.skip(1)))
    } else if re.len() == 1 && re[0] == '$' {
        t.len() == 0
    } else {
        t.len() > 0 && atom_ok(re[0], t[0]) && regex_here(re.skip(1), t.skip(1))
    }
}

/// Whether the pattern `re` matches somewhere in `t`.
pub open spec fn regex_match(re: Seq<char>, t: Seq<char>) -> bool {
    if re.len() > 0 && re[0] == '^' {
        regex_here(re.skip(1), t)
    } else {
        exists|i: int| 0 <= i <= t.len() && #[trigger] regex_here(re, t.skip(i))
    }
}

/// `regex_here` on the pattern from `ri` and the text from `ti`.
fn match_here(re: &Vec<char>, ri: usize, t: &Vec<char>, ti: usize) -> (r: bool)
    requires
        ri <= re.len(),
        ti <= t.len(),
    ensures
        r == regex_here(re@.skip(ri as int), t@.skip(ti as int)),
    decreases re.len() - ri, t.len() - ti,
{
    let ghost rs = re@.skip(ri as int);
    let ghost ts = t@.skip(ti as int);
    if ri == re.len() {
        return true;
    }
    assert(rs[0] == re@[ri as int]);
    if ri + 1 < re.len() && re[ri + 1] == '*' {
        assert(rs[1] == re@[ri + 1]);
        assert(rs.skip(2) =~= re@.skip(ri + 2));
        if match_here(re, ri + 2, t, ti) {
            return true;
        }
        if ti < t.len() && (re[ri] == '.' || re[ri] == t[ti]) {
            assert(ts[0] == t@[ti as int]);
            assert(ts.skip(1) =~= t@.skip(ti + 1));
            return match_here(re, ri, t, ti + 1);
        }
        if ti < t.len() {
            assert(ts[0] == t@[ti as int]);
        }
        return false;
    }
    if ri + 1 == re.len() && re[ri] == '$' {
        return ti == t.len();
    }
    if ti < t.len() && (re[ri] == '.' || re[ri] == t[ti]) {
        assert(ts[0] == t@[ti as int]);
        assert(ts.skip(1) =~= t@.skip(ti + 1));
        assert(rs.skip(1) =~= re@.skip(ri + 1));
        return match_here(re, ri + 1, t, ti + 1);
    }
    if ti < t.len() {
        assert(ts[0] == t@[ti as int]);
    }
    false
}

/// Whether the pattern `re` matches somewhere in the text `t`.
pub fn regex_find(re: &Vec<char>, t: &Vec<char>) -> (r: bool)
    ensures
        r == regex_match(re@, t@),
{
    if re.len() > 0 && re[0] == '^' {
        assert(t@.skip(0) =~= t@);
        return match_here(re, 1, t, 0);
    }
    assert(re@.skip(0) =~= re@);
    let mut i: usize = 0;
    while i < t.len()
        invariant
            i <= t.len(),
            !(re@.len() > 0 && re@[0] == '^'),
            re@.skip(0) == re@,
            forall|j: int| 0 <= j < i ==> !#[trigger] regex_here(re@, t@.skip(j)),
        decreases t.len() - i,
    {
        if match_here(re, 0, t, i) {
            assert(regex_here(re@, t@.skip(i as int)));
            return true;
        }
        i += 1;
    }
    let last = match_here(re, 0, t, i);
    if last {
        assert(regex_here(re@, t@.skip(i as int)));
    } else {
        assert forall|j: int| 0 <= j <= t@.len() implies !#[trigger] regex_here(re@, t@.skip(j)) by {
            if j == t@.len() {
                assert(j == i);
            }
        }
    }
    last
}

/// The pattern has none of the characters `.`, `*`, `^` and `$`.
pub open spec fn is_literal_pattern(re: Seq<char>) -> bool {
    forall|j: int| 0 <= j < re.len() ==> #[trigger] re[j] != '.' && re[j] != '*' && re[j] != '^' && re[j] != '$'
}

/// A pattern without special characters matches a prefix exactly when the
/// text starts with it.
proof fn lemma_literal_here(re: Seq<char>, t: Seq<char>)
    requires
        is_literal_pattern(re),
    ensures
        regex_here(re, t) == (re.len() <= t.len() && t.take(re.len() as int) == re),
    decreases re.len(),
{
    if re.len() == 0 {
        assert(t.take(0) =~= re);
    } else {
        assert(re[0] != '.' && re[0] != '$');
        if re.len() >= 2 {
            assert(re[1] != '*');
        }
        assert forall|j: int| 0 <= j < re.skip(1).len() implies #[trigger] re.skip(1)[j] != '.' && re.skip(1)[j]
            != '*' && re.skip(1)[j] != '^' && re.skip(1)[j] != '$' by {
            assert(re.skip(1)[j] == re[j + 1]);
        }
        if t.len() > 0 {
            lemma_literal_here(re.skip(1), t.skip(1));
            if re.len() <= t.len() {
                if t.take(re.len() as int) == re {
                    assert(t[0] == t.take(re.len() as int)[0]);
                    assert(t.skip(1).take(re.len() - 1) =~= re.skip(1)) by {
                        assert forall|j: int| 0 <= j < re.len() - 1 implies t.skip(1).take(re.len() - 1)[j]
                            == re.skip(1)[j] by {
                            assert(t.take(re.len() as int)[j + 1] == re[j + 1]);
                        }
                    }
                } else if re[0] == t[0] && t.skip(1).take(re.len() - 1) == re.skip(1) {
                    assert forall|j: int| 0 <= j < re.len() implies t.take(re.len() as int)[j] == re[j] by {
                        if j > 0 {
                            assert(t.skip(1).take(re.len() - 1)[j - 1] == re.skip(1)[j - 1]);
                        }
                    }
                    assert(t.take(re.len() as int) =~= re);
                }
            }
        }
    }
}

/// Law: a pattern without `.`, `*`, `^` and `$` finds exactly what the
/// plain search finds: it matches a text when it occurs in it.
pub proof fn lemma_literal_pattern_is_plain_search(re: Seq<char>, t: Seq<char>)
    requires
        is_literal_pattern(re),
    ensures
        regex_match(re, t) == has_sub(t, re),
{
    if re.len() > 0 {
        assert(re[0] != '^');
    }
    if regex_match(re, t) {
        let i = choose|i: int| 0 <= i <= t.len() && #[trigger] regex_here(re, t.skip(i));
        lemma_literal_here(re, t.skip(i));
        assert(t.subrange(i, i + re.len()) =~= t.skip(i).take(re.len() as int));
    }
    if has_sub(t, re) {
        let i = choose|i: int| 0 <= i && i + re.len() <= t.len() && #[trigger] t.subrange(i, i + re.len()) == re;
        lemma_literal_here(re, t.skip(i));
        assert(t.subrange(i, i + re.len()) =~= t.skip(i).take(re.len() as int));
        assert(regex_here(re, t.skip(i)));
    }
}

} // verus!
