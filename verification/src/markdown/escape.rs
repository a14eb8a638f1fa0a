//! HTML escaping.

use vstd::prelude::*;
use crate::text::{push_char, to_chars};

verus! {

/// The escaped form of one character.
pub open spec fn escape_char(c: char) -> Seq<char> {
    if c == '&' {
        "&amp;"@
    } else if c == '<' {
        "&lt;"@
    } else if c == '>' {
        "&gt;"@
    } else if c == '"' {
        "&quot;"@
    } else if c == '\'' {
        "&#39;"@
    } else {
        seq![c]
    }
}

/// `s` with `&`, `<`, `>`, `"` and `'` replaced by their entities.
pub open spec fn escape(s: Seq<char>) -> Seq<char>
    decreases s.len(),
{
    if s.len() == 0 {
        seq![]
    } else {
        escape(s.drop_last()) + escape_char(s.last())
    }
}

/// Appends the escaped form of `c` to `out`.
pub fn push_escaped_char(out: &mut String, c: char)
    ensures
        final(out)@ == old(out)@ + escape_char(c),
{
    if c == '&' {
        out.append("&amp;");
    } else if c == '<' {
        out.append("&lt;");
    } else if c == '>' {
        out.append("&gt;");
    } else if c == '"' {
        out.append("&quot;");
    } else if c == '\'' {
        out.append("&#39;");
    } else {
        push_char(out, c);
        assert(old(out)@.push(c) =~= old(out)@ + seq![c]);
    }
}

/// Appends the escaped form of `s[lo..hi]` to `out`.
pub fn push_escaped(out: &mut String, s: &Vec<char>, lo: usize, hi: usize)
    requires
        lo <= hi <= s.len(),
    ensures
        final(out)@ == old(out)@ + escape(s@.subrange(lo as int, hi as int)),
{
    let mut i = lo;
    assert(s@.subrange(lo as int, lo as int) =~= Seq::<char>::empty());
    assert(old(out)@ + seq![] =~= old(out)@);
    while i < hi
        invariant
            lo <= i <= hi <= s.len(),
            out@ == old(out)@ + escape(s@.subrange(lo as int, i as int)),
        decreases hi - i,
    {
        push_escaped_char(out, s[i]);
        assert(s@.subrange(lo as int, i + 1).drop_last() =~= s@.subrange(lo as int, i as int));
        i += 1;
    }
}

/// Escapes a whole string for safe HTML insertion.
pub fn html_escape(s: &str) -> (r: String)
    ensures
        r@ == escape(s@),
{
    let v = to_chars(s);
    let mut out = String::new();
    push_escaped(&mut out, &v, 0, v.len());
    assert(v@.subrange(0, v.len() as int) =~= v@);
    assert(Seq::<char>::empty() + escape(s@) =~= escape(s@));
    out
}

/// Escapes a single character.
pub fn html_escape_char(c: char) -> (r: String)
    ensures
        r@ == escape_char(c),
{
    let mut out = String::new();
    push_escaped_char(&mut out, c);
    assert(Seq::<char>::empty() + escape_char(c) =~= escape_char(c));
    out
}

/// A character that can open or close markup or an attribute value.
pub open spec fn is_markup_char(c: char) -> bool {
    c == '<' || c == '>' || c == '"' || c == '\''
}

/// Escaped text holds no character that could start or end markup, so
/// inserting it as HTML cannot add elements or attributes.
pub proof fn lemma_escape_is_inert(s: Seq<char>)
    ensures
        forall|i: int| 0 <= i < escape(s).len() ==> !is_markup_char(#[trigger] escape(s)[i]),
    decreases s.len(),
{
    reveal_strlit("&amp;");
    reveal_strlit("&lt;");
    reveal_strlit("&gt;");
    reveal_strlit("&quot;");
    reveal_strlit("&#39;");
    if s.len() > 0 {
        lemma_escape_is_inert(s.drop_last());
        let a = escape(s.drop_last());
        let b = escape_char(s.last());
        assert forall|i: int| 0 <= i < escape(s).len() implies !is_markup_char(#[trigger] escape(s)[i]) by {
            if i < a.len() {
                assert(escape(s)[i] == a[i]);
            } else {
                assert(escape(s)[i] == b[i - a.len()]);
            }
        }
    }
}


/// Escaping a concatenation escapes each part.
pub proof fn lemma_escape_concat(a: Seq<char>, b: Seq<char>)
    ensures
        escape(a + b) == escape(a) + escape(b),
    decreases b.len(),
{
    if b.len() == 0 {
        assert(a + b =~= a);
        assert(escape(a) + escape(b) =~= escape(a));
    } else {
        lemma_escape_concat(a, b.drop_last());
        assert((a + b).drop_last() =~= a + b.drop_last());
        assert((a + b).last() == b.last());
        assert(escape(a + b) =~= escape(a) + escape(b));
    }
}

/// Reading escaped text back, left to right: each of the five entities
/// `&amp;`, `&lt;`, `&gt;`, `&quot;` and `&#39;` gives its character, and
/// any other character stands for itself.
pub open spec fn unescape(t: Seq<char>) -> Seq<char>
    decreases t.len(),
{
    if t.len() == 0 {
        seq![]
    } else if t.len() >= 5 && t.take(5) == "&amp;"@ {
        seq!['&'] + unescape(t.skip(5))
    } else if t.len() >= 4 && t.take(4) == "&lt;"@ {
        seq!['<'] + unescape(t.skip(4))
    } else if t.len() >= 4 && t.take(4) == "&gt;"@ {
        seq!['>'] + unescape(t.skip(4))
    } else if t.len() >= 6 && t.take(6) == "&quot;"@ {
        seq!['"'] + unescape(t.skip(6))
    } else if t.len() >= 5 && t.take(5) == "&#39;"@ {
        seq!['\''] + unescape(t.skip(5))
    } else {
        seq![t[0]] + unescape(t.skip(1))
    }
}

/// Reading back one escaped character followed by more text.
proof fn lemma_unescape_char(c: char, r: Seq<char>)
    ensures
        unescape(escape_char(c) + r) == seq![c] + unescape(r),
{
    reveal_strlit("&amp;");
    reveal_strlit("&lt;");
    reveal_strlit("&gt;");
    reveal_strlit("&quot;");
    reveal_strlit("&#39;");
    let e = escape_char(c);
    let t = e + r;
    assert(t.skip(e.len() as int) =~= r);
    assert(t.take(e.len() as int) =~= e);
    assert(t[0] == e[0]);
    if t.len() >= 5 {
        assert(t.take(5)[0] == t[0] && t.take(5)[1] == t[1]);
    }
    if t.len() >= 4 {
        assert(t.take(4)[0] == t[0] && t.take(4)[1] == t[1]);
    }
    if t.len() >= 6 {
        assert(t.take(6)[0] == t[0] && t.take(6)[1] == t[1]);
    }
    if e.len() > 1 {
        assert(t[1] == e[1]);
    }
    assert("&amp;"@[1] == 'a' && "&lt;"@[1] == 'l' && "&gt;"@[1] == 'g');
    assert("&quot;"@[1] == 'q' && "&#39;"@[1] == '#');
}

/// Law: escaping loses nothing: reading the escaped text back gives the
/// text, so two texts with the same escaped form are the same.
pub proof fn lemma_unescape_escape(s: Seq<char>)
    ensures
        unescape(escape(s)) == s,
    decreases s.len(),
{
    if s.len() > 0 {
        let rest = s.skip(1);
        assert(s =~= seq![s[0]] + rest);
        lemma_escape_concat(seq![s[0]], rest);
        let one = seq![s[0]];
        assert(one.drop_last() =~= Seq::<char>::empty());
        assert(one.last() == s[0]);
        assert(escape(one.drop_last()) == Seq::<char>::empty());
        assert(escape(one) == escape(one.drop_last()) + escape_char(s[0]));
        assert(escape(one) =~= escape_char(s[0]));
        lemma_unescape_char(s[0], escape(rest));
        lemma_unescape_escape(rest);
    }
}

/// Law: different texts have different escaped forms.
pub proof fn lemma_escape_injective(a: Seq<char>, b: Seq<char>)
    requires
        escape(a) == escape(b),
    ensures
        a == b,
{
    lemma_unescape_escape(a);
    lemma_unescape_escape(b);
}

} // verus!
