//! An opened log file and its parsed entries.

use vstd::prelude::*;
use super::log_entry::LogEntry;
use crate::text::{from_chars, slice_chars, to_chars};

verus! {

/// A log file: its path or name and all its parsed entries.
#[derive(Debug, Clone, PartialEq, Eq)]
pub struct LogFile {
    /// Full file path or name.
    pub name: String,
    /// All parsed log entries of the file.
    pub entries: Vec<LogEntry>,
}

/// A path separator: `'/'` or `'\'`.
pub open spec fn is_sep(c: char) -> bool {
    c == '/' || c == '\\'
}

/// The last path component of `name`: the text after its last `'/'` or
/// `'\'` (all of it when there is none).
pub open spec fn last_component(name: Seq<char>) -> Seq<char>
    decreases name.len(),
{
    if name.len() == 0 {
        name
    } else if is_sep(name.last()) {
        seq![]
    } else {
        last_component(name.drop_last()).push(name.last())
    }
}

/// Position just after the last separator of `s` (0 when there is none).
pub fn last_component_start(s: &Vec<char>) -> (k: usize)
    ensures
        k <= s.len(),
        s@.skip(k as int) == last_component(s@),
{
    let mut k = s.len();
    assert(s@.skip(k as int) =~= Seq::<char>::empty());
    assert(s@.take(k as int) =~= s@);
    assert(last_component(s@) =~= last_component(s@.take(k as int)) + s@.skip(k as int));
    while k > 0 && s[k - 1] != '/' && s[k - 1] != '\\'
        invariant
            k <= s.len(),
            last_component(s@) == last_component(s@.take(k as int)) + s@.skip(k as int),
        decreases k,
    {
        assert(s@.take(k as int).drop_last() =~= s@.take(k - 1));
        assert(s@.skip(k - 1) =~= seq![s@[k - 1]] + s@.skip(k as int));
        assert(last_component(s@.take(k - 1)).push(s@[k - 1]) + s@.skip(k as int)
            =~= last_component(s@.take(k - 1)) + s@.skip(k - 1));
        k -= 1;
    }
    if k > 0 {
        assert(is_sep(s@.take(k as int).last()));
    }
    assert(last_component(s@.take(k as int)) =~= Seq::<char>::empty());
    assert(Seq::<char>::empty() + s@.skip(k as int) =~= s@.skip(k as int));
    k
}

/// The last component of a path (after the last `'/'` or `'\'`).
pub fn short_name_of(name: &str) -> (r: String)
    ensures
        r@ == last_component(name@),
{
    let v = to_chars(name);
    let k = last_component_start(&v);
    let tail = slice_chars(&v, k, v.len());
    assert(tail@ =~= v@.skip(k as int));
    from_chars(&tail)
}

impl LogFile {
    /// A log file with the given name and entries.
    pub fn new(name: String, entries: Vec<LogEntry>) -> (r: Self)
        ensures
            r.name == name,
            r.entries == entries,
    {
        Self { name, entries }
    }

    /// The file name without its directories: the text after the last `'/'` or `'\'`.
    pub fn short_name(&self) -> (r: String)
        ensures
            r@ == last_component(self.name@),
    {
        short_name_of(self.name.as_str())
    }

    /// The number of entries.
    pub fn entry_count(&self) -> (r: usize)
        ensures
            r == self.entries@.len(),
    {
        self.entries.len()
    }
}

} // verus!
