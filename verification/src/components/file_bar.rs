//! Tab management of the file bar.

use vstd::prelude::*;
use crate::shared::types::{LogEntry, LogFile};
use crate::text::{ends_with, lower, lower_chars, str_eq, to_chars};

verus! {

/// Only files whose name ends in ".log" (any case) are opened.
pub fn is_log_file_name(name: &str) -> (r: bool)
    ensures
        r == ends_with(lower(name@), ".log"@),
{
    let v = to_chars(name);
    let l = lower_chars(&v);
    let suffix = to_chars(".log");
    if suffix.len() > l.len() {
        return false;
    }
    let start = l.len() - suffix.len();
    let r = crate::text::matches_at(&l, start, &suffix);
    assert(l@.subrange(start as int, start + suffix.len()) =~= l@.skip(start as int));
    r
}

/// The names of the open files.
pub open spec fn file_names(files: Seq<LogFile>) -> Seq<Seq<char>> {
    files.map_values(|f: LogFile| f.name@)
}

/// The open files once `f` is opened: unchanged when a file of that name
/// is open, else `f` added at the end.
pub open spec fn with_file(files: Seq<LogFile>, f: LogFile) -> Seq<LogFile> {
    if file_names(files).contains(f.name@) {
        files
    } else {
        files.push(f)
    }
}

/// No two of the names are the same.
pub open spec fn distinct_names(names: Seq<Seq<char>>) -> bool {
    forall|i: int, j: int| 0 <= i < j < names.len() ==> names[i] != names[j]
}

/// Law: opening a file never gives two tabs of the same name.
pub proof fn lemma_open_keeps_names_distinct(files: Seq<LogFile>, f: LogFile)
    requires
        distinct_names(file_names(files)),
    ensures
        distinct_names(file_names(with_file(files, f))),
{
    if !file_names(files).contains(f.name@) {
        let g = files.push(f);
        assert forall|i: int, j: int| 0 <= i < j < file_names(g).len() implies file_names(g)[i]
            != file_names(g)[j] by {
            if j == files.len() {
                assert(file_names(g)[i] == file_names(files)[i]);
            } else {
                assert(file_names(g)[i] == file_names(files)[i]);
                assert(file_names(g)[j] == file_names(files)[j]);
            }
        }
    }
}

/// Adds a freshly parsed file unless one with the same name is open, and
/// returns the tab to activate: the last one.
pub fn add_opened_file(files: &mut Vec<LogFile>, name: String, entries: Vec<LogEntry>) -> (r: usize)
    ensures
        final(files)@ == with_file(old(files)@, LogFile { name, entries }),
        r == if final(files)@.len() == 0 { 0 } else { final(files)@.len() - 1 },
{
    let mut present = false;
    let mut i: usize = 0;
    while i < files.len()
        invariant
            i <= files@.len(),
            files@ == old(files)@,
            present == exists|j: int| 0 <= j < i && #[trigger] files@[j].name@ == name@,
        decreases files@.len() - i,
    {
        if str_eq(files[i].name.as_str(), name.as_str()) {
            present = true;
        }
        i += 1;
    }
    proof {
        if present {
            let j = choose|j: int| 0 <= j < files@.len() && #[trigger] files@[j].name@ == name@;
            assert(file_names(files@)[j] == name@);
        }
        if file_names(files@).contains(name@) {
            let j = choose|j: int| 0 <= j < files@.len() && file_names(files@)[j] == name@;
            assert(files@[j].name@ == name@);
        }
    }
    if !present {
        files.push(LogFile { name, entries });
    }
    if files.len() == 0 {
        0
    } else {
        files.len() - 1
    }
}

/// The active tab after the tab at `index` was closed, with `n` tabs left.
pub open spec fn active_after_close(index: int, n: int) -> Option<usize> {
    if n == 0 {
        None
    } else if index >= n {
        Some((n - 1) as usize)
    } else {
        Some(index as usize)
    }
}

/// The new active tab (`None`: unchanged) when the tab at `index` is
/// closed, `active` was the active one and `n` tabs are left.
pub open spec fn tab_closed(index: int, active: Option<usize>, n: int) -> Option<Option<usize>> {
    match active {
        None => None,
        Some(a) => if a == index {
            Some(active_after_close(index, n))
        } else if a > index {
            Some(Some((a - 1) as usize))
        } else {
            None
        },
    }
}

/// The active tab once a close returned `r`: the new one, or else the old.
pub open spec fn active_after(active: Option<usize>, r: Option<Option<usize>>) -> Option<usize> {
    match r {
        Some(a) => a,
        None => active,
    }
}

/// Law: closing a tab of `n` tabs, whether by its button or as the active
/// tab, leaves a valid active tab: none only when no tab is left, and
/// otherwise one of the `n - 1` tabs left.
pub proof fn lemma_close_keeps_active_valid(index: int, a: usize, n: int)
    requires
        0 <= index < n,
        a < n,
    ensures
        active_after(Some(a), tab_closed(index, Some(a), n - 1)) matches Some(b) ==> b < n - 1,
        active_after(Some(a), tab_closed(index, Some(a), n - 1)) is None ==> n == 1,
        active_after(Some(a), Some(active_after_close(a as int, n - 1))) matches Some(b) ==> b < n - 1,
        active_after(Some(a), Some(active_after_close(a as int, n - 1))) is None ==> n == 1,
{
}

/// Which file is active after the tab at `index` of `before` was closed,
/// leaving `after`, when the tab at `a` was active and `now` is the new
/// active tab: another tab's file stays active; when the active tab itself
/// is closed, the file that followed it becomes active, or, when it was the
/// last tab, the file before it; and no tab is active once none is left.
pub open spec fn focus_after_close(before: Seq<LogFile>, after: Seq<LogFile>, index: int, a: int, now: Option<usize>) -> bool {
    &&& a != index ==> (now matches Some(b) && b < after.len() && after[b as int] == before[a])
    &&& (a == index && index + 1 < before.len()) ==> (now matches Some(b) && b < after.len() && after[b as int]
        == before[index + 1])
    &&& (a == index && index + 1 == before.len() && index > 0) ==> (now matches Some(b) && b < after.len()
        && after[b as int] == before[index - 1])
    &&& after.len() == 0 ==> now is None
}

/// Law: closing a tab, by its button or with Ctrl+W on the active tab,
/// keeps the active file when another tab is closed, and otherwise makes
/// the file that slid into the closed tab's place active (the one before it
/// when the last tab was closed); with no tab left, none is active.
pub proof fn lemma_close_tab_focus(files: Seq<LogFile>, index: usize, a: usize)
    requires
        index < files.len(),
        a < files.len(),
    ensures
        focus_after_close(
            files,
            files.remove(index as int),
            index as int,
            a as int,
            active_after(Some(a), tab_closed(index as int, Some(a), files.remove(index as int).len() as int)),
        ),
        focus_after_close(
            files,
            files.remove(index as int),
            index as int,
            index as int,
            active_after(Some(index), Some(active_after_close(index as int, files.remove(index as int).len() as int))),
        ),
{
    let i = index as int;
    let rest = files.remove(i);
    assert(rest.len() == files.len() - 1);
    if a < index {
        assert(rest[a as int] == files[a as int]);
    } else if a > index {
        assert(rest[a - 1] == files[a as int]);
    }
    if i + 1 < files.len() {
        assert(rest[i] == files[i + 1]);
    }
    if i + 1 == files.len() && i > 0 {
        assert(rest[i - 1] == files[i - 1]);
    }
}

/// Closes the tab at `index` (its close button).  Returns the new active
/// tab when it changes (`None`: unchanged).
pub fn close_tab(files: &mut Vec<LogFile>, index: usize, active: Option<usize>) -> (r: Option<Option<usize>>)
    ensures
        index >= old(files)@.len() ==> final(files)@ == old(files)@ && r is None,
        index < old(files)@.len() ==> {
            &&& final(files)@ == old(files)@.remove(index as int)
            &&& r == tab_closed(index as int, active, final(files)@.len() as int)
        },
        index < old(files)@.len() ==> match active {
            Some(a) => a < old(files)@.len() ==> focus_after_close(
                old(files)@,
                final(files)@,
                index as int,
                a as int,
                active_after(active, r),
            ),
            None => true,
        },
{
    if index >= files.len() {
        return None;
    }
    files.remove(index);
    let n = files.len();
    match active {
        None => None,
        Some(a) => {
            if a == index {
                Some(if n == 0 {
                    None
                } else if index >= n {
                    Some(n - 1)
                } else {
                    Some(index)
                })
            } else if a > index {
                Some(Some(a - 1))
            } else {
                None
            }
        },
    }
}

/// Closes the active tab (Ctrl+W).  Returns the new active tab when a tab
/// was closed.
pub fn close_active_tab(files: &mut Vec<LogFile>, active: Option<usize>) -> (r: Option<Option<usize>>)
    ensures
        match active {
            Some(idx) if idx < old(files)@.len() => {
                &&& final(files)@ == old(files)@.remove(idx as int)
                &&& r == Some(active_after_close(idx as int, final(files)@.len() as int))
                &&& focus_after_close(old(files)@, final(files)@, idx as int, idx as int, active_after(active, r))
            },
            _ => final(files)@ == old(files)@ && r is None,
        },
{
    match active {
        Some(idx) => {
            if idx < files.len() {
                files.remove(idx);
                let n = files.len();
                Some(if n == 0 {
                    None
                } else if idx >= n {
                    Some(n - 1)
                } else {
                    Some(idx)
                })
            } else {
                None
            }
        },
        None => None,
    }
}

} // verus!
