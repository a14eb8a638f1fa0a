//! Level ranks and level colours.

use vstd::prelude::*;
use crate::text::{chars_eq, to_chars, upper, upper_chars};

verus! {

/// Rank of a level name for minimum-severity filtering (case-insensitive);
/// 99 for anything that is not a level.
pub open spec fn severity_rank_spec(s: Seq<char>) -> u8 {
    let u = upper(s);
    if u == "TRACE"@ {
        0
    } else if u == "DEBUG"@ {
        1
    } else if u == "INFO"@ || u == "SUCCESS"@ {
        2
    } else if u == "WARN"@ || u == "WARNING"@ {
        3
    } else if u == "ERROR"@ {
        4
    } else if u == "FATAL"@ {
        5
    } else {
        99
    }
}

/// Whether `v` holds the text of `lit`.
pub fn is_lit(v: &Vec<char>, lit: &str) -> (r: bool)
    ensures
        r == (v@ == lit@),
{
    let l = to_chars(lit);
    chars_eq(v, &l)
}

/// Numeric rank of a level for severity-based filtering.
pub fn severity_rank(s: &str) -> (r: u8)
    ensures
        r == severity_rank_spec(s@),
{
    let v = to_chars(s);
    let u = upper_chars(&v);
    if is_lit(&u, "TRACE") {
        0
    } else if is_lit(&u, "DEBUG") {
        1
    } else if is_lit(&u, "INFO") || is_lit(&u, "SUCCESS") {
        2
    } else if is_lit(&u, "WARN") || is_lit(&u, "WARNING") {
        3
    } else if is_lit(&u, "ERROR") {
        4
    } else if is_lit(&u, "FATAL") {
        5
    } else {
        99
    }
}

/// Text, background, border and accent colours of a level badge.
pub open spec fn level_colors_spec(level: Seq<char>, dark: bool) -> (Seq<char>, Seq<char>, Seq<char>, Seq<char>) {
    if level == "INFO"@ {
        if dark { ("#93c5fd"@, "#93c5fd14"@, "#93c5fd35"@, "transparent"@) } else { ("#2563eb"@, "#2563eb0e"@, "#2563eb30"@, "transparent"@) }
    } else if level == "DEBUG"@ {
        if dark { ("#94a3b8"@, "#94a3b810"@, "#94a3b825"@, "transparent"@) } else { ("#64748b"@, "#64748b0a"@, "#64748b20"@, "transparent"@) }
    } else if level == "TRACE"@ {
        if dark { ("#67e8f9"@, "#67e8f910"@, "#67e8f925"@, "transparent"@) } else { ("#0891b2"@, "#0891b20a"@, "#0891b220"@, "transparent"@) }
    } else if level == "SUCCESS"@ {
        if dark { ("#6ee7b7"@, "#6ee7b714"@, "#6ee7b730"@, "transparent"@) } else { ("#059669"@, "#0596690e"@, "#05966930"@, "transparent"@) }
    } else if level == "WARN"@ || level == "WARNING"@ {
        if dark { ("#fcd34d"@, "#fcd34d12"@, "#fcd34d35"@, "#f59e0b"@) } else { ("#d97706"@, "#d977060e"@, "#d9770630"@, "#f59e0b"@) }
    } else if level == "ERROR"@ {
        if dark { ("#fca5a5"@, "#fca5a514"@, "#fca5a535"@, "#ef4444"@) } else { ("#dc2626"@, "#dc26260e"@, "#dc262630"@, "#ef4444"@) }
    } else if level == "FATAL"@ {
        if dark { ("#f0abfc"@, "#f0abfc14"@, "#f0abfc35"@, "#d946ef"@) } else { ("#9333ea"@, "#9333ea0e"@, "#9333ea30"@, "#d946ef"@) }
    } else {
        if dark { ("#8b92a8"@, "#00000000"@, "#00000000"@, "transparent"@) } else { ("#6b7280"@, "#00000000"@, "#00000000"@, "transparent"@) }
    }
}

/// Level → (text, background, border, left accent) colours.
pub fn level_colors(level: &str, dark: bool) -> (r: (&'static str, &'static str, &'static str, &'static str))
    ensures
        (r.0@, r.1@, r.2@, r.3@) == level_colors_spec(level@, dark),
{
    let v = to_chars(level);
    if is_lit(&v, "INFO") {
        if dark { ("#93c5fd", "#93c5fd14", "#93c5fd35", "transparent") } else { ("#2563eb", "#2563eb0e", "#2563eb30", "transparent") }
    } else if is_lit(&v, "DEBUG") {
        if dark { ("#94a3b8", "#94a3b810", "#94a3b825", "transparent") } else { ("#64748b", "#64748b0a", "#64748b20", "transparent") }
    } else if is_lit(&v, "TRACE") {
        if dark { ("#67e8f9", "#67e8f910", "#67e8f925", "transparent") } else { ("#0891b2", "#0891b20a", "#0891b220", "transparent") }
    } else if is_lit(&v, "SUCCESS") {
        if dark { ("#6ee7b7", "#6ee7b714", "#6ee7b730", "transparent") } else { ("#059669", "#0596690e", "#05966930", "transparent") }
    } else if is_lit(&v, "WARN") || is_lit(&v, "WARNING") {
        if dark { ("#fcd34d", "#fcd34d12", "#fcd34d35", "#f59e0b") } else { ("#d97706", "#d977060e", "#d9770630", "#f59e0b") }
    } else if is_lit(&v, "ERROR") {
        if dark { ("#fca5a5", "#fca5a514", "#fca5a535", "#ef4444") } else { ("#dc2626", "#dc26260e", "#dc262630", "#ef4444") }
    } else if is_lit(&v, "FATAL") {
        if dark { ("#f0abfc", "#f0abfc14", "#f0abfc35", "#d946ef") } else { ("#9333ea", "#9333ea0e", "#9333ea30", "#d946ef") }
    } else {
        if dark { ("#8b92a8", "#00000000", "#00000000", "transparent") } else { ("#6b7280", "#00000000", "#00000000", "transparent") }
    }
}

/// Whether the level is one of the eight names that have colours of their own.
pub open spec fn is_coloured_level(level: Seq<char>) -> bool {
    level == "INFO"@ || level == "DEBUG"@ || level == "TRACE"@ || level == "SUCCESS"@ || level == "WARN"@
        || level == "WARNING"@ || level == "ERROR"@ || level == "FATAL"@
}

/// Law: the left accent of a level is the same in both themes, and only
/// warnings, errors and fatal errors have one; "WARN" and "WARNING" look
/// alike; a level without colours of its own gets transparent tints.
pub proof fn lemma_level_colors_relations(level: Seq<char>, dark: bool)
    ensures
        level_colors_spec(level, true).3 == level_colors_spec(level, false).3,
        level_colors_spec(level, dark).3 != "transparent"@ <==> (level == "WARN"@ || level == "WARNING"@
            || level == "ERROR"@ || level == "FATAL"@),
        level_colors_spec("WARN"@, dark) == level_colors_spec("WARNING"@, dark),
        !is_coloured_level(level) ==> level_colors_spec(level, dark).1 == "#00000000"@
            && level_colors_spec(level, dark).2 == "#00000000"@,
{
    reveal_strlit("transparent");
    reveal_strlit("#f59e0b");
    reveal_strlit("#ef4444");
    reveal_strlit("#d946ef");
    reveal_strlit("INFO");
    reveal_strlit("DEBUG");
    reveal_strlit("TRACE");
    reveal_strlit("SUCCESS");
    reveal_strlit("WARN");
    reveal_strlit("WARNING");
    reveal_strlit("ERROR");
    reveal_strlit("FATAL");
    assert("INFO"@[0] != "WARN"@[0]);
    assert("SUCCESS"@[0] != "WARNING"@[0]);
    assert("DEBUG"@[0] != "ERROR"@[0] && "DEBUG"@[0] != "FATAL"@[0] && "TRACE"@[0] != "ERROR"@[0]);
    assert("TRACE"@[0] != "FATAL"@[0] && "ERROR"@[0] != "FATAL"@[0]);
    assert("transparent"@.len() != "#f59e0b"@.len());
    assert("transparent"@.len() != "#ef4444"@.len());
    assert("transparent"@.len() != "#d946ef"@.len());
    assert("WARN"@.len() != "WARNING"@.len());
}

/// The level filter pills: (filter value, label, colour).
pub open spec fn level_pills_spec() -> Seq<(Seq<char>, Seq<char>, Seq<char>)> {
    seq![
        ("all"@, "All"@, "#7c9dff"@),
        ("info"@, "Info"@, "#60a5fa"@),
        ("warn"@, "Warn"@, "#f59e0b"@),
        ("error"@, "Error"@, "#f87171"@),
        ("debug"@, "Debug"@, "#94a3b8"@),
        ("fatal"@, "Fatal"@, "#e879f9"@),
        ("trace"@, "Trace"@, "#22d3ee"@),
        ("success"@, "Success"@, "#34d399"@),
    ]
}

/// The minimum-severity options: (value, label, colour).
pub open spec fn min_severity_spec() -> Seq<(Seq<char>, Seq<char>, Seq<char>)> {
    seq![
        ("all"@, "Any"@, "#7c9dff"@),
        ("debug"@, "Debug+"@, "#94a3b8"@),
        ("info"@, "Info+"@, "#60a5fa"@),
        ("warn"@, "Warn+"@, "#f59e0b"@),
        ("error"@, "Error+"@, "#f87171"@),
        ("fatal"@, "Fatal"@, "#e879f9"@),
    ]
}

/// Level filter pills: (filter value, label, colour).
pub fn level_pills() -> (r: [(&'static str, &'static str, &'static str); 8])
    ensures
        r@.len() == 8,
        forall|i: int| 0 <= i < 8 ==> (#[trigger] r@[i].0@, r@[i].1@, r@[i].2@) == level_pills_spec()[i],
{
    [
        ("all", "All", "#7c9dff"),
        ("info", "Info", "#60a5fa"),
        ("warn", "Warn", "#f59e0b"),
        ("error", "Error", "#f87171"),
        ("debug", "Debug", "#94a3b8"),
        ("fatal", "Fatal", "#e879f9"),
        ("trace", "Trace", "#22d3ee"),
        ("success", "Success", "#34d399"),
    ]
}

/// Minimum-severity options: (value, label, colour).
pub fn min_severity_options() -> (r: [(&'static str, &'static str, &'static str); 6])
    ensures
        r@.len() == 6,
        forall|i: int| 0 <= i < 6 ==> (#[trigger] r@[i].0@, r@[i].1@, r@[i].2@) == min_severity_spec()[i],
{
    [
        ("all", "Any", "#7c9dff"),
        ("debug", "Debug+", "#94a3b8"),
        ("info", "Info+", "#60a5fa"),
        ("warn", "Warn+", "#f59e0b"),
        ("error", "Error+", "#f87171"),
        ("fatal", "Fatal", "#e879f9"),
    ]
}

} // verus!
