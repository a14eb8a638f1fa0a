//! The status bar.

use vstd::prelude::*;
use crate::text::{decimal, extend_str, from_chars, push_decimal};

verus! {

/// The line count shown in the status bar ("" when no file is open).
pub fn lines_label(n: usize) -> (r: String)
    ensures
        r@ == if n == 0 {
            Seq::<char>::empty()
        } else {
            decimal(n as nat) + " lines"@
        },
{
    if n == 0 {
        return String::new();
    }
    let mut v: Vec<char> = Vec::new();
    push_decimal(&mut v, n);
    extend_str(&mut v, " lines");
    from_chars(&v)
}

} // verus!
