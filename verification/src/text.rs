//! Small text helpers shared by the configuration parsers: ASCII
//! case-insensitive comparison over character sequences.

use vstd::prelude::*;

verus! {

/// The Unicode code point of `c` with an ASCII capital letter folded to
/// its lowercase form; anything else is left alone.
pub open spec fn lower_code(c: char) -> u32 {
    if 65 <= c as u32 <= 90 {
        (c as u32 + 32) as u32
    } else {
        c as u32
    }
}

/// Whether two character sequences are equal up to ASCII case.
pub open spec fn matches_ignore_case(s: Seq<char>, t: Seq<char>) -> bool {
    s.len() == t.len() && forall|i: int|
        0 <= i < s.len() ==> lower_code(#[trigger] s[i]) == lower_code(t[i])
}

/// Executable form of [`lower_code`].
fn lower_code_exec(c: char) -> (r: u32)
    ensures
        r == lower_code(c),
{
    let u = c as u32;
    if 65 <= u && u <= 90 {
        u + 32
    } else {
        u
    }
}

/// Compare two strings for equality up to ASCII case.
pub fn str_eq_ignore_case(s: &str, t: &str) -> (r: bool)
    ensures
        r == matches_ignore_case(s@, t@),
{
    let n = s.unicode_len();
    let m = t.unicode_len();
    if n != m {
        return false;
    }
    let mut i: usize = 0;
    while i < n
        invariant
            n == s@.len(),
            m == t@.len(),
            n == m,
            i <= n,
            forall|j: int| 0 <= j < i ==> lower_code(#[trigger] s@[j]) == lower_code(t@[j]),
        decreases n - i,
    {
        let a = s.get_char(i);
        let b = t.get_char(i);
        if lower_code_exec(a) != lower_code_exec(b) {
            return false;
        }
        i = i + 1;
    }
    true
}

} // verus!
