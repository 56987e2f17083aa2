//! Character-level string helpers: ASCII capitalization of the first
//! character of an identifier, as required for derived export names.

use vstd::prelude::*;

verus! {

/// ASCII uppercase of a single character: `'a'..='z'` map to `'A'..='Z'`,
/// every other character is unchanged.
pub open spec fn to_upper_char(c: char) -> char {
    if 97 <= c as u32 && c as u32 <= 122 {
        (((c as u32) - 32) as u8) as char
    } else {
        c
    }
}

/// A non-empty character sequence with its first character uppercased
/// (ASCII only) and the remainder unchanged.
pub open spec fn capitalized(s: Seq<char>) -> Seq<char>
    recommends
        s.len() >= 1,
{
    seq![to_upper_char(s[0])] + s.skip(1)
}

/// The view of a vector of owned strings.
pub open spec fn strs_view(v: Seq<String>) -> Seq<Seq<char>> {
    v.map_values(|x: String| x@)
}

/// The view of an optional owned string.
pub open spec fn opt_str_view(r: Option<String>) -> Option<Seq<char>> {
    match r {
        Some(s) => Some(s@),
        None => None,
    }
}

/// Relies on `String::push`: appends the given character to the end of the string.
#[verifier::external_body]
pub(crate) fn push_char(s: &mut String, c: char)
    ensures
        final(s)@ == old(s)@ + seq![c],
{
    s.push(c);
}

/// Uppercases a single character by the ASCII rule.
pub fn upper_char(c: char) -> (r: char)
    ensures
        r == to_upper_char(c),
{
    let u = c as u32;
    if 97 <= u && u <= 122 {
        ((u - 32) as u8) as char
    } else {
        c
    }
}

/// Whether two string slices hold the same characters.
pub fn str_eq(a: &str, b: &str) -> (r: bool)
    ensures
        r == (a@ == b@),
{
    let n = a.unicode_len();
    let m = b.unicode_len();
    if n != m {
        return false;
    }
    let mut i: usize = 0;
    while i < n
        invariant
            n == a@.len(),
            n == b@.len(),
            i <= n,
            forall|k: int| 0 <= k < i ==> a@[k] == b@[k],
        decreases n - i,
    {
        if a.get_char(i) != b.get_char(i) {
            return false;
        }
        i = i + 1;
    }
    proof {
        assert(a@ =~= b@);
    }
    true
}

/// Returns the input with its first character uppercased (ASCII rule)
/// and the rest unchanged.
pub fn capitalize(s: &str) -> (r: String)
    requires
        s@.len() >= 1,
    ensures
        r@ == capitalized(s@),
{
    let n = s.unicode_len();
    let mut r = String::new();
    push_char(&mut r, upper_char(s.get_char(0)));
    let rest = s.substring_char(1, n);
    r.append(rest);
    proof {
        assert(r@ =~= capitalized(s@));
    }
    r
}

} // verus!
