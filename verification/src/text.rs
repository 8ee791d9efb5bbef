//! What is asked of text.
use crate::value::Text;
use vstd::prelude::*;

verus! {

/// The code of a character with an ASCII capital letter made small.
pub open spec fn ascii_small(c: char) -> int {
    if 'A' <= c && c <= 'Z' {
        c as int + 32
    } else {
        c as int
    }
}

/// The codes of a text with ASCII capital letters made small.
pub open spec fn ascii_small_text(text: Text) -> Seq<int> {
    text.map_values(|c: char| ascii_small(c))
}

/// Whether two texts differ at most in the case of ASCII letters.
pub open spec fn equal_but_for_ascii_case(a: Text, b: Text) -> bool {
    ascii_small_text(a) == ascii_small_text(b)
}

/// Makes an ASCII capital letter small.
fn small_code(c: char) -> (code: u32)
    ensures
        code == ascii_small(c),
{
    if 'A' <= c && c <= 'Z' {
        c as u32 + 32
    } else {
        c as u32
    }
}

/// Makes the ASCII capital letters of a string small.
fn small_codes(s: &str) -> (codes: Vec<u32>)
    ensures
        codes@.map_values(|code: u32| code as int) == ascii_small_text(s@),
{
    let mut codes: Vec<u32> = Vec::new();
    for c in it: s.chars()
        invariant
            it.seq() == s@,
            codes@.len() == it.index(),
            forall|i: int| 0 <= i < codes@.len() ==> codes@[i] == ascii_small(#[trigger] s@[i]),
    {
        codes.push(small_code(c));
    }
    codes
}

/// Compares two strings, ignoring the case of ASCII letters.
pub(crate) fn ascii_case_equal(a: &str, b: &str) -> (r: bool)
    ensures
        r == equal_but_for_ascii_case(a@, b@),
{
    let a_codes = small_codes(a);
    let b_codes = small_codes(b);
    let ghost a_small = a_codes@.map_values(|code: u32| code as int);
    let ghost b_small = b_codes@.map_values(|code: u32| code as int);
    assert(a_small.len() == a_codes.len() && b_small.len() == b_codes.len());
    if a_codes.len() != b_codes.len() {
        return false;
    }
    let mut i: usize = 0;
    while i < a_codes.len()
        invariant
            a_codes.len() == b_codes.len(),
            i <= a_codes.len(),
            a_small == a_codes@.map_values(|code: u32| code as int),
            b_small == b_codes@.map_values(|code: u32| code as int),
            a_small == ascii_small_text(a@),
            b_small == ascii_small_text(b@),
            forall|j: int| 0 <= j < i ==> a_small[j] == b_small[j],
        decreases a_codes.len() - i,
    {
        if a_codes[i] != b_codes[i] {
            assert(a_small[i as int] != b_small[i as int]);
            return false;
        }
        i = i + 1;
    }
    assert(a_small =~= b_small);
    true
}

} // verus!
