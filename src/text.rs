use vstd::prelude::*;
use crate::code::push_char;

verus! {

/// Whether `c` is an ASCII letter.
pub open spec fn is_ascii_letter(c: char) -> bool {
    (97 <= c as u32 <= 122) || (65 <= c as u32 <= 90)
}

/// Whether `c` may follow the first letter of a URL scheme: a letter, a digit,
/// `+`, `-` or `.`.
pub open spec fn is_scheme_char(c: char) -> bool {
    is_ascii_letter(c) || (48 <= c as u32 <= 57) || c == '+' || c == '-' || c == '.'
}

/// Whether `s` begins with a URL scheme followed by `:`: a letter, then
/// letters, digits, `+`, `-` or `.`.
pub open spec fn has_scheme(s: Seq<char>) -> bool {
    exists|i: int|
        0 < i < s.len() && #[trigger] s[i] == ':' && is_ascii_letter(s[0]) && forall|j: int|
            1 <= j < i ==> is_scheme_char(#[trigger] s[j])
}

fn letter(c: char) -> (r: bool)
    ensures
        r == is_ascii_letter(c),
{
    let u = c as u32;
    (97 <= u && u <= 122) || (65 <= u && u <= 90)
}

fn scheme_char(c: char) -> (r: bool)
    ensures
        r == is_scheme_char(c),
{
    let u = c as u32;
    letter(c) || (48 <= u && u <= 57) || c == '+' || c == '-' || c == '.'
}

/// Whether `s` begins with a URL scheme followed by `:`.
pub fn starts_with_scheme(s: &str) -> (r: bool)
    ensures
        r == has_scheme(s@),
{
    let n = s.unicode_len();
    if n == 0 || !letter(s.get_char(0)) {
        return false;
    }
    let mut i: usize = 1;
    while i < n && scheme_char(s.get_char(i))
        invariant
            n == s@.len(),
            1 <= i <= n,
            is_ascii_letter(s@[0]),
            forall|j: int| 1 <= j < i ==> is_scheme_char(#[trigger] s@[j]),
        decreases n - i,
    {
        i = i + 1;
    }
    if i < n && s.get_char(i) == ':' {
        assert(s@[i as int] == ':');
        true
    } else {
        assert forall|k: int|
            0 < k < s@.len() && #[trigger] s@[k] == ':' && is_ascii_letter(s@[0]) implies !(
            forall|j: int| 1 <= j < k ==> is_scheme_char(#[trigger] s@[j])) by {
            if forall|j: int| 1 <= j < k ==> is_scheme_char(#[trigger] s@[j]) {
                if k < i {
                    assert(is_scheme_char(s@[k]));
                } else if k > i {
                    assert(is_scheme_char(s@[i as int]));
                }
            }
        }
        false
    }
}

/// Appends the characters of `src` to `dst`.
pub fn append_str(dst: &mut String, src: &str)
    ensures
        final(dst)@ == old(dst)@ + src@,
{
    let n = src.unicode_len();
    let mut i: usize = 0;
    while i < n
        invariant
            n == src@.len(),
            i <= n,
            dst@ == old(dst)@ + src@.subrange(0, i as int),
        decreases n - i,
    {
        push_char(dst, src.get_char(i));
        i = i + 1;
        assert(dst@ =~= old(dst)@ + src@.subrange(0, i as int));
    }
    assert(src@.subrange(0, n as int) =~= src@);
}

} // verus!
