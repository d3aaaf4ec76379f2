//! Characters and strings: the character classes of the remote URL grammar,
//! and small conversions between `&str`, `String` and `Vec<char>`.
use vstd::prelude::*;

verus! {

/// An ASCII letter, `a`..`z` or `A`..`Z`.
pub open spec fn is_ascii_letter(c: char) -> bool {
    ('a' <= c && c <= 'z') || ('A' <= c && c <= 'Z')
}

/// An ASCII decimal digit.
pub open spec fn is_ascii_digit(c: char) -> bool {
    '0' <= c && c <= '9'
}

/// An ASCII letter or digit.
pub open spec fn is_ascii_alnum(c: char) -> bool {
    is_ascii_letter(c) || is_ascii_digit(c)
}

/// A character that may follow the first letter of a URL scheme.
pub open spec fn is_scheme_char(c: char) -> bool {
    is_ascii_alnum(c) || c == '+' || c == '.' || c == '-'
}

/// A character that may stand inside a context, namespace or claim name.
pub open spec fn is_name_char(c: char) -> bool {
    is_ascii_alnum(c) || c == '.' || c == '-'
}

pub fn check_ascii_letter(c: char) -> (b: bool)
    ensures
        b == is_ascii_letter(c),
{
    ('a' <= c && c <= 'z') || ('A' <= c && c <= 'Z')
}

pub fn check_ascii_digit(c: char) -> (b: bool)
    ensures
        b == is_ascii_digit(c),
{
    '0' <= c && c <= '9'
}

pub fn check_ascii_alnum(c: char) -> (b: bool)
    ensures
        b == is_ascii_alnum(c),
{
    check_ascii_letter(c) || check_ascii_digit(c)
}

pub fn check_scheme_char(c: char) -> (b: bool)
    ensures
        b == is_scheme_char(c),
{
    check_ascii_alnum(c) || c == '+' || c == '.' || c == '-'
}

pub fn check_name_char(c: char) -> (b: bool)
    ensures
        b == is_name_char(c),
{
    check_ascii_alnum(c) || c == '.' || c == '-'
}

/// `String::push` of std: appends the given char to the end of the string.
#[verifier::external_body]
pub(crate) fn push_char(s: &mut String, c: char)
    ensures
        final(s)@ == old(s)@.push(c),
{
    s.push(c);
}

/// The characters of `s`, in order.
pub fn chars_of(s: &str) -> (v: Vec<char>)
    ensures
        v@ == s@,
{
    let mut v: Vec<char> = Vec::new();
    for c in it: s.chars()
        invariant
            v@ == it.history(),
    {
        v.push(c);
    }
    proof {
        assert(v@ =~= s@);
    }
    v
}

/// The characters `v[from..to]`, as a new vector.
pub fn sub_chars(v: &Vec<char>, from: usize, to: usize) -> (r: Vec<char>)
    requires
        from <= to <= v.len(),
    ensures
        r@ == v@.subrange(from as int, to as int),
{
    let mut r: Vec<char> = Vec::new();
    let mut i: usize = from;
    while i < to
        invariant
            from <= i <= to <= v.len(),
            r@ == v@.subrange(from as int, i as int),
        decreases to - i,
    {
        r.push(v[i]);
        i += 1;
        proof {
            assert(r@ =~= v@.subrange(from as int, i as int));
        }
    }
    r
}

/// The characters `v[from..to]`, as a string.
pub fn string_of(v: &Vec<char>, from: usize, to: usize) -> (s: String)
    requires
        from <= to <= v.len(),
    ensures
        s@ == v@.subrange(from as int, to as int),
{
    let mut s = String::new();
    let mut i: usize = from;
    proof {
        assert(s@ =~= v@.subrange(from as int, from as int));
    }
    while i < to
        invariant
            from <= i <= to <= v.len(),
            s@ == v@.subrange(from as int, i as int),
        decreases to - i,
    {
        push_char(&mut s, v[i]);
        i += 1;
        proof {
            assert(s@ =~= v@.subrange(from as int, i as int));
        }
    }
    s
}

} // verus!
