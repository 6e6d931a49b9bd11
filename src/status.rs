//! The HTTP status code as the extension host reports it: in a response
//! header named `status` (any ASCII case), whose first whitespace-separated
//! word is the decimal code.

use vstd::prelude::*;
use crate::text::{chars_of, is_white_space, is_whitespace, parse_unsigned, parse_unsigned_chars};

verus! {

pub open spec fn ascii_lower(c: char) -> char {
    if 'A' <= c && c <= 'Z' {
        ((c as u8) + 32) as char
    } else {
        c
    }
}

/// Equal up to ASCII case.
pub open spec fn eq_ignore_ascii_case(a: Seq<char>, b: Seq<char>) -> bool {
    a.len() == b.len() && forall|i: int| 0 <= i < a.len() ==> ascii_lower(a[i]) == ascii_lower(b[i])
}

/// The run of non-white characters at the start of `s`.
pub open spec fn leading_word(s: Seq<char>) -> Seq<char>
    decreases s.len(),
{
    if s.len() == 0 || is_white_space(s[0]) {
        Seq::empty()
    } else {
        seq![s[0]] + leading_word(s.drop_first())
    }
}

/// The first whitespace-separated word of `s`, if any.
pub open spec fn first_word(s: Seq<char>) -> Option<Seq<char>>
    decreases s.len(),
{
    if s.len() == 0 {
        None
    } else if is_white_space(s[0]) {
        first_word(s.drop_first())
    } else {
        Some(leading_word(s))
    }
}

/// `s` as a `u16` numeral: an optional `+`, then one or more decimal digits
/// whose value fits.
pub open spec fn parse_u16(s: Seq<char>) -> Option<u16> {
    match parse_unsigned(s, 65535) {
        Some(n) => Some(n as u16),
        None => None,
    }
}

/// The first header named `status` (any ASCII case), if any.
pub open spec fn status_header(headers: Seq<(String, String)>) -> Option<Seq<char>>
    decreases headers.len(),
{
    if headers.len() == 0 {
        None
    } else if eq_ignore_ascii_case(headers[0].0@, "status"@) {
        Some(headers[0].1@)
    } else {
        status_header(headers.drop_first())
    }
}

/// The status code that the headers give; 0 when there is none.
pub open spec fn status_of(headers: Seq<(String, String)>) -> u16 {
    match status_header(headers) {
        Some(v) => match first_word(v) {
            Some(w) => match parse_u16(w) {
                Some(n) => n,
                None => 0,
            },
            None => 0,
        },
        None => 0,
    }
}

fn lower(c: char) -> (r: char)
    ensures
        r == ascii_lower(c),
{
    if 'A' <= c && c <= 'Z' {
        ((c as u8) + 32) as char
    } else {
        c
    }
}

fn is_status_name(name: &str) -> (r: bool)
    ensures
        r == eq_ignore_ascii_case(name@, "status"@),
{
    let a = chars_of(name);
    let b = chars_of("status");
    if a.len() != b.len() {
        return false;
    }
    let mut i: usize = 0;
    while i < a.len()
        invariant
            a@ == name@,
            b@ == "status"@,
            a.len() == b.len(),
            0 <= i <= a.len(),
            forall|j: int| 0 <= j < i ==> ascii_lower(a@[j]) == ascii_lower(b@[j]),
        decreases a.len() - i,
    {
        if lower(a[i]) != lower(b[i]) {
            return false;
        }
        i = i + 1;
    }
    true
}

/// Reads a status code from a header value.
fn status_from_value(v: &str) -> (r: u16)
    ensures
        r == match first_word(v@) {
            Some(w) => match parse_u16(w) {
                Some(n) => n,
                None => 0,
            },
            None => 0,
        },
{
    let s = chars_of(v);
    let mut i: usize = 0;
    assert(s@.skip(0) =~= s@);
    while i < s.len() && is_whitespace(s[i])
        invariant
            0 <= i <= s.len(),
            first_word(s@) == first_word(s@.skip(i as int)),
        decreases s.len() - i,
    {
        assert(s@.skip(i as int).drop_first() =~= s@.skip(i + 1));
        i = i + 1;
    }
    if i == s.len() {
        return 0;
    }
    let start = i;
    let ghost t = s@.skip(start as int);
    assert(first_word(s@) == Some(leading_word(t)));
    while i < s.len() && !is_whitespace(s[i])
        invariant
            start <= i <= s.len(),
            t == s@.skip(start as int),
            leading_word(t) == s@.subrange(start as int, i as int) + leading_word(
                s@.skip(i as int),
            ),
        decreases s.len() - i,
    {
        assert(s@.skip(i as int).drop_first() =~= s@.skip(i + 1));
        assert(s@.subrange(start as int, i + 1) =~= s@.subrange(start as int, i as int).push(
            s@[i as int],
        ));
        i = i + 1;
    }
    assert(leading_word(s@.skip(i as int)) =~= Seq::<char>::empty());
    let word = crate::text::slice_chars(s.as_slice(), start, i);
    assert(word@ =~= leading_word(t));
    match parse_unsigned_chars(word.as_slice(), 65535) {
        Some(n) => n as u16,
        None => 0,
    }
}

/// The status code that a response's headers give; 0 when there is none.
pub fn status_code(headers: &Vec<(String, String)>) -> (r: u16)
    ensures
        r == status_of(headers@),
{
    let mut i: usize = 0;
    assert(headers@.skip(0) =~= headers@);
    while i < headers.len()
        invariant
            0 <= i <= headers.len(),
            status_header(headers@) == status_header(headers@.skip(i as int)),
        decreases headers.len() - i,
    {
        assert(headers@.skip(i as int).drop_first() =~= headers@.skip(i + 1));
        assert(headers@.skip(i as int)[0] == headers@[i as int]);
        if is_status_name(headers[i].0.as_str()) {
            return status_from_value(headers[i].1.as_str());
        }
        i = i + 1;
    }
    0
}

} // verus!
