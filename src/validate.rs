use vstd::prelude::*;

use crate::chars::to_chars;
use crate::error::{Error, ErrorKind};

verus! {

/// A control character: 0x00 to 0x20, or 0x7F.
pub open spec fn is_ctl(c: char) -> bool {
    (c as u32) <= 0x20 || (c as u32) == 0x7F
}

/// A separator of the token grammar.
pub open spec fn is_separator(c: char) -> bool {
    c == '(' || c == ')' || c == '<' || c == '>' || c == '@' || c == ',' || c == ';' || c == ':'
        || c == '\\' || c == '"' || c == '/' || c == '[' || c == ']' || c == '?' || c == '='
        || c == '{' || c == '}' || c == ' ' || c == '\t'
}

/// A non-empty token: no control character and no separator.
pub open spec fn valid_name(s: Seq<char>) -> bool {
    s.len() > 0 && forall|i: int| 0 <= i < s.len() ==> !is_ctl(#[trigger] s[i]) && !is_separator(s[i])
}

/// A `cookie-octet`: 0x21, 0x23-0x2B, 0x2D-0x3A, 0x3C-0x5B or 0x5D-0x7E.
pub open spec fn is_cookie_octet(c: char) -> bool {
    let u = c as u32;
    u == 0x21 || (0x23 <= u && u <= 0x2B) || (0x2D <= u && u <= 0x3A) || (0x3C <= u && u <= 0x5B)
        || (0x5D <= u && u <= 0x7E)
}

/// A value made of cookie-octets only (possibly empty).
pub open spec fn valid_value(s: Seq<char>) -> bool {
    forall|i: int| 0 <= i < s.len() ==> is_cookie_octet(#[trigger] s[i])
}

/// Neither a control character nor `;`.
pub open spec fn is_attr_char(c: char) -> bool {
    !is_ctl(c) && c != ';'
}

/// A path: non-empty, starting with `/`, with no control character and no `;`.
pub open spec fn valid_path(s: Seq<char>) -> bool {
    s.len() > 0 && s[0] == '/' && forall|i: int| 0 <= i < s.len() ==> is_attr_char(#[trigger] s[i])
}

/// How a `Domain` value stands.
#[derive(Debug, Clone, Copy, PartialEq, Eq, Structural)]
pub enum Domain {
    /// Usable as it is.
    AsIs,
    /// Usable once its leading `.` is dropped.
    LeadingDot,
    /// Empty, or holds a control character or `;`.
    Invalid,
}

/// The classification of a domain value.
pub open spec fn domain_kind(s: Seq<char>) -> Domain {
    if s.len() == 0 || exists|i: int| 0 <= i < s.len() && !is_attr_char(#[trigger] s[i]) {
        Domain::Invalid
    } else if s[0] == '.' {
        Domain::LeadingDot
    } else {
        Domain::AsIs
    }
}

pub fn is_ctl_char(c: char) -> (r: bool)
    ensures
        r == is_ctl(c),
{
    (c as u32) <= 0x20 || (c as u32) == 0x7F
}

pub fn is_separator_char(c: char) -> (r: bool)
    ensures
        r == is_separator(c),
{
    c == '(' || c == ')' || c == '<' || c == '>' || c == '@' || c == ',' || c == ';' || c == ':'
        || c == '\\' || c == '"' || c == '/' || c == '[' || c == ']' || c == '?' || c == '='
        || c == '{' || c == '}' || c == ' ' || c == '\t'
}

pub fn is_cookie_octet_char(c: char) -> (r: bool)
    ensures
        r == is_cookie_octet(c),
{
    let u = c as u32;
    u == 0x21 || (0x23 <= u && u <= 0x2B) || (0x2D <= u && u <= 0x3A) || (0x3C <= u && u <= 0x5B)
        || (0x5D <= u && u <= 0x7E)
}

/// Whether `v[lo..hi]` is a valid name.
pub fn name_in(v: &Vec<char>, lo: usize, hi: usize) -> (r: bool)
    requires
        lo <= hi <= v@.len(),
    ensures
        r == valid_name(v@.subrange(lo as int, hi as int)),
{
    if lo == hi {
        return false;
    }
    let mut k: usize = lo;
    while k < hi
        invariant
            lo <= k <= hi <= v@.len(),
            forall|i: int| lo <= i < k ==> !is_ctl(#[trigger] v@[i]) && !is_separator(v@[i]),
        decreases hi - k,
    {
        if is_ctl_char(v[k]) || is_separator_char(v[k]) {
            assert(v@.subrange(lo as int, hi as int)[k - lo] == v@[k as int]);
            return false;
        }
        k = k + 1;
    }
    assert forall|i: int| 0 <= i < hi - lo implies !is_ctl(
        #[trigger] v@.subrange(lo as int, hi as int)[i],
    ) && !is_separator(v@.subrange(lo as int, hi as int)[i]) by {
        assert(v@.subrange(lo as int, hi as int)[i] == v@[lo + i]);
    }
    true
}

/// Whether `v[lo..hi]` is a valid value.
pub fn value_in(v: &Vec<char>, lo: usize, hi: usize) -> (r: bool)
    requires
        lo <= hi <= v@.len(),
    ensures
        r == valid_value(v@.subrange(lo as int, hi as int)),
{
    let mut k: usize = lo;
    while k < hi
        invariant
            lo <= k <= hi <= v@.len(),
            forall|i: int| lo <= i < k ==> is_cookie_octet(#[trigger] v@[i]),
        decreases hi - k,
    {
        if !is_cookie_octet_char(v[k]) {
            assert(v@.subrange(lo as int, hi as int)[k - lo] == v@[k as int]);
            return false;
        }
        k = k + 1;
    }
    assert forall|i: int| 0 <= i < hi - lo implies is_cookie_octet(
        #[trigger] v@.subrange(lo as int, hi as int)[i],
    ) by {
        assert(v@.subrange(lo as int, hi as int)[i] == v@[lo + i]);
    }
    true
}

/// Whether no character of `v[lo..hi]` is a control character or `;`.
pub fn attr_chars_in(v: &Vec<char>, lo: usize, hi: usize) -> (r: bool)
    requires
        lo <= hi <= v@.len(),
    ensures
        r == forall|i: int|
            0 <= i < hi - lo ==> is_attr_char(#[trigger] v@.subrange(lo as int, hi as int)[i]),
{
    let mut k: usize = lo;
    while k < hi
        invariant
            lo <= k <= hi <= v@.len(),
            forall|i: int| lo <= i < k ==> is_attr_char(#[trigger] v@[i]),
        decreases hi - k,
    {
        if is_ctl_char(v[k]) || v[k] == ';' {
            assert(v@.subrange(lo as int, hi as int)[k - lo] == v@[k as int]);
            return false;
        }
        k = k + 1;
    }
    assert forall|i: int| 0 <= i < hi - lo implies is_attr_char(
        #[trigger] v@.subrange(lo as int, hi as int)[i],
    ) by {
        assert(v@.subrange(lo as int, hi as int)[i] == v@[lo + i]);
    }
    true
}

/// Whether `v[lo..hi]` is a valid path.
pub fn path_in(v: &Vec<char>, lo: usize, hi: usize) -> (r: bool)
    requires
        lo <= hi <= v@.len(),
    ensures
        r == valid_path(v@.subrange(lo as int, hi as int)),
{
    if lo == hi || v[lo] != '/' {
        return false;
    }
    attr_chars_in(v, lo, hi)
}

/// How `v[lo..hi]` stands as a domain.
pub fn domain_in(v: &Vec<char>, lo: usize, hi: usize) -> (r: Domain)
    requires
        lo <= hi <= v@.len(),
    ensures
        r == domain_kind(v@.subrange(lo as int, hi as int)),
{
    if lo == hi {
        return Domain::Invalid;
    }
    if !attr_chars_in(v, lo, hi) {
        return Domain::Invalid;
    }
    if v[lo] == '.' {
        Domain::LeadingDot
    } else {
        Domain::AsIs
    }
}

/// Checks that `n` may stand as a cookie's name.
pub fn validate_name(n: &str) -> (r: Result<(), Error>)
    ensures
        r is Ok <==> valid_name(n@),
        r matches Err(e) ==> e@ == ErrorKind::InvalidName,
{
    let v = to_chars(n);
    assert(v@.subrange(0, v@.len() as int) =~= v@);
    if name_in(&v, 0, v.len()) {
        Ok(())
    } else {
        Err(Error::invalid_name())
    }
}

/// Checks that `v` may stand as a cookie's value.
pub fn validate_value(v: &str) -> (r: Result<(), Error>)
    ensures
        r is Ok <==> valid_value(v@),
        r matches Err(e) ==> e@ == ErrorKind::InvalidValue,
{
    let cs = to_chars(v);
    assert(cs@.subrange(0, cs@.len() as int) =~= cs@);
    if value_in(&cs, 0, cs.len()) {
        Ok(())
    } else {
        Err(Error::invalid_value())
    }
}

/// Whether `p` may stand as a cookie's path.
pub fn is_valid_path(p: &str) -> (r: bool)
    ensures
        r == valid_path(p@),
{
    let v = to_chars(p);
    assert(v@.subrange(0, v@.len() as int) =~= v@);
    path_in(&v, 0, v.len())
}

/// How `d` stands as a cookie's domain.
pub fn validate_domain(d: &str) -> (r: Domain)
    ensures
        r == domain_kind(d@),
{
    let v = to_chars(d);
    assert(v@.subrange(0, v@.len() as int) =~= v@);
    domain_in(&v, 0, v.len())
}

} // verus!
