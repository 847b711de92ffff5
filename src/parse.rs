use vstd::prelude::*;
use vstd::string::*;
use vstd::utf8::*;

use crate::chars::{eq_ascii_nocase, eq_nocase, to_chars, trim, trim_range};
use crate::clock::{date_secs_of, now_secs, parse_date};
use crate::error::{Error, ErrorKind};
use crate::num::{i64_in, i64_of};
use crate::sealed::Sealed;
use crate::util::{debug, display};
use crate::validate::{
    domain_in, domain_kind, name_in, path_in, valid_name, valid_path, valid_value, value_in,
    Domain,
};
use crate::{Cookie, CookieView, SameSite};

verus! {

/// The longest source text, in bytes, that `parse` accepts.
pub const MAX_LENGTH: usize = 4096;

/// A half-open range of character offsets into a cookie's source text.
pub type Indexed = (u16, u16);

/// The text that `i` designates in `s`.
pub open spec fn slice(s: Seq<char>, i: Indexed) -> Seq<char> {
    s.subrange(i.0 as int, i.1 as int)
}

pub open spec fn opt_slice(s: Seq<char>, i: Option<Indexed>) -> Option<Seq<char>> {
    match i {
        Some(r) => Some(slice(s, r)),
        None => None,
    }
}

/// `i` lies within a text of length `n`.
pub open spec fn in_bounds(i: Indexed, n: int) -> bool {
    i.0 <= i.1 && i.1 <= n
}

pub open spec fn opt_in_bounds(i: Option<Indexed>, n: int) -> bool {
    match i {
        Some(r) => in_bounds(r, n),
        None => true,
    }
}

/// The text of `s` that `i` designates.
pub fn indexed(s: &str, i: Indexed) -> (r: &str)
    requires
        in_bounds(i, s@.len() as int),
    ensures
        r@ == slice(s@, i),
{
    s.substring_char(i.0 as usize, i.1 as usize)
}

/// The offsets of `start..end` as an `Indexed`.
pub fn indices(start: usize, end: usize) -> (r: Indexed)
    requires
        start <= end <= 0xFFFF,
    ensures
        r.0 == start,
        r.1 == end,
{
    (start as u16, end as u16)
}

// ===== the grammar =====

/// `i` is the first position of `c` in `s`.
pub open spec fn is_first(s: Seq<char>, c: char, i: int) -> bool {
    0 <= i < s.len() && s[i] == c && forall|j: int| 0 <= j < i ==> s[j] != c
}

/// The first position of `c` in `s`, if `c` occurs in it.
pub open spec fn first_index(s: Seq<char>, c: char) -> Option<int> {
    if exists|i: int| is_first(s, c, i) {
        Some(choose|i: int| is_first(s, c, i))
    } else {
        None
    }
}

/// What the attributes read so far make of a cookie, with the last `Expires` text seen.
pub ghost struct ParseState {
    pub cookie: CookieView,
    pub expires: Option<Seq<char>>,
}

/// An attribute's name and, after the first `=`, its value, both trimmed.
pub open spec fn split_attr(seg: Seq<char>) -> (Seq<char>, Option<Seq<char>>) {
    match first_index(seg, '=') {
        Some(i) => (trim(seg.subrange(0, i)), Some(trim(seg.subrange(i + 1, seg.len() as int)))),
        None => (trim(seg), None),
    }
}

/// What an attribute with the given value does. An invalid value leaves the state as it was.
pub open spec fn apply_valued(st: ParseState, name: Seq<char>, val: Seq<char>) -> ParseState {
    let c = st.cookie;
    if eq_ascii_nocase(name, "max-age"@) {
        match i64_of(val) {
            Some(n) => ParseState {
                cookie: CookieView {
                    max_age: Some(
                        if n <= 0 {
                            0u64
                        } else {
                            n as u64
                        },
                    ),
                    ..c
                },
                ..st
            },
            None => st,
        }
    } else if eq_ascii_nocase(name, "path"@) {
        if valid_path(val) {
            ParseState { cookie: CookieView { path: Some(val), ..c }, ..st }
        } else {
            st
        }
    } else if eq_ascii_nocase(name, "domain"@) {
        match domain_kind(val) {
            Domain::AsIs => ParseState { cookie: CookieView { domain: Some(val), ..c }, ..st },
            Domain::LeadingDot => ParseState {
                cookie: CookieView { domain: Some(val.subrange(1, val.len() as int)), ..c },
                ..st
            },
            Domain::Invalid => st,
        }
    } else if eq_ascii_nocase(name, "expires"@) {
        ParseState { expires: Some(val), ..st }
    } else if eq_ascii_nocase(name, "samesite"@) {
        if eq_ascii_nocase(val, "lax"@) {
            ParseState { cookie: CookieView { same_site: Some(SameSite::Lax), ..c }, ..st }
        } else if eq_ascii_nocase(val, "strict"@) {
            ParseState { cookie: CookieView { same_site: Some(SameSite::Strict), ..c }, ..st }
        } else {
            st
        }
    } else {
        st
    }
}

/// What one attribute segment does. `Secure` and `HttpOnly` set their flag whatever
/// follows them; the others need a value; unknown names are ignored.
pub open spec fn apply_attr(st: ParseState, seg: Seq<char>) -> ParseState {
    let (name, value) = split_attr(seg);
    if eq_ascii_nocase(name, "secure"@) {
        ParseState { cookie: CookieView { secure: true, ..st.cookie }, ..st }
    } else if eq_ascii_nocase(name, "httponly"@) {
        ParseState { cookie: CookieView { http_only: true, ..st.cookie }, ..st }
    } else {
        match value {
            Some(val) => apply_valued(st, name, val),
            None => st,
        }
    }
}

/// The attribute segments of `s`, separated by `;`, applied from left to right.
pub open spec fn apply_attrs(st: ParseState, s: Seq<char>) -> ParseState
    decreases s.len(),
{
    match first_index(s, ';') {
        Some(i) => if 0 <= i < s.len() {
            apply_attrs(apply_attr(st, s.subrange(0, i)), s.subrange(i + 1, s.len() as int))
        } else {
            st
        },
        None => apply_attr(st, s),
    }
}

/// The cookie with only a name and a value.
pub open spec fn pair_view(name: Seq<char>, value: Seq<char>) -> CookieView {
    CookieView {
        name,
        value,
        domain: None,
        path: None,
        max_age: None,
        http_only: false,
        secure: false,
        same_site: None,
    }
}

/// Everything that parsing decides before `Expires` is looked at.
pub open spec fn scan(src: Seq<char>) -> Result<ParseState, ErrorKind> {
    if encode_utf8(src).len() > MAX_LENGTH {
        Err(ErrorKind::TooLong)
    } else {
        let nv = match first_index(src, ';') {
            Some(i) => src.subrange(0, i),
            None => src,
        };
        match first_index(nv, '=') {
            None => Err(ErrorKind::InvalidName),
            Some(e) => {
                let name = trim(nv.subrange(0, e));
                let value = trim(nv.subrange(e + 1, nv.len() as int));
                if !valid_name(name) {
                    Err(ErrorKind::InvalidName)
                } else if !valid_value(value) {
                    Err(ErrorKind::InvalidValue)
                } else {
                    let st0 = ParseState { cookie: pair_view(name, value), expires: None };
                    match first_index(src, ';') {
                        Some(i) => Ok(apply_attrs(st0, src.subrange(i + 1, src.len() as int))),
                        None => Ok(st0),
                    }
                }
            },
        }
    }
}

/// The instant an `Expires` value names: the first of RFC 1123, RFC 850 and asctime
/// that reads it.
pub open spec fn expires_secs(s: Seq<char>) -> Option<i64> {
    match date_secs_of(s, "%a, %d %b %Y %T %Z"@) {
        Some(t) => Some(t),
        None => match date_secs_of(s, "%A, %d-%b-%y %T %Z"@) {
            Some(t) => Some(t),
            None => date_secs_of(s, "%c"@),
        },
    }
}

/// The `Max-Age` that an expiry instant `t` gives at `now`: the seconds until then,
/// or zero once it has passed.
pub open spec fn max_age_until(t: i64, now: i64) -> u64 {
    if t > now && t > 0 {
        (t - now) as u64
    } else {
        0
    }
}

/// `Expires` counts only where no `Max-Age` was applied, and only if a date format reads it.
pub open spec fn resolve(st: ParseState, now: i64) -> CookieView {
    match (st.expires, st.cookie.max_age) {
        (Some(e), None) => match expires_secs(e) {
            Some(t) => CookieView { max_age: Some(max_age_until(t, now)), ..st.cookie },
            None => st.cookie,
        },
        _ => st.cookie,
    }
}

/// What parsing `src` gives at the instant `now`.
pub open spec fn parse_spec(src: Seq<char>, now: i64) -> Result<CookieView, ErrorKind> {
    match scan(src) {
        Ok(st) => Ok(resolve(st, now)),
        Err(e) => Err(e),
    }
}

// ===== scanning =====

proof fn lemma_first_index(s: Seq<char>, c: char, i: int)
    requires
        is_first(s, c, i),
    ensures
        first_index(s, c) == Some(i),
{
    let j = choose|j: int| is_first(s, c, j);
    assert(is_first(s, c, j));
    if j < i {
        assert(s[j] != c);
    } else if j > i {
        assert(s[i] != c);
    }
}

proof fn lemma_encode_utf8_len(s: Seq<char>)
    ensures
        encode_utf8(s).len() >= s.len(),
    decreases s.len(),
{
    if s.len() > 0 {
        lemma_encode_utf8_len(s.drop_first());
    }
}

/// The first position of `c` in `v[lo..hi]`.
fn find_char(v: &Vec<char>, lo: usize, hi: usize, c: char) -> (r: Option<usize>)
    requires
        lo <= hi <= v@.len(),
    ensures
        match r {
            Some(k) => lo <= k < hi && first_index(v@.subrange(lo as int, hi as int), c) == Some(
                k - lo,
            ),
            None => first_index(v@.subrange(lo as int, hi as int), c) is None,
        },
{
    let ghost s = v@.subrange(lo as int, hi as int);
    let mut k: usize = lo;
    while k < hi
        invariant
            lo <= k <= hi <= v@.len(),
            s == v@.subrange(lo as int, hi as int),
            forall|j: int| lo <= j < k ==> v@[j] != c,
        decreases hi - k,
    {
        if v[k] == c {
            proof {
                assert forall|j: int| 0 <= j < k - lo implies s[j] != c by {
                    assert(s[j] == v@[lo + j]);
                }
                lemma_first_index(s, c, k - lo);
            }
            return Some(k);
        }
        k = k + 1;
    }
    proof {
        if exists|i: int| is_first(s, c, i) {
            let i = choose|i: int| is_first(s, c, i);
            assert(s[i] == v@[lo + i]);
        }
    }
    None
}

/// The attributes read so far, as offsets into the source, with the last `Expires` text.
struct Attrs {
    name: Indexed,
    value: Indexed,
    domain: Option<Indexed>,
    path: Option<Indexed>,
    max_age: Option<u64>,
    http_only: bool,
    secure: bool,
    same_site: Option<SameSite>,
    expires: Option<Indexed>,
}

impl Attrs {
    spec fn wf(&self, n: int) -> bool {
        &&& in_bounds(self.name, n)
        &&& in_bounds(self.value, n)
        &&& opt_in_bounds(self.domain, n)
        &&& opt_in_bounds(self.path, n)
        &&& opt_in_bounds(self.expires, n)
    }

    spec fn state(&self, v: Seq<char>) -> ParseState {
        ParseState {
            cookie: CookieView {
                name: slice(v, self.name),
                value: slice(v, self.value),
                domain: opt_slice(v, self.domain),
                path: opt_slice(v, self.path),
                max_age: self.max_age,
                http_only: self.http_only,
                secure: self.secure,
                same_site: self.same_site,
            },
            expires: opt_slice(v, self.expires),
        }
    }
}

/// Applies the attribute segment `v[a..b]` to `at`.
fn apply_attr_at(v: &Vec<char>, a: usize, b: usize, at: &mut Attrs)
    requires
        a <= b <= v@.len() <= MAX_LENGTH,
        old(at).wf(v@.len() as int),
    ensures
        final(at).wf(v@.len() as int),
        final(at).state(v@) == apply_attr(old(at).state(v@), v@.subrange(a as int, b as int)),
{
    let ghost seg = v@.subrange(a as int, b as int);
    let ghost st = at.state(v@);
    let eq = find_char(v, a, b, '=');
    let (na, nb) = match eq {
        Some(e) => {
            assert(seg.subrange(0, e - a) =~= v@.subrange(a as int, e as int));
            trim_range(v, a, e)
        },
        None => {
            trim_range(v, a, b)
        },
    };
    let (va, vb) = match eq {
        Some(e) => {
            assert(seg.subrange(e - a + 1, seg.len() as int) =~= v@.subrange(e + 1, b as int));
            trim_range(v, e + 1, b)
        },
        None => (0, 0),
    };
    let ghost name = v@.subrange(na as int, nb as int);
    let ghost val = v@.subrange(va as int, vb as int);
    assert(split_attr(seg).0 == name);
    assert(eq is Some ==> split_attr(seg).1 == Some(val));
    assert(eq is None ==> split_attr(seg).1 is None);
    if eq_nocase(v, na, nb, "secure") {
        at.secure = true;
    } else if eq_nocase(v, na, nb, "httponly") {
        at.http_only = true;
    } else if eq.is_some() {
        if eq_nocase(v, na, nb, "max-age") {
            match i64_in(v, va, vb) {
                Some(n) => {
                    at.max_age = Some(
                        if n <= 0 {
                            0
                        } else {
                            n as u64
                        },
                    );
                },
                None => {},
            }
        } else if eq_nocase(v, na, nb, "path") {
            if path_in(v, va, vb) {
                at.path = Some(indices(va, vb));
            }
        } else if eq_nocase(v, na, nb, "domain") {
            match domain_in(v, va, vb) {
                Domain::AsIs => {
                    at.domain = Some(indices(va, vb));
                },
                Domain::LeadingDot => {
                    assert(val.subrange(1, val.len() as int) =~= v@.subrange(va + 1, vb as int));
                    at.domain = Some(indices(va + 1, vb));
                },
                Domain::Invalid => {},
            }
        } else if eq_nocase(v, na, nb, "expires") {
            at.expires = Some(indices(va, vb));
        } else if eq_nocase(v, na, nb, "samesite") {
            if eq_nocase(v, va, vb, "lax") {
                at.same_site = Some(SameSite::Lax);
            } else if eq_nocase(v, va, vb, "strict") {
                at.same_site = Some(SameSite::Strict);
            }
        }
    }
    assert(at.state(v@) =~= apply_attr(st, seg));
}

/// Reads the name, the value and the attributes of `v`.
fn scan_at(v: &Vec<char>) -> (r: Result<Attrs, Error>)
    requires
        v@.len() <= MAX_LENGTH,
        encode_utf8(v@).len() <= MAX_LENGTH,
    ensures
        match r {
            Ok(at) => at.wf(v@.len() as int) && scan(v@) == Ok::<ParseState, ErrorKind>(
                at.state(v@),
            ),
            Err(e) => scan(v@) == Err::<ParseState, ErrorKind>(e@),
        },
{
    let n = v.len();
    let semi = find_char(v, 0, n, ';');
    assert(v@.subrange(0, n as int) =~= v@);
    let nv_end = match semi {
        Some(j) => j,
        None => n,
    };
    let ghost nv = v@.subrange(0, nv_end as int);
    assert(nv == match first_index(v@, ';') {
        Some(i) => v@.subrange(0, i),
        None => v@,
    });
    let e = match find_char(v, 0, nv_end, '=') {
        Some(e) => e,
        None => {
            return Err(Error::invalid_name());
        },
    };
    assert(nv.subrange(0, e as int) =~= v@.subrange(0, e as int));
    let (na, nb) = trim_range(v, 0, e);
    if !name_in(v, na, nb) {
        return Err(Error::invalid_name());
    }
    assert(nv.subrange(e + 1, nv.len() as int) =~= v@.subrange(e + 1, nv_end as int));
    let (va, vb) = trim_range(v, e + 1, nv_end);
    if !value_in(v, va, vb) {
        return Err(Error::invalid_value());
    }
    let mut at = Attrs {
        name: indices(na, nb),
        value: indices(va, vb),
        domain: None,
        path: None,
        max_age: None,
        http_only: false,
        secure: false,
        same_site: None,
        expires: None,
    };
    assert(at.state(v@) =~= ParseState {
        cookie: pair_view(v@.subrange(na as int, nb as int), v@.subrange(va as int, vb as int)),
        expires: None,
    });
    let j = match semi {
        Some(j) => j,
        None => {
            return Ok(at);
        },
    };
    let ghost goal = apply_attrs(at.state(v@), v@.subrange(j + 1, n as int));
    let mut p: usize = j + 1;
    loop
        invariant
            j + 1 <= p <= n,
            n == v@.len(),
            n <= MAX_LENGTH,
            at.wf(n as int),
            scan(v@) == Ok::<ParseState, ErrorKind>(goal),
            apply_attrs(at.state(v@), v@.subrange(p as int, n as int)) == goal,
        decreases n - p,
    {
        let ghost rest = v@.subrange(p as int, n as int);
        match find_char(v, p, n, ';') {
            Some(k) => {
                assert(rest.subrange(0, k - p) =~= v@.subrange(p as int, k as int));
                assert(rest.subrange(k - p + 1, rest.len() as int) =~= v@.subrange(
                    k + 1,
                    n as int,
                ));
                apply_attr_at(v, p, k, &mut at);
                p = k + 1;
            },
            None => {
                apply_attr_at(v, p, n, &mut at);
                return Ok(at);
            },
        }
    }
}

/// A cookie parsed from its source text. It borrows the text and keeps, for each
/// field, only the offsets where it stands.
#[derive(Debug)]
pub struct Parsed<'a> {
    src: &'a str,
    name: Indexed,
    value: Indexed,
    domain: Option<Indexed>,
    path: Option<Indexed>,
    max_age: Option<u64>,
    http_only: bool,
    secure: bool,
    same_site: Option<SameSite>,
}

impl<'a> Parsed<'a> {
    #[verifier::type_invariant]
    spec fn inv(&self) -> bool {
        let n = self.src@.len() as int;
        &&& in_bounds(self.name, n)
        &&& in_bounds(self.value, n)
        &&& opt_in_bounds(self.domain, n)
        &&& opt_in_bounds(self.path, n)
    }

    /// The cookie in wire form; `Expires` is computed from the current time.
    pub fn to_string(&self) -> (r: String)
        ensures
            exists|now: i64| r@ == crate::util::wire(self@, now),
    {
        display(self)
    }

    /// The fields of the cookie by name, for diagnostics.
    pub fn to_debug_string(&self) -> (r: String)
        ensures
            r@ == crate::util::debug_text(self@),
    {
        debug(self)
    }
}

impl<'a> View for Parsed<'a> {
    type V = CookieView;

    closed spec fn view(&self) -> CookieView {
        CookieView {
            name: slice(self.src@, self.name),
            value: slice(self.src@, self.value),
            domain: opt_slice(self.src@, self.domain),
            path: opt_slice(self.src@, self.path),
            max_age: self.max_age,
            http_only: self.http_only,
            secure: self.secure,
            same_site: self.same_site,
        }
    }
}

impl<'a> Sealed for Parsed<'a> {}

impl<'a> Cookie for Parsed<'a> {
    fn name(&self) -> (r: &str) {
        proof {
            use_type_invariant(self);
        }
        indexed(self.src, self.name)
    }

    fn value(&self) -> (r: &str) {
        proof {
            use_type_invariant(self);
        }
        indexed(self.src, self.value)
    }

    fn domain(&self) -> (r: Option<&str>) {
        proof {
            use_type_invariant(self);
        }
        match self.domain {
            Some(i) => Some(indexed(self.src, i)),
            None => None,
        }
    }

    fn path(&self) -> (r: Option<&str>) {
        proof {
            use_type_invariant(self);
        }
        match self.path {
            Some(i) => Some(indexed(self.src, i)),
            None => None,
        }
    }

    fn max_age(&self) -> (r: Option<u64>) {
        self.max_age
    }

    fn http_only(&self) -> (r: bool) {
        self.http_only
    }

    fn secure(&self) -> (r: bool) {
        self.secure
    }

    fn same_site(&self) -> (r: Option<SameSite>) {
        self.same_site
    }

    fn same_site_strict(&self) -> (r: bool) {
        self.same_site == Some(SameSite::Strict)
    }

    fn same_site_lax(&self) -> (r: bool) {
        self.same_site == Some(SameSite::Lax)
    }
}

/// The outcome of a parse, as values.
pub open spec fn parsed_result(r: Result<Parsed<'_>, Error>) -> Result<CookieView, ErrorKind> {
    match r {
        Ok(c) => Ok(c@),
        Err(e) => Err(e@),
    }
}

/// Parses `src` as a cookie, with `now` (seconds since the epoch) as the current time
/// against which an `Expires` date is turned into a `Max-Age`.
pub fn parse_at<'a>(src: &'a str, now: i64) -> (r: Result<Parsed<'a>, Error>)
    ensures
        parsed_result(r) == parse_spec(src@, now),
{
    if src.as_bytes().len() > MAX_LENGTH {
        return Err(Error::too_long());
    }
    let v = to_chars(src);
    proof {
        lemma_encode_utf8_len(src@);
    }
    let at = match scan_at(&v) {
        Ok(at) => at,
        Err(e) => {
            return Err(e);
        },
    };
    let mut max_age = at.max_age;
    if at.max_age.is_none() {
        match at.expires {
            Some(ex) => {
                let text = indexed(src, ex);
                let mut t = parse_date(text, "%a, %d %b %Y %T %Z");
                if t.is_none() {
                    t = parse_date(text, "%A, %d-%b-%y %T %Z");
                }
                if t.is_none() {
                    t = parse_date(text, "%c");
                }
                match t {
                    Some(t) => {
                        max_age = Some(
                            if t > now && t > 0 {
                                (t as i128 - now as i128) as u64
                            } else {
                                0
                            },
                        );
                    },
                    None => {},
                }
            },
            None => {},
        }
    }
    let c = Parsed {
        src,
        name: at.name,
        value: at.value,
        domain: at.domain,
        path: at.path,
        max_age,
        http_only: at.http_only,
        secure: at.secure,
        same_site: at.same_site,
    };
    assert(c@ =~= resolve(at.state(v@), now));
    Ok(c)
}

/// Parses `src` as a cookie. An `Expires` date, where no `Max-Age` overrides it, is
/// turned into a `Max-Age` against the current time.
pub fn parse<'a>(src: &'a str) -> (r: Result<Parsed<'a>, Error>)
    ensures
        exists|now: i64| parsed_result(r) == parse_spec(src@, now),
        src.spec_bytes().len() > MAX_LENGTH ==> parsed_result(r) == Err::<CookieView, ErrorKind>(
            ErrorKind::TooLong,
        ),
{
    let now = now_secs();
    parse_at(src, now)
}

/// A source longer than `MAX_LENGTH` bytes fails with `TooLong`, whatever it holds.
pub proof fn lemma_length_cap(src: Seq<char>, now: i64)
    requires
        encode_utf8(src).len() > MAX_LENGTH,
    ensures
        parse_spec(src, now) == Err::<CookieView, ErrorKind>(ErrorKind::TooLong),
{
}

/// Where the attributes apply a valid `Max-Age`, no `Expires` date is consulted: the
/// cookie is the one the attributes made, at every instant.
pub proof fn lemma_max_age_precedence(src: Seq<char>, now: i64)
    requires
        scan(src) is Ok,
        scan(src)->Ok_0.cookie.max_age is Some,
    ensures
        parse_spec(src, now) == Ok::<CookieView, ErrorKind>(scan(src)->Ok_0.cookie),
{
}

} // verus!
