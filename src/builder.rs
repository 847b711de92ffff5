use vstd::prelude::*;
use vstd::string::*;

use crate::chars::{eq_ascii_nocase, lower_code};
use crate::error::{Error, ErrorKind};
use crate::parse::{apply_valued, pair_view, ParseState};
use crate::sealed::Sealed;
use crate::util::{debug, debug_text, display, wire};
use crate::validate::{
    domain_kind, is_valid_path, valid_name, valid_path, valid_value, validate_domain,
    validate_name, validate_value, Domain,
};
use crate::{Cookie, CookieView, SameSite};

verus! {

/// What `Builder::new` starts from: the pair, once both halves are valid.
pub open spec fn new_spec(name: Seq<char>, value: Seq<char>) -> Result<CookieView, ErrorKind> {
    if !valid_name(name) {
        Err(ErrorKind::InvalidName)
    } else if !valid_value(value) {
        Err(ErrorKind::InvalidValue)
    } else {
        Ok(pair_view(name, value))
    }
}

/// A new value, where the builder has not failed and the value is valid.
pub open spec fn with_value(b: Result<CookieView, ErrorKind>, v: Seq<char>) -> Result<
    CookieView,
    ErrorKind,
> {
    match b {
        Ok(c) => if valid_value(v) {
            Ok(CookieView { value: v, ..c })
        } else {
            Err(ErrorKind::InvalidValue)
        },
        Err(e) => Err(e),
    }
}

/// A `Path`, where the builder has not failed and the path is valid.
pub open spec fn with_path(b: Result<CookieView, ErrorKind>, p: Seq<char>) -> Result<
    CookieView,
    ErrorKind,
> {
    match b {
        Ok(c) => if valid_path(p) {
            Ok(CookieView { path: Some(p), ..c })
        } else {
            Err(ErrorKind::InvalidPath)
        },
        Err(e) => Err(e),
    }
}

/// A `Domain`, where the builder has not failed and the domain is usable as it is.
pub open spec fn with_domain(b: Result<CookieView, ErrorKind>, d: Seq<char>) -> Result<
    CookieView,
    ErrorKind,
> {
    match b {
        Ok(c) => if domain_kind(d) == Domain::AsIs {
            Ok(CookieView { domain: Some(d), ..c })
        } else {
            Err(ErrorKind::InvalidDomain)
        },
        Err(e) => Err(e),
    }
}

/// A `Max-Age`, where the builder has not failed.
pub open spec fn with_max_age(b: Result<CookieView, ErrorKind>, secs: u64) -> Result<
    CookieView,
    ErrorKind,
> {
    match b {
        Ok(c) => Ok(CookieView { max_age: Some(secs), ..c }),
        Err(e) => Err(e),
    }
}

/// The `Secure` flag, where the builder has not failed.
pub open spec fn with_secure(b: Result<CookieView, ErrorKind>, on: bool) -> Result<
    CookieView,
    ErrorKind,
> {
    match b {
        Ok(c) => Ok(CookieView { secure: on, ..c }),
        Err(e) => Err(e),
    }
}

/// The `HttpOnly` flag, where the builder has not failed.
pub open spec fn with_http_only(b: Result<CookieView, ErrorKind>, on: bool) -> Result<
    CookieView,
    ErrorKind,
> {
    match b {
        Ok(c) => Ok(CookieView { http_only: on, ..c }),
        Err(e) => Err(e),
    }
}

/// What `Builder::wrap` starts from: the cookie as it is.
pub open spec fn wrap_spec(c: CookieView) -> Result<CookieView, ErrorKind> {
    Ok(c)
}

/// What `Builder::build` hands back: the cookie, or the first error.
pub open spec fn build_spec(b: Result<CookieView, ErrorKind>) -> Result<CookieView, ErrorKind> {
    b
}

pub open spec fn opt_string_view(o: Option<String>) -> Option<Seq<char>> {
    match o {
        Some(s) => Some(s@),
        None => None,
    }
}

/// A cookie put together by a `Builder`; it owns each of its fields.
#[derive(Debug)]
pub struct Built {
    name: String,
    value: String,
    domain: Option<String>,
    path: Option<String>,
    max_age: Option<u64>,
    http_only: bool,
    secure: bool,
    same_site: Option<SameSite>,
}

impl View for Built {
    type V = CookieView;

    closed spec fn view(&self) -> CookieView {
        CookieView {
            name: self.name@,
            value: self.value@,
            domain: opt_string_view(self.domain),
            path: opt_string_view(self.path),
            max_age: self.max_age,
            http_only: self.http_only,
            secure: self.secure,
            same_site: self.same_site,
        }
    }
}

impl Built {
    /// The cookie in wire form; `Expires` is computed from the current time.
    pub fn to_string(&self) -> (r: String)
        ensures
            exists|now: i64| r@ == wire(self@, now),
    {
        display(self)
    }

    /// The fields of the cookie by name, for diagnostics.
    pub fn to_debug_string(&self) -> (r: String)
        ensures
            r@ == debug_text(self@),
    {
        debug(self)
    }
}

impl Sealed for Built {}

impl Cookie for Built {
    fn name(&self) -> (r: &str) {
        self.name.as_str()
    }

    fn value(&self) -> (r: &str) {
        self.value.as_str()
    }

    fn domain(&self) -> (r: Option<&str>) {
        match &self.domain {
            Some(d) => Some(d.as_str()),
            None => None,
        }
    }

    fn path(&self) -> (r: Option<&str>) {
        match &self.path {
            Some(p) => Some(p.as_str()),
            None => None,
        }
    }

    fn max_age(&self) -> (r: Option<u64>) {
        self.max_age
    }

    fn http_only(&self) -> (r: bool) {
        self.http_only
    }

    fn secure(&self) -> (r: bool) {
        self.secure
    }

    fn same_site(&self) -> (r: Option<SameSite>) {
        self.same_site
    }

    fn same_site_strict(&self) -> (r: bool) {
        self.same_site == Some(SameSite::Strict)
    }

    fn same_site_lax(&self) -> (r: bool) {
        self.same_site == Some(SameSite::Lax)
    }
}

fn opt_to_owned(o: Option<&str>) -> (r: Option<String>)
    ensures
        opt_string_view(r) == crate::opt_view(o),
{
    match o {
        Some(s) => Some(s.to_owned()),
        None => None,
    }
}

/// Configures an HTTP cookie step by step. The first step given an invalid value
/// decides the outcome; the steps after it change nothing.
#[derive(Debug)]
pub struct Builder {
    state: Result<Built, Error>,
}

impl View for Builder {
    type V = Result<CookieView, ErrorKind>;

    closed spec fn view(&self) -> Result<CookieView, ErrorKind> {
        match self.state {
            Ok(c) => Ok(c@),
            Err(e) => Err(e@),
        }
    }
}

impl Builder {
    /// Starts a builder with the name and value of a cookie.
    pub fn new(name: &str, value: &str) -> (r: Builder)
        ensures
            r@ == new_spec(name@, value@),
    {
        if validate_name(name).is_err() {
            return Builder { state: Err(Error::invalid_name()) };
        }
        if validate_value(value).is_err() {
            return Builder { state: Err(Error::invalid_value()) };
        }
        let c = Built {
            name: name.to_owned(),
            value: value.to_owned(),
            domain: None,
            path: None,
            max_age: None,
            http_only: false,
            secure: false,
            same_site: None,
        };
        assert(c@ =~= pair_view(name@, value@));
        Builder { state: Ok(c) }
    }

    /// Starts a builder from an existing cookie, to change some of its attributes.
    pub fn wrap<C: Cookie>(cookie: C) -> (r: Builder)
        ensures
            r@ == wrap_spec(cookie@),
    {
        let c = Built {
            name: cookie.name().to_owned(),
            value: cookie.value().to_owned(),
            domain: opt_to_owned(cookie.domain()),
            path: opt_to_owned(cookie.path()),
            max_age: cookie.max_age(),
            http_only: cookie.http_only(),
            secure: cookie.secure(),
            same_site: cookie.same_site(),
        };
        assert(c@ =~= cookie@);
        Builder { state: Ok(c) }
    }

    /// Sets the value of the cookie.
    pub fn value(self, value: &str) -> (r: Builder)
        ensures
            r@ == with_value(self@, value@),
    {
        match self.state {
            Ok(mut c) => {
                if validate_value(value).is_ok() {
                    c.value = value.to_owned();
                    Builder { state: Ok(c) }
                } else {
                    Builder { state: Err(Error::invalid_value()) }
                }
            },
            Err(e) => Builder { state: Err(e) },
        }
    }

    /// Sets the `Path` attribute. An invalid path is an error here, where parsing
    /// would drop it.
    pub fn path(self, path: &str) -> (r: Builder)
        ensures
            r@ == with_path(self@, path@),
    {
        match self.state {
            Ok(mut c) => {
                if is_valid_path(path) {
                    c.path = Some(path.to_owned());
                    Builder { state: Ok(c) }
                } else {
                    Builder { state: Err(Error::invalid_path()) }
                }
            },
            Err(e) => Builder { state: Err(e) },
        }
    }

    /// Sets the `Domain` attribute; a leading `.` is refused.
    pub fn domain(self, domain: &str) -> (r: Builder)
        ensures
            r@ == with_domain(self@, domain@),
    {
        match self.state {
            Ok(mut c) => {
                match validate_domain(domain) {
                    Domain::AsIs => {
                        c.domain = Some(domain.to_owned());
                        Builder { state: Ok(c) }
                    },
                    _ => Builder { state: Err(Error::invalid_domain()) },
                }
            },
            Err(e) => Builder { state: Err(e) },
        }
    }

    /// Sets the `Max-Age` attribute, in seconds.
    pub fn max_age(self, secs: u64) -> (r: Builder)
        ensures
            r@ == with_max_age(self@, secs),
    {
        match self.state {
            Ok(mut c) => {
                c.max_age = Some(secs);
                Builder { state: Ok(c) }
            },
            Err(e) => Builder { state: Err(e) },
        }
    }

    /// Turns the `Secure` attribute on or off.
    pub fn secure(self, secure: bool) -> (r: Builder)
        ensures
            r@ == with_secure(self@, secure),
    {
        match self.state {
            Ok(mut c) => {
                c.secure = secure;
                Builder { state: Ok(c) }
            },
            Err(e) => Builder { state: Err(e) },
        }
    }

    /// Turns the `HttpOnly` attribute on or off.
    pub fn http_only(self, http_only: bool) -> (r: Builder)
        ensures
            r@ == with_http_only(self@, http_only),
    {
        match self.state {
            Ok(mut c) => {
                c.http_only = http_only;
                Builder { state: Ok(c) }
            },
            Err(e) => Builder { state: Err(e) },
        }
    }

    /// The cookie, or the error of the first step that failed.
    pub fn build(self) -> (r: Result<Built, Error>)
        ensures
            match r {
                Ok(c) => build_spec(self@) == Ok::<CookieView, ErrorKind>(c@),
                Err(e) => build_spec(self@) == Err::<CookieView, ErrorKind>(e@),
            },
    {
        self.state
    }
}

/// A cookie built from a valid name and value alone is written as `name=value`.
pub proof fn lemma_pair_round_trip(name: Seq<char>, value: Seq<char>, now: i64)
    requires
        valid_name(name),
        valid_value(value),
    ensures
        build_spec(new_spec(name, value)) matches Ok(c) && wire(c, now) == name + "="@ + value,
{
    let c = pair_view(name, value);
    assert(wire(c, now) =~= name + "="@ + value);
}

/// Wrapping a cookie and building it again gives a cookie that reads the same in every field.
pub proof fn lemma_rewrap(c: CookieView)
    ensures
        build_spec(wrap_spec(c)) == Ok::<CookieView, ErrorKind>(c),
{
}

/// An invalid path fails a builder, while parsing drops it and keeps what was there.
pub proof fn lemma_path_strict_vs_lenient(c: CookieView, st: ParseState, p: Seq<char>)
    requires
        !valid_path(p),
    ensures
        with_path(Ok(c), p) == Err::<CookieView, ErrorKind>(ErrorKind::InvalidPath),
        apply_valued(st, "Path"@, p) == st,
{
    reveal_strlit("Path");
    reveal_strlit("max-age");
    reveal_strlit("path");
    assert(!eq_ascii_nocase("Path"@, "max-age"@));
    assert forall|i: int| 0 <= i < 4 implies lower_code(#[trigger] "Path"@[i]) == lower_code(
        "path"@[i],
    ) by {
        if i == 0 {
            assert(lower_code('P') == lower_code('p'));
        }
    }
    assert(eq_ascii_nocase("Path"@, "path"@));
}

} // verus!
