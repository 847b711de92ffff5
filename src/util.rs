use vstd::prelude::*;
use vstd::string::*;

use crate::clock::{http_date, http_date_of, now_secs, MAX_INSTANT};
use crate::num::{decimal, push_decimal};
use crate::{Cookie, CookieView, SameSite};

verus! {

/// The instant at which a cookie with the given `Max-Age` expires, seen at `now`;
/// held between the epoch and `MAX_INSTANT`.
pub open spec fn expiry(now: int, secs: int) -> i64 {
    let t = now + secs;
    if t > MAX_INSTANT {
        MAX_INSTANT
    } else if t < 0 {
        0
    } else {
        t as i64
    }
}

/// `label` followed by the attribute's value, or nothing when it is not set.
pub open spec fn opt_attr(label: Seq<char>, o: Option<Seq<char>>) -> Seq<char> {
    match o {
        Some(v) => label + v,
        None => Seq::empty(),
    }
}

/// `text` when `b` holds, else nothing.
pub open spec fn flag(b: bool, text: Seq<char>) -> Seq<char> {
    if b {
        text
    } else {
        Seq::empty()
    }
}

/// The `Max-Age` and `Expires` attributes, written together, or nothing.
pub open spec fn max_age_attrs(max_age: Option<u64>, now: i64) -> Seq<char> {
    match max_age {
        Some(s) => "; Max-Age="@ + decimal(s as nat) + "; Expires="@ + http_date_of(
            expiry(now as int, s as int),
        ),
        None => Seq::empty(),
    }
}

/// The `SameSite` attribute, or nothing.
pub open spec fn same_site_attr(s: Option<SameSite>) -> Seq<char> {
    match s {
        Some(SameSite::Strict) => "; SameSite=Strict"@,
        Some(SameSite::Lax) => "; SameSite=Lax"@,
        None => Seq::empty(),
    }
}

/// The wire form of a cookie, written at the instant `now`.
pub open spec fn wire(c: CookieView, now: i64) -> Seq<char> {
    c.name + "="@ + c.value + opt_attr("; Path="@, c.path) + opt_attr("; Domain="@, c.domain)
        + max_age_attrs(c.max_age, now) + flag(c.http_only, "; HttpOnly"@) + flag(
        c.secure,
        "; Secure"@,
    ) + same_site_attr(c.same_site)
}

/// A quoted field of the debug form, after its label.
pub open spec fn quoted_field(label: Seq<char>, o: Option<Seq<char>>) -> Seq<char> {
    match o {
        Some(v) => label + v + "\""@,
        None => Seq::empty(),
    }
}

/// The debug form of a cookie: its fields by name, the unset ones left out.
pub open spec fn debug_text(c: CookieView) -> Seq<char> {
    "Cookie { name: \""@ + c.name + "\", value: \""@ + c.value + "\""@ + quoted_field(
        ", path: \""@,
        c.path,
    ) + quoted_field(", domain: \""@, c.domain) + debug_max_age(c.max_age) + flag(
        c.http_only,
        ", http_only: true"@,
    ) + flag(c.secure, ", secure: true"@) + debug_same_site(c.same_site) + " }"@
}

/// The `max_age` field of the debug form, or nothing.
pub open spec fn debug_max_age(o: Option<u64>) -> Seq<char> {
    match o {
        Some(s) => ", max_age: "@ + decimal(s as nat) + "s"@,
        None => Seq::empty(),
    }
}

/// The `same_site` field of the debug form, or nothing.
pub open spec fn debug_same_site(o: Option<SameSite>) -> Seq<char> {
    match o {
        Some(SameSite::Strict) => ", same_site: Strict"@,
        Some(SameSite::Lax) => ", same_site: Lax"@,
        None => Seq::empty(),
    }
}

/// Writes `cookie` in wire form, with `now` as the current time for `Expires`.
pub fn display_at<C: Cookie>(cookie: &C, now: i64) -> (r: String)
    ensures
        r@ == wire(cookie@, now),
{
    let ghost c = cookie@;
    let mut out = String::new();
    out.append(cookie.name());
    out.append("=");
    out.append(cookie.value());
    assert(out@ == c.name + "="@ + c.value);
    match cookie.path() {
        Some(p) => {
            out.append("; Path=");
            out.append(p);
        },
        None => {},
    }
    assert(out@ =~= c.name + "="@ + c.value + opt_attr("; Path="@, c.path));
    let ghost s1 = out@;
    match cookie.domain() {
        Some(d) => {
            out.append("; Domain=");
            out.append(d);
        },
        None => {},
    }
    assert(out@ =~= s1 + opt_attr("; Domain="@, c.domain));
    let ghost s2 = out@;
    match cookie.max_age() {
        Some(secs) => {
            out.append("; Max-Age=");
            push_decimal(&mut out, secs);
            out.append("; Expires=");
            let t: i128 = now as i128 + secs as i128;
            let at: i64 = if t > MAX_INSTANT as i128 {
                MAX_INSTANT
            } else if t < 0 {
                0
            } else {
                t as i64
            };
            let date = http_date(at);
            out.append(date.as_str());
        },
        None => {},
    }
    assert(out@ =~= s2 + max_age_attrs(c.max_age, now));
    let ghost s3 = out@;
    if cookie.http_only() {
        out.append("; HttpOnly");
    }
    assert(out@ =~= s3 + flag(c.http_only, "; HttpOnly"@));
    let ghost s4 = out@;
    if cookie.secure() {
        out.append("; Secure");
    }
    assert(out@ =~= s4 + flag(c.secure, "; Secure"@));
    let ghost s5 = out@;
    if cookie.same_site_strict() {
        out.append("; SameSite=Strict");
    } else if cookie.same_site_lax() {
        out.append("; SameSite=Lax");
    }
    assert(out@ =~= s5 + same_site_attr(c.same_site));
    out
}

/// Writes `cookie` in wire form: `name=value`, then each attribute that is set, in a
/// fixed order. `Expires` is computed from the current time.
pub fn display<C: Cookie>(cookie: &C) -> (r: String)
    ensures
        exists|now: i64| r@ == wire(cookie@, now),
{
    let now = now_secs();
    display_at(cookie, now)
}

/// Writes the fields of `cookie` by name, for diagnostics.
pub fn debug<C: Cookie>(cookie: &C) -> (r: String)
    ensures
        r@ == debug_text(cookie@),
{
    let ghost c = cookie@;
    let mut out = String::new();
    out.append("Cookie { name: \"");
    out.append(cookie.name());
    out.append("\", value: \"");
    out.append(cookie.value());
    out.append("\"");
    let ghost s0 = out@;
    match cookie.path() {
        Some(p) => {
            out.append(", path: \"");
            out.append(p);
            out.append("\"");
        },
        None => {},
    }
    assert(out@ =~= s0 + quoted_field(", path: \""@, c.path));
    let ghost s1 = out@;
    match cookie.domain() {
        Some(d) => {
            out.append(", domain: \"");
            out.append(d);
            out.append("\"");
        },
        None => {},
    }
    assert(out@ =~= s1 + quoted_field(", domain: \""@, c.domain));
    let ghost s2 = out@;
    match cookie.max_age() {
        Some(secs) => {
            out.append(", max_age: ");
            push_decimal(&mut out, secs);
            out.append("s");
        },
        None => {},
    }
    assert(out@ =~= s2 + debug_max_age(c.max_age));
    let ghost s3 = out@;
    if cookie.http_only() {
        out.append(", http_only: true");
    }
    assert(out@ =~= s3 + flag(c.http_only, ", http_only: true"@));
    let ghost s4 = out@;
    if cookie.secure() {
        out.append(", secure: true");
    }
    assert(out@ =~= s4 + flag(c.secure, ", secure: true"@));
    let ghost s5 = out@;
    if cookie.same_site_strict() {
        out.append(", same_site: Strict");
    } else if cookie.same_site_lax() {
        out.append(", same_site: Lax");
    }
    assert(out@ =~= s5 + debug_same_site(c.same_site));
    out.append(" }");
    assert(out@ =~= debug_text(c));
    out
}

} // verus!
