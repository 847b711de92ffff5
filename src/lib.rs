//! HTTP cookie parsing and building.
//!
//! A cookie is anything that implements [`Cookie`]: a cookie parsed from a
//! `Set-Cookie` value ([`parse`]), which keeps only offsets into its source,
//! or a cookie put together with a [`Builder`]. Both render back to the wire
//! format with [`display`].
use vstd::prelude::*;

mod builder;
mod chars;
mod clock;
mod error;
mod num;
mod parse;
mod sealed;
mod util;
mod validate;

pub use self::builder::{
    build_spec, lemma_pair_round_trip, lemma_path_strict_vs_lenient, lemma_rewrap, new_spec,
    with_domain, with_http_only, with_max_age, with_path, with_secure, with_value, wrap_spec,
    Builder, Built,
};
pub use self::chars::{eq_ascii_nocase, is_space, trim};
pub use self::clock::{date_secs_of, http_date_of, MAX_INSTANT};
pub use self::error::{error_message, Error, ErrorKind};
pub use self::num::{decimal, i64_of};
pub use self::parse::{
    apply_attr, apply_attrs, expires_secs, indexed, indices, lemma_length_cap,
    lemma_max_age_precedence, max_age_until, pair_view, parse, parse_at, parse_spec,
    parsed_result, resolve, scan, Indexed, ParseState, Parsed, MAX_LENGTH,
};
pub use self::util::{debug, debug_text, display, display_at, expiry, wire};
pub use self::validate::{
    domain_kind, is_valid_path, valid_name, valid_path, valid_value, validate_domain,
    validate_name, validate_value, Domain,
};
use self::sealed::Sealed;

verus! {

/// The `SameSite` attribute of a cookie.
#[derive(Debug, Clone, Copy, PartialEq, Eq, Structural)]
pub enum SameSite {
    Lax,
    Strict,
}

/// What a cookie holds, whatever its representation.
pub ghost struct CookieView {
    pub name: Seq<char>,
    pub value: Seq<char>,
    pub domain: Option<Seq<char>>,
    pub path: Option<Seq<char>>,
    /// `Max-Age`, in seconds.
    pub max_age: Option<u64>,
    pub http_only: bool,
    pub secure: bool,
    pub same_site: Option<SameSite>,
}

/// The view of an optional string.
pub open spec fn opt_view(o: Option<&str>) -> Option<Seq<char>> {
    match o {
        Some(s) => Some(s@),
        None => None,
    }
}

/// Cookies in this crate implement this trait.
pub trait Cookie: Sealed + View<V = CookieView> {
    /// Get the name of this cookie.
    fn name(&self) -> (r: &str)
        ensures
            r@ == self@.name,
    ;

    /// Get the value of this cookie.
    fn value(&self) -> (r: &str)
        ensures
            r@ == self@.value,
    ;

    /// Get the `Domain`, if set.
    fn domain(&self) -> (r: Option<&str>)
        ensures
            opt_view(r) == self@.domain,
    ;

    /// Get the `Path`, if set.
    fn path(&self) -> (r: Option<&str>)
        ensures
            opt_view(r) == self@.path,
    ;

    /// Get the `Max-Age` in seconds, if set.
    fn max_age(&self) -> (r: Option<u64>)
        ensures
            r == self@.max_age,
    ;

    /// Get if the `HttpOnly` attribute was on this cookie.
    fn http_only(&self) -> (r: bool)
        ensures
            r == self@.http_only,
    ;

    /// Get if the `Secure` attribute was on this cookie.
    fn secure(&self) -> (r: bool)
        ensures
            r == self@.secure,
    ;

    /// Get the `SameSite` attribute, if set.
    fn same_site(&self) -> (r: Option<SameSite>)
        ensures
            r == self@.same_site,
    ;

    /// Get if the `SameSite=Strict` attribute was on this cookie.
    fn same_site_strict(&self) -> (r: bool)
        ensures
            r == (self@.same_site == Some(SameSite::Strict)),
    ;

    /// Get if the `SameSite=Lax` attribute was on this cookie.
    fn same_site_lax(&self) -> (r: bool)
        ensures
            r == (self@.same_site == Some(SameSite::Lax)),
    ;
}

} // verus!
