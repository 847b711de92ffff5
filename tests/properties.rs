use cookies::{
    debug, display_at, is_valid_path, parse, parse_at, validate_domain, validate_name,
    validate_value, Builder, Cookie, Domain, ErrorKind, SameSite,
};

#[test]
fn builder_pair_writes_name_and_value() {
    let c = Builder::new("session", "abc123").build().unwrap();
    assert_eq!(c.to_string(), "session=abc123");
    assert_eq!(display_at(&c, 0), "session=abc123");
}

#[test]
fn rewrap_keeps_every_field() {
    let c = parse("n=v; Path=/a; Domain=.ex.org; Max-Age=9; Secure; HttpOnly; SameSite=Lax").unwrap();
    let w = Builder::wrap(Builder::new("n", "v").build().unwrap()).build().unwrap();
    assert_eq!(w.name(), "n");
    assert_eq!(w.value(), "v");
    let b = Builder::wrap(c).build().unwrap();
    assert_eq!(b.name(), "n");
    assert_eq!(b.value(), "v");
    assert_eq!(b.path(), Some("/a"));
    assert_eq!(b.domain(), Some("ex.org"));
    assert_eq!(b.max_age(), Some(9));
    assert!(b.secure());
    assert!(b.http_only());
    assert_eq!(b.same_site(), Some(SameSite::Lax));
}

#[test]
fn last_valid_path_wins() {
    assert_eq!(parse("n=v; Path=/a; Path=bogus").unwrap().path(), Some("/a"));
    assert_eq!(parse("n=v; Path=/a; Path=/b").unwrap().path(), Some("/b"));
}

#[test]
fn leading_dot_is_stripped() {
    let c = parse("n=v; Domain=.hyper.example").unwrap();
    assert_eq!(c.domain(), Some("hyper.example"));
}

#[test]
fn max_age_wins_over_expires() {
    let c = parse_at("n=v; Expires=Thu, 01 Jan 1970 00:01:40 GMT; Max-Age=7", 0).unwrap();
    assert_eq!(c.max_age(), Some(7));
    let c = parse_at("n=v; Max-Age=7; Expires=Thu, 01 Jan 1970 00:01:40 GMT", 0).unwrap();
    assert_eq!(c.max_age(), Some(7));
}

#[test]
fn expires_gives_max_age() {
    let c = parse_at("n=v; Expires=Thu, 01 Jan 1970 00:01:40 GMT", 0).unwrap();
    assert_eq!(c.max_age(), Some(100));
    let c = parse_at("n=v; Expires=Thu, 01 Jan 1970 00:01:40 GMT", 40).unwrap();
    assert_eq!(c.max_age(), Some(60));
    let c = parse_at("n=v; expires=Thu, 01 Jan 1970 00:01:40 GMT", 500).unwrap();
    assert_eq!(c.max_age(), Some(0), "already expired");
}

#[test]
fn expires_other_formats() {
    let c = parse_at("n=v; Expires=Thursday, 01-Jan-70 00:01:40 GMT", 0).unwrap();
    assert_eq!(c.max_age(), Some(100), "RFC 850");
    let c = parse_at("n=v; Expires=Thu Jan  1 00:01:40 1970", 0).unwrap();
    assert_eq!(c.max_age(), Some(100), "asctime");
}

#[test]
fn expires_unreadable_is_absent() {
    let c = parse_at("n=v; Expires=someday", 0).unwrap();
    assert_eq!(c.max_age(), None);
    let c = parse("n=v; Expires=Tue, 21 May 2019 21:12:11 GMT").unwrap();
    assert_eq!(c.max_age(), Some(0), "a date in the past");
}

#[test]
fn strict_builder_lenient_parser() {
    let e = Builder::new("n", "v").path("bad-path").build().unwrap_err();
    assert_eq!(e.kind(), ErrorKind::InvalidPath);
    let c = parse("n=v; Path=bad-path").unwrap();
    assert_eq!(c.path(), None);
}

#[test]
fn length_cap() {
    let mut s = String::from("n=v; Path=/");
    while s.len() <= 4096 {
        s.push('a');
    }
    assert_eq!(parse(&s).unwrap_err().kind(), ErrorKind::TooLong);
    let mut t = String::from("n=v; Path=/");
    while t.len() < 4096 {
        t.push('a');
    }
    assert_eq!(parse(&t).unwrap().path().map(|p| p.len()), Some(4096 - 10));
    assert_eq!(parse(&"=".repeat(5000)).unwrap_err().kind(), ErrorKind::TooLong);
}

#[test]
fn length_cap_counts_bytes() {
    let mut s = String::from("n=v; Path=/");
    while s.len() <= 4096 {
        s.push('é');
    }
    assert_eq!(parse(&s).unwrap_err().kind(), ErrorKind::TooLong);
}

#[test]
fn bogus_flag_values_set_flags() {
    assert!(parse("n=v; secure=anything").unwrap().secure());
    assert!(parse("n=v; HTTPONLY=no").unwrap().http_only());
}

#[test]
fn unknown_samesite_is_absent() {
    let c = parse("n=v; samesite=wat").unwrap();
    assert_eq!(c.same_site(), None);
    assert!(!c.same_site_strict());
    assert!(!c.same_site_lax());
}

#[test]
fn most_attributes_round_trip() {
    let orig = "foo=bar; Path=/index.html; Domain=hyper.example; HttpOnly; Secure; SameSite=Strict";
    assert_eq!(parse(orig).unwrap().to_string(), orig);
    let lower = "foo=bar; path=/index.html; domain=hyper.example; httponly; secure; samesite=strict";
    assert_eq!(parse(lower).unwrap().to_string(), orig);
}

#[test]
fn whitespace_is_trimmed() {
    let c = parse("  foo =\tbar ;  Path = /x ; Domain=  a.b  ").unwrap();
    assert_eq!(c.name(), "foo");
    assert_eq!(c.value(), "bar");
    assert_eq!(c.path(), Some("/x"));
    assert_eq!(c.domain(), Some("a.b"));
}

#[test]
fn max_age_numbers() {
    assert_eq!(parse("n=v; Max-Age=+5").unwrap().max_age(), Some(5));
    assert_eq!(parse("n=v; Max-Age=0").unwrap().max_age(), Some(0));
    assert_eq!(parse("n=v; Max-Age=9223372036854775807").unwrap().max_age(), Some(9223372036854775807));
    assert_eq!(parse("n=v; Max-Age=-9223372036854775808").unwrap().max_age(), Some(0));
    assert_eq!(parse("n=v; Max-Age=9223372036854775808").unwrap().max_age(), None, "overflow");
    assert_eq!(parse("n=v; Max-Age=12; Max-Age=99999999999999999999").unwrap().max_age(), Some(12));
    assert_eq!(parse("n=v; Max-Age=-").unwrap().max_age(), None);
    assert_eq!(parse("n=v; Max-Age=1 2").unwrap().max_age(), None);
}

#[test]
fn error_kinds() {
    assert_eq!(parse("novalue").unwrap_err().kind(), ErrorKind::InvalidName);
    assert_eq!(parse("a b=c").unwrap_err().kind(), ErrorKind::InvalidName);
    assert_eq!(parse("a=b c").unwrap_err().kind(), ErrorKind::InvalidValue);
    assert_eq!(parse("a=\"b\"").unwrap_err().kind(), ErrorKind::InvalidValue);
    assert_eq!(parse("a=").unwrap().value(), "");
    assert_eq!(Builder::new("a", "b").value("x;y").build().unwrap_err().kind(), ErrorKind::InvalidValue);
    assert_eq!(Builder::new("a", "b").domain("").build().unwrap_err().kind(), ErrorKind::InvalidDomain);
    let e = Builder::new("", "b").path("bad").build().unwrap_err();
    assert_eq!(e.kind(), ErrorKind::InvalidName, "the first error is kept");
    assert_eq!(e.message(), "cookie name contains invalid character");
    assert_eq!(Builder::new("a", "b").path("").build().unwrap_err().message(), "cookie path is invalid");
}

#[test]
fn validators() {
    assert!(validate_name("foo").is_ok());
    assert!(validate_name("").is_err());
    assert!(validate_name("a\u{7f}").is_err());
    assert!(validate_name("naïve").is_ok());
    assert!(validate_value("").is_ok());
    assert!(validate_value("!#$%&'()*+-./:<=>?@[]^_`{|}~").is_ok());
    assert!(validate_value("a,b").is_err());
    assert!(validate_value("é").is_err());
    assert!(is_valid_path("/a\"b"));
    assert!(!is_valid_path("/a;b"));
    assert!(!is_valid_path(""));
    assert_eq!(validate_domain("example.org"), Domain::AsIs);
    assert_eq!(validate_domain(".example.org"), Domain::LeadingDot);
    assert_eq!(validate_domain("exa mple"), Domain::Invalid);
    assert_eq!(validate_domain(""), Domain::Invalid);
}

#[test]
fn display_with_expires() {
    let c = Builder::new("foo", "bar").max_age(100).build().unwrap();
    assert_eq!(display_at(&c, 0), "foo=bar; Max-Age=100; Expires=Thu, 01 Jan 1970 00:01:40 GMT");
    let c = Builder::new("foo", "bar").max_age(u64::MAX).build().unwrap();
    assert_eq!(
        display_at(&c, 1_600_000_000),
        "foo=bar; Max-Age=18446744073709551615; Expires=Fri, 31 Dec 9999 23:59:59 GMT"
    );
    let c = Builder::new("foo", "bar").max_age(0).secure(true).http_only(true).build().unwrap();
    assert_eq!(
        display_at(&c, 1_558_473_131),
        "foo=bar; Max-Age=0; Expires=Tue, 21 May 2019 21:12:11 GMT; HttpOnly; Secure"
    );
}

#[test]
fn builder_flags_off_again() {
    let c = Builder::new("a", "b").secure(true).secure(false).http_only(true).http_only(false).build().unwrap();
    assert_eq!(c.to_string(), "a=b");
}

#[test]
fn debug_form() {
    let c = parse("foo=bar; Path=/; Domain=x.y; Max-Age=3; HttpOnly; Secure; SameSite=Lax").unwrap();
    assert_eq!(
        debug(&c),
        "Cookie { name: \"foo\", value: \"bar\", path: \"/\", domain: \"x.y\", max_age: 3s, http_only: true, secure: true, same_site: Lax }"
    );
    assert_eq!(c.to_debug_string(), debug(&c));
    let b = Builder::new("a", "b").build().unwrap();
    assert_eq!(b.to_debug_string(), "Cookie { name: \"a\", value: \"b\" }");
}
