use cookies::{parse, Cookie, SameSite};

#[test]
fn invalid_name() {
    parse("=bar").expect_err("empty name");
    parse("f()()=bar").expect_err("parens in name");
}

#[test]
fn invalid_value() {
    parse("foo=b\na\nr").expect_err("CTL in value");
}

#[test]
fn max_age() {
    let secs_3 = 3;

    let c = parse("foo=bar; Max-Age=3").expect("positive");
    assert_eq!(c.max_age(), Some(secs_3));

    let c = parse("foo=bar; Max-Age=-3").expect("negative");
    assert_eq!(c.max_age(), Some(0));

    let c = parse("foo=bar; Max-Age=55; Max-Age=3").unwrap();
    assert_eq!(c.max_age(), Some(secs_3), "last Max-Age");

    let c = parse("foo=bar; Max-Age=3; Max-Age=wat").unwrap();
    assert_eq!(c.max_age(), Some(secs_3), "last 'valid' Max-Age");
}

#[test]
fn path() {
    let c = parse("foo=bar; Path=/").unwrap();
    assert_eq!(c.path(), Some("/"));

    let c = parse("foo=bar; Path=/next").unwrap();
    assert_eq!(c.path(), Some("/next"));

    let c = parse("foo=bar; Path").unwrap();
    assert_eq!(c.path(), None, "Path without equals");

    let c = parse("foo=bar; Path=").unwrap();
    assert_eq!(c.path(), None, "Path with empty value");

    let c = parse("foo=bar; Path=/a; Path=/b").unwrap();
    assert_eq!(c.path(), Some("/b"), "is last Path");

    let c = parse("foo=bar; Path=/a; Path=").unwrap();
    assert_eq!(c.path(), Some("/a"), "is last 'valid' Path");

    let c = parse("foo=bar; Path=woop/sies").unwrap();
    assert_eq!(c.path(), None, "first character is non-slash");
}

#[test]
fn domain() {
    let c = parse("foo=bar; Domain=hyper.rs").unwrap();
    assert_eq!(c.domain(), Some("hyper.rs"));

    let c = parse("foo=bar; Domain=.hyper.rs").unwrap();
    assert_eq!(c.domain(), Some("hyper.rs"), "removes leading dot");

    let c = parse("foo=bar; Domain=hyper.rs; Domain=rust-lang.org").unwrap();
    assert_eq!(c.domain(), Some("rust-lang.org"), "is last Domain");

    let c = parse("foo=bar; Domain=hyper.rs; Domain").unwrap();
    assert_eq!(c.domain(), Some("hyper.rs"), "is last 'valid' Domain");
}

#[test]
fn secure_bogus_value() {
    let c = parse("foo=bar; secure=wat").unwrap();
    assert!(c.secure());
}

#[test]
fn httponly_bogus_value() {
    let c = parse("foo=bar; httponly=wat").unwrap();
    assert!(c.http_only());
}

#[test]
fn samesite_bogus_value() {
    // SameSite spec says we should ignore the attribute completely
    let c = parse("foo=bar; samesite=wat").unwrap();
    assert_eq!(c.same_site(), None);
}

#[test]
fn parsed_to_boxed() {
    let c = parse("foo=bar").unwrap();
    let bc = Box::new(c) as Box<dyn Cookie>;
    assert_eq!(bc.name(), "foo");
    assert_eq!(bc.value(), "bar");
}

#[test]
fn name_val() {
    let cookie = parse("name=val").expect("parse");
    assert_eq!(cookie.name(), "name", "cookie.name()");
    assert_eq!(cookie.value(), "val", "cookie.value()");
}

#[test]
fn value_dollar() {
    let cookie = parse("Cookie-1=v$1").expect("parse");
    assert_eq!(cookie.name(), "Cookie-1", "cookie.name()");
    assert_eq!(cookie.value(), "v$1", "cookie.value()");
}

#[test]
fn name_dot() {
    let cookie = parse("ASP.NET_SessionId=foo; path=/; HttpOnly").expect("parse");
    assert_eq!(cookie.name(), "ASP.NET_SessionId", "cookie.name()");
    assert_eq!(cookie.value(), "foo", "cookie.value()");
    assert_eq!(cookie.path(), Some("/"), "cookie.path()");
    assert_eq!(cookie.http_only(), true, "cookie.http_only()");
}

#[test]
fn samesite_values() {
    let c = parse("foo=bar; SameSite=lax").unwrap();
    assert_eq!(c.same_site(), Some(SameSite::Lax));
    assert!(c.same_site_lax());
    let c = parse("foo=bar; samesite=STRICT").unwrap();
    assert_eq!(c.same_site(), Some(SameSite::Strict));
    assert!(c.same_site_strict());
    let c = parse("foo=bar; SameSite=Strict; SameSite=").unwrap();
    assert_eq!(c.same_site(), Some(SameSite::Strict), "empty SameSite keeps the earlier one");
}
