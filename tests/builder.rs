use cookies::{Builder, Cookie};

#[test]
fn pair() {
    // builder with no other attributes
    let c = Builder::new("foo", "bar").build().unwrap();
    assert_eq!(c.name(), "foo");
    assert_eq!(c.value(), "bar");
    assert_eq!(c.path(), None);
    assert_eq!(c.domain(), None);
    assert_eq!(c.max_age(), None);
    assert!(!c.http_only());
    assert!(!c.secure());
    assert!(!c.same_site_strict());
    assert!(!c.same_site_lax());
}

#[test]
fn pair_validates() {
    Builder::new("", "bar").build().expect_err("empty name");
    Builder::new("foo=", "bar")
        .build()
        .expect_err("invalid name");
    Builder::new("foo", "bar\n")
        .build()
        .expect_err("invalid value");
}

#[test]
fn with_value() {
    // can change the value
    let c = Builder::new("foo", "bar").value("wat").build().unwrap();

    assert_eq!(c.value(), "wat");
}

#[test]
fn with_path() {
    let c = Builder::new("foo", "bar").path("/hallo").build().unwrap();

    assert_eq!(c.path(), Some("/hallo"));

    let c2 = Builder::wrap(c).path("/bye").build().unwrap();

    assert_eq!(c2.path(), Some("/bye"));

    Builder::new("foo", "bar")
        .path("bad-path")
        .build()
        .expect_err("path without leading slash");

    Builder::new("foo", "bar")
        .path("/hello\nwat")
        .build()
        .expect_err("path with CTL");
}

#[test]
fn with_domain() {
    let c = Builder::new("foo", "bar")
        .domain("hyper.rs")
        .build()
        .unwrap();

    assert_eq!(c.domain(), Some("hyper.rs"));

    Builder::new("foo", "bar")
        .domain("hyper\nrs")
        .build()
        .expect_err("domain with CTL");

    Builder::new("foo", "bar")
        .domain(".hyper.rs")
        .build()
        .expect_err("domain with leading dot");
}

#[test]
fn with_max_age() {
    let c = Builder::new("foo", "bar")
        .max_age(10)
        .build()
        .unwrap();

    assert_eq!(c.max_age(), Some(10));
}
