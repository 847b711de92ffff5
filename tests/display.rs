use cookies::{parse, Builder};

#[test]
fn display_most_attributes() {
    let orig = "foo=bar; Path=/index.html; Domain=hyper.rs; HttpOnly; Secure; SameSite=Strict";
    let c = parse(orig).unwrap();
    let s = c.to_string();
    assert_eq!(s, orig);
}

#[test]
fn display_expires() {
    let c = Builder::new("foo", "bar")
        .max_age(100)
        .build()
        .unwrap();

    let s = c.to_string();

    let prefix = "foo=bar; Max-Age=100; Expires=";
    assert!(s.starts_with(prefix));
}
