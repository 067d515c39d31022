use preprintd::ident::{create_new_ident, format_ident, settle_ident, IdentSource};

fn check_fresh(s: &str, arch: &str) {
    let (u, a) = s.split_once(';').unwrap();
    assert_eq!(u.len(), 36);
    for (i, c) in u.chars().enumerate() {
        if [8, 13, 18, 23].contains(&i) {
            assert_eq!(c, '-');
        } else {
            assert!(c.is_ascii_hexdigit() && !c.is_ascii_uppercase());
        }
    }
    assert_eq!(u.as_bytes()[14], b'4');
    assert_eq!(a, arch);
}

#[test]
fn format_of_an_identity() {
    assert_eq!(
        format_ident("03780793-e7af-49c1-b55d-92ff57be8c6e", "aarch64-apple-darwin"),
        "03780793-e7af-49c1-b55d-92ff57be8c6e;aarch64-apple-darwin"
    );
    assert_eq!(format_ident("u", "x86_64"), "u;x86_64");
}

#[test]
fn new_identities_are_fresh() {
    let a = create_new_ident("x86_64");
    let b = create_new_ident("x86_64");
    check_fresh(&a, "x86_64");
    check_fresh(&b, "x86_64");
    assert_ne!(a, b);
}

#[test]
fn settled_identity() {
    let kept = settle_ident(IdentSource::Existing { contents: Some("kept;arm".into()) }, "x86_64");
    assert_eq!(kept, "kept;arm");
    let made = settle_ident(IdentSource::Created { ident: "made;x86_64".into(), written: true }, "x86_64");
    assert_eq!(made, "made;x86_64");
    check_fresh(&settle_ident(IdentSource::NoStateDirectory, "x86_64"), "x86_64");
    check_fresh(&settle_ident(IdentSource::Existing { contents: None }, "x86_64"), "x86_64");
    check_fresh(
        &settle_ident(IdentSource::Created { ident: "made;x86_64".into(), written: false }, "x86_64"),
        "x86_64",
    );
}
