use rase::mime::get_mimetype;

#[test]
fn known_extensions_in_any_case() {
    assert_eq!(get_mimetype("/srv/static/app.js"), Some("text/javascript"));
    assert_eq!(get_mimetype("INDEX.HTML"), Some("text/html"));
    assert_eq!(get_mimetype("a.b/c.tar"), Some("application/x-tar"));
    assert_eq!(get_mimetype("font.woff2"), Some("font/woff2"));
}

#[test]
fn no_extension_or_unknown() {
    assert_eq!(get_mimetype("README"), None);
    assert_eq!(get_mimetype("/home/.bashrc"), None);
    assert_eq!(get_mimetype("a.b/c"), None);
    assert_eq!(get_mimetype("x.unknown"), None);
    assert_eq!(get_mimetype("x.H261"), None);
    assert_eq!(get_mimetype("name."), None);
}
