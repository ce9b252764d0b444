use rase::config::{build_config, Config};
use rase::http::{get_fs_path, is_path_safe, parse_request};

fn conf(dir: &str, url: &str) -> Config {
    build_config(
        "127.0.0.1".to_string(),
        "8000".to_string(),
        3,
        5,
        dir.to_string(),
        url.to_string(),
        1024,
        1048576,
        vec!["js".to_string()],
    )
}

#[test]
fn parses_request_line_and_version() {
    let c = conf("/srv/static", "/static/");
    let r = parse_request("GET /index HTTP/1.1\r\nHost: x\r\n\r\n", &c);
    assert_eq!(r.method, "GET");
    assert_eq!(r.url_path, "/index");
    assert_eq!(r.version, "HTTP/1.1");
    assert!(!r.is_static);
    assert_eq!(r.fs_path, "");
    assert!(!r.is_gzip_allowed);
    assert!(!r.is_deflate_allowed);
}

#[test]
fn post_with_one_token_leaves_version_empty() {
    let c = conf("/srv/static", "/static/");
    let r = parse_request("POST /form\n", &c);
    assert_eq!(r.method, "POST");
    assert_eq!(r.url_path, "/form");
    assert_eq!(r.version, "");
}

#[test]
fn unknown_method_line_is_ignored() {
    let c = conf("/srv/static", "/static/");
    let r = parse_request("PUT /x HTTP/1.1\r\nX-Other: y\r\n", &c);
    assert_eq!(r.method, "");
    assert_eq!(r.url_path, "");
}

#[test]
fn accept_encoding_sets_flags() {
    let c = conf("/srv/static", "/static/");
    let r = parse_request("GET / HTTP/1.1\r\nAccept-Encoding: deflate, gzip, br\r\n\r\n", &c);
    assert!(r.is_gzip_allowed);
    assert!(r.is_deflate_allowed);
    let r2 = parse_request("GET / HTTP/1.1\r\nAccept-Encoding: br\r\n", &c);
    assert!(!r2.is_gzip_allowed);
    assert!(!r2.is_deflate_allowed);
}

#[test]
fn static_request_resolves_under_root() {
    let c = conf("/srv/static", "/static/");
    let r = parse_request("GET /static/css/../app.js HTTP/1.1\r\n", &c);
    assert!(r.is_static);
    assert_eq!(r.fs_path, "/srv/static/app.js");
}

#[test]
fn traversal_out_of_root_is_not_static() {
    let c = conf("/srv/static", "/static/");
    let r = parse_request("GET /static/../../etc/passwd HTTP/1.1\r\n", &c);
    assert!(!r.is_static);
    assert_eq!(r.fs_path, "/etc/passwd");
}

#[test]
fn absolute_remainder_replaces_root() {
    let c = conf("/srv/static", "/static");
    assert_eq!(c.static_url, "/static/");
    let r = parse_request("GET /static//etc/passwd HTTP/1.1\r\n", &c);
    assert!(!r.is_static);
    assert_eq!(get_fs_path("/static//etc/passwd", &c), "/etc/passwd");
}

#[test]
fn path_safety_is_a_prefix_check() {
    let c = conf("/srv/static", "/static/");
    assert!(is_path_safe("/srv/static/a.js", &c));
    assert!(!is_path_safe("/srv/a.js", &c));
    assert_eq!(get_fs_path("/static/./a//b.js", &c), "/srv/static/a/b.js");
}

#[test]
fn empty_static_dir_keeps_relative_path() {
    let c = conf("", "/static/");
    let r = parse_request("GET /static/js/../app.js HTTP/1.1", &c);
    assert!(r.is_static);
    assert_eq!(r.fs_path, "app.js");
}

#[test]
fn encoding_headers_accumulate_and_later_request_line_wins() {
    let c = conf("/srv/static", "/static/");
    let r = parse_request(
        "GET /a HTTP/1.0\nAccept-Encoding: gzip\nPOST /b HTTP/1.1\nAccept-Encoding: deflate\n",
        &c,
    );
    assert_eq!(r.method, "POST");
    assert_eq!(r.url_path, "/b");
    assert_eq!(r.version, "HTTP/1.1");
    assert!(r.is_gzip_allowed);
    assert!(r.is_deflate_allowed);
}
