use std::io::Read;

use rase::config::build_config;
use rase::default_app::default_app;
use rase::http::{parse_request, HttpResponse, RESPONSE_404};
use rase::response::{frame_app_response, http_response_to_str, static_response};

fn dechunk(body: &[u8]) -> Vec<u8> {
    let mut out = Vec::new();
    chunked_transfer::Decoder::new(body).read_to_end(&mut out).unwrap();
    out
}

fn split_head(r: &[u8]) -> (String, Vec<u8>) {
    let pos = r.windows(4).position(|w| w == b"\r\n\r\n").unwrap();
    (String::from_utf8(r[..pos + 4].to_vec()).unwrap(), r[pos + 4..].to_vec())
}

#[test]
fn missing_static_file_gives_404_document() {
    let r = static_response("/srv/static/none.js", None);
    assert_eq!(r, RESPONSE_404.as_bytes().to_vec());
}

#[test]
fn static_js_file_scenario() {
    let c = build_config(
        "127.0.0.1".to_string(),
        "8000".to_string(),
        3,
        5,
        "/srv/static".to_string(),
        "/static/".to_string(),
        1024,
        1048576,
        vec![],
    );
    let req = parse_request("GET /static/app.js HTTP/1.1\r\n\r\n", &c);
    assert!(req.is_static);
    let r = static_response(&req.fs_path, Some(b"hi".to_vec()));
    assert_eq!(
        r,
        b"HTTP/1.1 200 OK\r\nTransfer-Encoding: chunked\r\nContent-Type: text/javascript\r\n\r\n2\r\nhi\r\n0\r\n\r\n"
            .to_vec()
    );
    let (head, body) = split_head(&r);
    assert!(head.contains("Content-Type: text/javascript\r\n"));
    assert_eq!(dechunk(&body), b"hi".to_vec());
}

#[test]
fn large_static_file_round_trips_through_chunks() {
    let data: Vec<u8> = (0..70000u32).map(|i| (i % 251) as u8).collect();
    let r = static_response("/srv/static/blob", Some(data.clone()));
    let (head, body) = split_head(&r);
    assert_eq!(head, "HTTP/1.1 200 OK\r\nTransfer-Encoding: chunked\r\n\r\n");
    assert!(body.starts_with(b"8000\r\n"));
    assert_eq!(dechunk(&body), data);
}

#[test]
fn empty_static_file() {
    let r = static_response("/srv/static/e.txt", Some(Vec::new()));
    assert_eq!(
        r,
        b"HTTP/1.1 200 OK\r\nTransfer-Encoding: chunked\r\nContent-Type: text/plain\r\n\r\n0\r\n\r\n".to_vec()
    );
}

#[test]
fn app_response_framing() {
    let r = frame_app_response(404, b"abc", false);
    assert_eq!(
        r,
        b"HTTP/1.1 404 OK\r\nContent-Type: text/html\r\nContent-Length: 3\r\n\r\nabc".to_vec()
    );
    let g = frame_app_response(200, b"", true);
    assert_eq!(
        g,
        b"HTTP/1.1 200 OK\r\nContent-Type: text/html\r\nContent-Length: 0\r\nContent-Encoding: gzip\r\n\r\n"
            .to_vec()
    );
}

#[test]
fn plain_application_response() {
    let c = build_config(
        "h".to_string(),
        "1".to_string(),
        1,
        0,
        "/s".to_string(),
        "/static/".to_string(),
        0,
        0,
        vec![],
    );
    let req = parse_request("GET /hello HTTP/1.1\r\n", &c);
    let resp = HttpResponse { code: 200, content: "<p>hello</p>".to_string() };
    let r = http_response_to_str(&req, &resp);
    assert_eq!(
        r,
        b"HTTP/1.1 200 OK\r\nContent-Type: text/html\r\nContent-Length: 12\r\n\r\n<p>hello</p>".to_vec()
    );
}

#[test]
fn gzip_application_response_round_trips() {
    let c = build_config(
        "h".to_string(),
        "1".to_string(),
        1,
        0,
        "/s".to_string(),
        "/static/".to_string(),
        0,
        0,
        vec![],
    );
    let req = parse_request("GET /hello HTTP/1.1\r\nAccept-Encoding: gzip, deflate\r\n", &c);
    let content = "<p>hello hello hello hello</p>".repeat(20);
    let resp = HttpResponse { code: 200, content: content.clone() };
    let r = http_response_to_str(&req, &resp);
    let (head, body) = split_head(&r);
    assert!(head.contains("Content-Encoding: gzip\r\n"));
    assert!(head.contains(&format!("Content-Length: {}\r\n", body.len())));
    assert_ne!(body, content.as_bytes().to_vec());
    let mut out = Vec::new();
    libflate::gzip::Decoder::new(&body[..]).unwrap().read_to_end(&mut out).unwrap();
    assert_eq!(out, content.as_bytes().to_vec());
}

#[test]
fn default_app_echoes_request() {
    let c = build_config(
        "h".to_string(),
        "1".to_string(),
        1,
        0,
        "/s".to_string(),
        "/static/".to_string(),
        0,
        0,
        vec![],
    );
    let req = parse_request("GET /x HTTP/1.0\r\n", &c);
    let resp = default_app(&req);
    assert_eq!(resp.code, 200);
    assert_eq!(
        resp.content,
        "<h1>Rase - rust (web) app server</h1><h3>Request:</h3>version: HTTP/1.0<br>method: GET<br>url_path: /x<br>"
    );
}
