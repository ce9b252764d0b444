//! The bytes sent back on a connection: static files in chunked framing, and
//! application responses with a length and optional gzip.
use vstd::prelude::*;
use vstd::string::StringSliceAdditionalSpecFns;
use vstd::utf8::encode_utf8;

use crate::http::{HttpResponse, Request, RESPONSE_404};
use crate::mime::{get_mimetype, mime_for_path};
use crate::text::{decimal, digit_char, has_prefix, occurs_at, push_decimal, push_str};

verus! {

/// The size of the chunks that a static file is sent in; the chunked encoder
/// takes sizes up to `0xffff`.
pub const STATIC_CHUNK_SIZE: usize = 32768;

/// The lower-case hex digit of `d`, as a byte.
pub open spec fn hex_digit(d: nat) -> u8 {
    if d < 10 {
        (48 + d) as u8
    } else {
        (87 + d) as u8
    }
}

/// The lower-case hex digits of `n`, without leading zeros.
pub open spec fn hex(n: nat) -> Seq<u8>
    decreases n,
{
    if n < 16 {
        seq![hex_digit(n)]
    } else {
        hex(n / 16).push(hex_digit(n % 16))
    }
}

/// Carriage return and line feed.
pub open spec fn crlf() -> Seq<u8> {
    seq![13u8, 10u8]
}

/// The last chunk, of size zero, that ends a chunked body.
pub open spec fn last_chunk() -> Seq<u8> {
    seq![48u8] + crlf() + crlf()
}

/// One chunk: its size in hex, a line end, the bytes, a line end.
pub open spec fn frame(c: Seq<u8>) -> Seq<u8> {
    hex(c.len()) + crlf() + c + crlf()
}

/// `data` in chunked transfer coding, cut into chunks of `size` bytes (the last
/// one shorter), then the zero-size chunk.
pub open spec fn chunked(data: Seq<u8>, size: nat) -> Seq<u8>
    decreases data.len(),
{
    if size == 0 || data.len() == 0 {
        last_chunk()
    } else if data.len() <= size {
        frame(data) + last_chunk()
    } else {
        frame(data.take(size as int)) + chunked(data.skip(size as int), size)
    }
}

/// `data` cut into the chunks that `chunked` sends, each of `size` bytes but
/// the last.
pub open spec fn chunks_of(data: Seq<u8>, size: nat) -> Seq<Seq<u8>>
    decreases data.len(),
{
    if size == 0 || data.len() == 0 {
        Seq::empty()
    } else if data.len() <= size {
        seq![data]
    } else {
        seq![data.take(size as int)] + chunks_of(data.skip(size as int), size)
    }
}

/// The chunks `cs`, each framed, one after another.
pub open spec fn frames(cs: Seq<Seq<u8>>) -> Seq<u8>
    decreases cs.len(),
{
    if cs.len() == 0 {
        Seq::empty()
    } else {
        frame(cs[0]) + frames(cs.drop_first())
    }
}

/// The bytes of the chunks `cs`, one after another.
pub open spec fn flatten(cs: Seq<Seq<u8>>) -> Seq<u8>
    decreases cs.len(),
{
    if cs.len() == 0 {
        Seq::empty()
    } else {
        cs[0] + flatten(cs.drop_first())
    }
}

/// A chunked body is a run of framed chunks and the zero-size chunk; every
/// chunk holds between one and `size` bytes, and the chunks' bytes, with the
/// framing taken away, are exactly `data`.
pub proof fn lemma_chunked_unframes(data: Seq<u8>, size: nat)
    requires
        size > 0,
    ensures
        chunked(data, size) == frames(chunks_of(data, size)) + last_chunk(),
        flatten(chunks_of(data, size)) == data,
        forall|k: int|
            0 <= k < chunks_of(data, size).len() ==> 0 < (#[trigger] chunks_of(data, size)[k]).len()
                <= size,
    decreases data.len(),
{
    let cs = chunks_of(data, size);
    if data.len() == 0 {
        assert(frames(cs) =~= Seq::<u8>::empty());
        assert(flatten(cs) =~= data);
    } else if data.len() <= size {
        assert(cs.drop_first() =~= Seq::<Seq<u8>>::empty());
        assert(cs[0] == data);
        assert(frames(cs.drop_first()) == Seq::<u8>::empty());
        assert(flatten(cs.drop_first()) == Seq::<u8>::empty());
        assert(frames(cs) =~= frame(data));
        assert(flatten(cs) =~= data);
    } else {
        let rest = data.skip(size as int);
        lemma_chunked_unframes(rest, size);
        assert(cs.drop_first() =~= chunks_of(rest, size));
        assert(cs[0] == data.take(size as int));
        assert(frame(data.take(size as int)) + (frames(chunks_of(rest, size)) + last_chunk())
            =~= frames(cs) + last_chunk());
        assert(data.take(size as int) + rest =~= data);
        assert forall|k: int| 0 <= k < cs.len() implies 0 < (#[trigger] cs[k]).len() <= size by {
            if k > 0 {
                assert(cs[k] == chunks_of(rest, size)[k - 1]);
            }
        }
    }
}

/// A static file that could be read is answered with `200 OK` and a chunked
/// body whose chunks, unframed, give back the file byte for byte.
pub proof fn lemma_static_body_is_file(fs_path: Seq<char>, file: Seq<u8>)
    ensures
        static_response_of(fs_path, Some(file)) == encode_utf8(static_head(mime_for_path(fs_path)))
            + frames(chunks_of(file, STATIC_CHUNK_SIZE as nat)) + last_chunk(),
        flatten(chunks_of(file, STATIC_CHUNK_SIZE as nat)) == file,
        has_prefix(static_head(mime_for_path(fs_path)), "HTTP/1.1 200 OK\r\n"@),
{
    lemma_chunked_unframes(file, STATIC_CHUNK_SIZE as nat);
    let h = static_head(mime_for_path(fs_path));
    let l = "HTTP/1.1 200 OK\r\n"@;
    reveal_strlit("HTTP/1.1 200 OK\r\nTransfer-Encoding: chunked\r\n");
    reveal_strlit("HTTP/1.1 200 OK\r\n");
    assert(l.len() <= h.len());
    assert(h.subrange(0, l.len() as int) =~= l);
    assert(encode_utf8(h) + frames(chunks_of(file, STATIC_CHUNK_SIZE as nat)) + last_chunk()
        =~= encode_utf8(h) + (frames(chunks_of(file, STATIC_CHUNK_SIZE as nat)) + last_chunk()));
}

/// Relies on `chunked_transfer::Encoder::with_chunks_size`, its `write_all` and
/// its drop: the data is sent in chunks of `size` bytes, each headed by its size
/// in lower-case hex, and closed by the zero-size chunk. Sizes above `0xffff`
/// overflow the encoder's header space and panic; a size of zero never ends.
#[verifier::external_body]
fn chunked_encode(data: &[u8], size: usize) -> (r: Vec<u8>)
    requires
        0 < size <= 0xffff,
    ensures
        r@ == chunked(data@, size as nat),
{
    let mut out: Vec<u8> = Vec::new();
    {
        let mut enc = chunked_transfer::Encoder::with_chunks_size(&mut out, size);
        let _ = std::io::Write::write_all(&mut enc, data);
    }
    out
}

/// Relies on `libflate::gzip::Decoder` (`new`, then `read_to_end`): the bytes
/// that the gzip stream `b` decodes to, or `None` where it is not one.
pub uninterp spec fn gunzip_of(b: Seq<u8>) -> Option<Seq<u8>>;

/// Relies on `libflate::gzip::Encoder` (`new`, `write_all`, `finish`): a gzip
/// stream that libflate's decoder turns back into `data`. Writing into a `Vec`
/// cannot fail, so there is always a result. The header holds the time of the
/// call, so the bytes themselves are not named.
#[verifier::external_body]
fn gzip_compress(data: &[u8]) -> (r: Option<Vec<u8>>)
    ensures
        r is Some,
        r matches Some(z) ==> gunzip_of(z@) == Some(data@),
{
    let mut enc = match libflate::gzip::Encoder::new(Vec::new()) {
        Ok(e) => e,
        Err(_) => return None,
    };
    if std::io::Write::write_all(&mut enc, data).is_err() {
        return None;
    }
    enc.finish().into_result().ok()
}

/// The header block of a static file of content type `mime`, if known.
pub open spec fn static_head(mime: Option<Seq<char>>) -> Seq<char> {
    "HTTP/1.1 200 OK\r\nTransfer-Encoding: chunked\r\n"@ + match mime {
        Some(m) => "Content-Type: "@ + m + "\r\n"@,
        None => Seq::<char>::empty(),
    } + "\r\n"@
}

/// What a static request for `fs_path` is answered with: the fixed 404 document
/// where the file could not be read, else `200 OK`, the content type that the
/// extension calls for, and the file in chunks.
pub open spec fn static_response_of(fs_path: Seq<char>, file: Option<Seq<u8>>) -> Seq<u8> {
    match file {
        None => encode_utf8(RESPONSE_404@),
        Some(b) => encode_utf8(static_head(mime_for_path(fs_path))) + chunked(
            b,
            STATIC_CHUNK_SIZE as nat,
        ),
    }
}

/// The bytes of a file that could be read.
pub open spec fn file_view(file: Option<Vec<u8>>) -> Option<Seq<u8>> {
    match file {
        Some(b) => Some(b@),
        None => None,
    }
}

/// `b` appended to `out`.
fn append_bytes(out: &mut Vec<u8>, b: &[u8])
    ensures
        final(out)@ == old(out)@ + b@,
{
    out.extend_from_slice(b);
}

/// The reply to a static request for the file `fs_path`, whose bytes are `file`,
/// or `None` where it could not be opened or read.
pub fn static_response(fs_path: &str, file: Option<Vec<u8>>) -> (r: Vec<u8>)
    ensures
        r@ == static_response_of(fs_path@, file_view(file)),
{
    let mut out: Vec<u8> = Vec::new();
    match file {
        None => {
            append_bytes(&mut out, RESPONSE_404.as_bytes());
            assert(out@ =~= encode_utf8(RESPONSE_404@));
            out
        },
        Some(b) => {
            let mut head = String::new();
            push_str(&mut head, "HTTP/1.1 200 OK\r\nTransfer-Encoding: chunked\r\n");
            let m = get_mimetype(fs_path);
            match m {
                Some(t) => {
                    push_str(&mut head, "Content-Type: ");
                    push_str(&mut head, t);
                    push_str(&mut head, "\r\n");
                },
                None => {},
            }
            push_str(&mut head, "\r\n");
            proof {
                let mime = mime_for_path(fs_path@);
                match m {
                    Some(t) => {
                        assert(mime == Some(t@));
                    },
                    None => {
                        assert(mime is None);
                    },
                }
                assert(head@ =~= static_head(mime));
            }
            append_bytes(&mut out, head.as_str().as_bytes());
            let body = chunked_encode(b.as_slice(), STATIC_CHUNK_SIZE);
            append_bytes(&mut out, body.as_slice());
            assert(out@ =~= static_response_of(fs_path@, Some(b@)));
            out
        },
    }
}


/// The header block of an application response with status `code` and a body
/// of `len` bytes, gzip-coded where `gzip` holds.
pub open spec fn app_head(code: nat, len: nat, gzip: bool) -> Seq<char> {
    "HTTP/1.1 "@ + decimal(code) + " OK\r\nContent-Type: text/html\r\n"@ + "Content-Length: "@
        + decimal(len) + "\r\n"@ + (if gzip {
        "Content-Encoding: gzip\r\n"@
    } else {
        Seq::<char>::empty()
    }) + "\r\n"@
}

/// The gzip header block is the plain one with the line
/// `Content-Encoding: gzip` added before the blank line that ends it; the plain
/// one has no line that the other lacks.
pub proof fn lemma_gzip_header_line(code: nat, len: nat)
    ensures
        ({
            let plain = app_head(code, len, false);
            let base = plain.subrange(0, plain.len() - 2);
            &&& plain == base + "\r\n"@
            &&& app_head(code, len, true) == base + "Content-Encoding: gzip\r\n"@ + "\r\n"@
        }),
{
    reveal_strlit("\r\n");
    let plain = app_head(code, len, false);
    let base = "HTTP/1.1 "@ + decimal(code) + " OK\r\nContent-Type: text/html\r\n"@ + "Content-Length: "@
        + decimal(len) + "\r\n"@;
    assert(plain =~= base + "\r\n"@);
    assert(plain.subrange(0, plain.len() - 2) =~= base);
    assert(app_head(code, len, true) =~= base + "Content-Encoding: gzip\r\n"@ + "\r\n"@);
}

/// `w` occurs somewhere in `h`.
pub open spec fn contains_seq(h: Seq<char>, w: Seq<char>) -> bool {
    exists|i: int| occurs_at(h, w, i)
}

/// No upper-case `E` stands in `s`.
pub open spec fn no_upper_e(s: Seq<char>) -> bool {
    forall|k: int| 0 <= k < s.len() ==> s[k] != 'E'
}

proof fn lemma_no_upper_e_concat(a: Seq<char>, b: Seq<char>)
    requires
        no_upper_e(a),
        no_upper_e(b),
    ensures
        no_upper_e(a + b),
{
    assert forall|k: int| 0 <= k < (a + b).len() implies (a + b)[k] != 'E' by {
        if k >= a.len() {
            assert((a + b)[k] == b[k - a.len()]);
        }
    }
}

proof fn lemma_decimal_no_upper_e(n: nat)
    ensures
        no_upper_e(decimal(n)),
    decreases n,
{
    if n >= 10 {
        lemma_decimal_no_upper_e(n / 10);
        assert(digit_char(n % 10) != 'E');
        lemma_no_upper_e_concat(decimal(n / 10), seq![digit_char(n % 10)]);
        assert(decimal(n) =~= decimal(n / 10) + seq![digit_char(n % 10)]);
    } else {
        assert(digit_char(n) != 'E');
        assert(decimal(n) =~= seq![digit_char(n)]);
    }
}

/// The header block of an application response holds the line
/// `Content-Encoding: gzip` exactly when the body is gzip-coded.
pub proof fn lemma_gzip_header_iff(code: nat, len: nat)
    ensures
        contains_seq(app_head(code, len, true), "Content-Encoding: gzip\r\n"@),
        !contains_seq(app_head(code, len, false), "Content-Encoding: gzip\r\n"@),
{
    let w = "Content-Encoding: gzip\r\n"@;
    reveal_strlit("Content-Encoding: gzip\r\n");
    reveal_strlit("HTTP/1.1 ");
    reveal_strlit(" OK\r\nContent-Type: text/html\r\n");
    reveal_strlit("Content-Length: ");
    reveal_strlit("\r\n");
    lemma_gzip_header_line(code, len);
    let plain = app_head(code, len, false);
    let base = plain.subrange(0, plain.len() - 2);
    let gz = app_head(code, len, true);
    assert(gz.subrange(base.len() as int, (base.len() + w.len()) as int) =~= w);
    assert(occurs_at(gz, w, base.len() as int));
    lemma_decimal_no_upper_e(code);
    lemma_decimal_no_upper_e(len);
    let a = "HTTP/1.1 "@;
    let b = " OK\r\nContent-Type: text/html\r\n"@;
    let c = "Content-Length: "@;
    let d = "\r\n"@;
    assert(no_upper_e(a));
    assert(no_upper_e(b));
    assert(no_upper_e(c));
    assert(no_upper_e(d));
    lemma_no_upper_e_concat(a, decimal(code));
    lemma_no_upper_e_concat(a + decimal(code), b);
    lemma_no_upper_e_concat(a + decimal(code) + b, c);
    lemma_no_upper_e_concat(a + decimal(code) + b + c, decimal(len));
    lemma_no_upper_e_concat(a + decimal(code) + b + c + decimal(len), d);
    lemma_no_upper_e_concat(a + decimal(code) + b + c + decimal(len) + d, d);
    assert(plain =~= a + decimal(code) + b + c + decimal(len) + d + d);
    assert(w[8] == 'E');
    if contains_seq(plain, w) {
        let i = choose|i: int| occurs_at(plain, w, i);
        assert(plain.subrange(i, i + w.len())[8] == plain[i + 8]);
        assert(false);
    }
}

/// An application response: its header block, then `body` as sent.
pub open spec fn app_response_of(code: nat, body: Seq<u8>, gzip: bool) -> Seq<u8> {
    encode_utf8(app_head(code, body.len(), gzip)) + body
}

/// Frames the body `body`, already coded as it is to be sent, as a response
/// with status `code`; `gzip` says whether it is gzip-coded.
pub fn frame_app_response(code: u16, body: &[u8], gzip: bool) -> (r: Vec<u8>)
    ensures
        r@ == app_response_of(code as nat, body@, gzip),
{
    let mut head = String::new();
    push_str(&mut head, "HTTP/1.1 ");
    push_decimal(&mut head, code as usize);
    push_str(&mut head, " OK\r\nContent-Type: text/html\r\n");
    push_str(&mut head, "Content-Length: ");
    push_decimal(&mut head, body.len());
    push_str(&mut head, "\r\n");
    if gzip {
        push_str(&mut head, "Content-Encoding: gzip\r\n");
    }
    push_str(&mut head, "\r\n");
    assert(head@ =~= app_head(code as nat, body@.len(), gzip));
    let mut out: Vec<u8> = Vec::new();
    append_bytes(&mut out, head.as_str().as_bytes());
    append_bytes(&mut out, body);
    assert(out@ =~= app_response_of(code as nat, body@, gzip));
    out
}

/// Serialises the handler's response `r` to `request`. Where the client accepts
/// gzip, the content is gzip-coded and marked so; else it is sent as it is.
pub fn http_response_to_str(request: &Request, r: &HttpResponse) -> (out: Vec<u8>)
    ensures
        !request.is_gzip_allowed ==> out@ == app_response_of(
            r.code as nat,
            encode_utf8(r.content@),
            false,
        ),
        request.is_gzip_allowed ==> exists|b: Seq<u8>|
            out@ == app_response_of(r.code as nat, b, true) && gunzip_of(b) == Some(
                encode_utf8(r.content@),
            ),
{
    let raw = r.content.as_str().as_bytes();
    if request.is_gzip_allowed {
        match gzip_compress(raw) {
            Some(z) => frame_app_response(r.code, z.as_slice(), true),
            None => Vec::new(),
        }
    } else {
        frame_app_response(r.code, raw, false)
    }
}

} // verus!
