//! Request parsing, static-route resolution and the sandbox check.
use vstd::prelude::*;

use crate::config::Config;
use crate::text::{
    chars_of, has_prefix, lemma_split_at_char, lemma_split_end_char, same_as_str, split,
    split_chars, split_from, starts_with, string_of,
};

verus! {

/// The fixed reply to a static request whose file cannot be opened.
pub const RESPONSE_404: &'static str =
    "HTTP/1.1 404 Not Found\r\nContent-Length: 22\r\nContent-Type: text/html\r\n\r\n<h1>404 Not found</h1>";

/// A parsed request.
pub struct Request {
    pub version: String,
    pub method: String,
    pub url_path: String,
    /// The resolved file path; empty unless `url_path` starts with the static prefix.
    pub fs_path: String,
    pub is_gzip_allowed: bool,
    pub is_deflate_allowed: bool,
    /// The request is served from the static directory.
    pub is_static: bool,
}

/// What an application handler returns.
pub struct HttpResponse {
    pub code: u16,
    pub content: String,
}

/// Relies on `path_clean::clean`: the lexical normal form of a path, with `.`
/// and `..` segments resolved and repeated separators collapsed.
pub uninterp spec fn cleaned(p: Seq<char>) -> Seq<char>;

/// Relies on `path_clean::clean` for the lexical normal form of `p`. A path
/// built from a `str` is valid UTF-8, so the lossy conversion loses nothing.
#[verifier::external_body]
fn clean_path(p: &str) -> (r: String)
    ensures
        r@ == cleaned(p@),
{
    path_clean::clean(p).to_string_lossy().into_owned()
}


/// The fields that the request line and headers give.
pub struct Head {
    pub method: Seq<char>,
    pub url_path: Seq<char>,
    pub version: Seq<char>,
    pub gzip: bool,
    pub deflate: bool,
}

/// Nothing parsed yet.
pub open spec fn empty_head() -> Head {
    Head { method: seq![], url_path: seq![], version: seq![], gzip: false, deflate: false }
}

/// `l` without one trailing carriage return.
pub open spec fn strip_cr(l: Seq<char>) -> Seq<char> {
    if l.len() > 0 && l.last() == '\r' {
        l.drop_last()
    } else {
        l
    }
}

/// The number of lines in the pieces `p` of a text cut at each newline: a final
/// empty piece (the text ended with a newline, or was empty) is no line.
pub open spec fn line_count(p: Seq<Seq<char>>) -> int {
    if p.len() > 0 && p.last().len() == 0 {
        p.len() - 1
    } else {
        p.len() as int
    }
}

/// The lines of `s`, as `str::lines` gives them: split at `\n` and at `\r\n`.
pub open spec fn lines(s: Seq<char>) -> Seq<Seq<char>> {
    let p = split(s, "\n"@);
    Seq::new(
        line_count(p) as nat,
        |k: int|
            if k + 1 < p.len() {
                strip_cr(p[k])
            } else {
                p[k]
            },
    )
}

/// The request line: a line that starts with `GET ` or `POST `.
pub open spec fn is_request_line(l: Seq<char>) -> bool {
    has_prefix(l, "GET "@) || has_prefix(l, "POST "@)
}

/// The `Accept-Encoding` header.
pub open spec fn is_encoding_line(l: Seq<char>) -> bool {
    has_prefix(l, "Accept-Encoding: "@)
}

/// What one line changes: the request line sets the method, the path and the
/// version (as far as it has tokens); `Accept-Encoding` turns on the flags of
/// the encodings that it lists; any other line changes nothing.
pub open spec fn apply_line(h: Head, l: Seq<char>) -> Head {
    if is_request_line(l) {
        let t = split(l, " "@);
        Head {
            method: if t.len() > 0 { t[0] } else { h.method },
            url_path: if t.len() > 1 { t[1] } else { h.url_path },
            version: if t.len() > 2 { t[2] } else { h.version },
            ..h
        }
    } else if is_encoding_line(l) {
        let e = split(l.subrange("Accept-Encoding: "@.len() as int, l.len() as int), ", "@);
        Head {
            gzip: h.gzip || e.contains("gzip"@),
            deflate: h.deflate || e.contains("deflate"@),
            ..h
        }
    } else {
        h
    }
}

/// The head after the first `n` lines of `ls`.
pub open spec fn apply_lines(ls: Seq<Seq<char>>, n: int) -> Head
    decreases n,
{
    if n <= 0 {
        empty_head()
    } else {
        apply_line(apply_lines(ls, n - 1), ls[n - 1])
    }
}

/// The head of the request text `s`.
pub open spec fn head_of(s: Seq<char>) -> Head {
    apply_lines(lines(s), lines(s).len() as int)
}

/// Whether some piece equals `w`.
fn any_equals(pieces: &Vec<Vec<char>>, w: &str) -> (r: bool)
    ensures
        r == exists|k: int| 0 <= k < pieces@.len() && (#[trigger] pieces@[k])@ == w@,
{
    let mut i: usize = 0;
    while i < pieces.len()
        invariant
            i <= pieces@.len(),
            forall|k: int| 0 <= k < i ==> (#[trigger] pieces@[k])@ != w@,
        decreases pieces@.len() - i,
    {
        if same_as_str(pieces[i].as_slice(), w) {
            return true;
        }
        i = i + 1;
    }
    false
}

/// The list `e` contains `w` iff one of the pieces equals it.
proof fn lemma_contains_piece(pieces: Seq<Vec<char>>, e: Seq<Seq<char>>, w: Seq<char>)
    requires
        pieces.len() == e.len(),
        forall|k: int| 0 <= k < pieces.len() ==> (#[trigger] pieces[k])@ == e[k],
    ensures
        e.contains(w) == exists|k: int| 0 <= k < pieces.len() && (#[trigger] pieces[k])@ == w,
{
    if e.contains(w) {
        let k = choose|k: int| 0 <= k < e.len() && e[k] == w;
        assert(pieces[k]@ == w);
    }
}

/// One line applied to the fields parsed so far.
fn parse_line(h: &mut ParsedHead, l: &[char])
    ensures
        final(h)@ == apply_line(old(h)@, l@),
{
    let get = chars_of("GET ");
    let post = chars_of("POST ");
    let enc = chars_of("Accept-Encoding: ");
    if starts_with(l, get.as_slice()) || starts_with(l, post.as_slice()) {
        let sp = chars_of(" ");
        proof {
            reveal_strlit(" ");
        }
        let t = split_chars(l, sp.as_slice());
        if t.len() > 0 {
            h.method = string_of(t[0].as_slice());
        }
        if t.len() > 1 {
            h.url_path = string_of(t[1].as_slice());
        }
        if t.len() > 2 {
            h.version = string_of(t[2].as_slice());
        }
    } else if starts_with(l, enc.as_slice()) {
        let sep = chars_of(", ");
        proof {
            reveal_strlit(", ");
        }
        let rest = &l[enc.len()..l.len()];
        let e = split_chars(rest, sep.as_slice());
        let g = any_equals(&e, "gzip");
        let d = any_equals(&e, "deflate");
        proof {
            lemma_contains_piece(e@, split(rest@, ", "@), "gzip"@);
            lemma_contains_piece(e@, split(rest@, ", "@), "deflate"@);
        }
        h.gzip = h.gzip || g;
        h.deflate = h.deflate || d;
    }
}

/// The fields of a request being parsed.
struct ParsedHead {
    method: String,
    url_path: String,
    version: String,
    gzip: bool,
    deflate: bool,
}

impl View for ParsedHead {
    type V = Head;

    closed spec fn view(&self) -> Head {
        Head {
            method: self.method@,
            url_path: self.url_path@,
            version: self.version@,
            gzip: self.gzip,
            deflate: self.deflate,
        }
    }
}


/// `url` without the static prefix `pre`, where it starts with it.
pub open spec fn stripped(url: Seq<char>, pre: Seq<char>) -> Seq<char> {
    if has_prefix(url, pre) {
        url.subrange(pre.len() as int, url.len() as int)
    } else {
        url
    }
}

/// `rest` appended to the directory `dir`, as `Path::join` does on Unix: an
/// absolute `rest` replaces `dir`, and a separator is put between the two where
/// `dir` is not empty and does not already end with one.
pub open spec fn joined(dir: Seq<char>, rest: Seq<char>) -> Seq<char> {
    if rest.len() > 0 && rest[0] == '/' {
        rest
    } else if dir.len() == 0 {
        rest
    } else if dir.last() == '/' {
        dir + rest
    } else {
        dir + seq!['/'] + rest
    }
}

/// The file that a static URL path names: the path past the static prefix,
/// joined onto the static directory and lexically normalised.
pub open spec fn fs_path_of(url: Seq<char>, dir: Seq<char>, pre: Seq<char>) -> Seq<char> {
    cleaned(joined(dir, stripped(url, pre)))
}

/// The sandbox check: `fs_path` lies lexically under the static directory.
pub open spec fn path_safe(fs_path: Seq<char>, dir: Seq<char>) -> bool {
    has_prefix(fs_path, dir)
}

/// The request that the text `s` gives under the static directory `dir` and the
/// static prefix `pre`.
pub open spec fn request_matches(r: &Request, s: Seq<char>, dir: Seq<char>, pre: Seq<char>) -> bool {
    let h = head_of(s);
    &&& r.method@ == h.method
    &&& r.url_path@ == h.url_path
    &&& r.version@ == h.version
    &&& r.is_gzip_allowed == h.gzip
    &&& r.is_deflate_allowed == h.deflate
    &&& r.fs_path@ == (if has_prefix(h.url_path, pre) {
        fs_path_of(h.url_path, dir, pre)
    } else {
        seq![]
    })
    &&& r.is_static == (has_prefix(h.url_path, pre) && path_safe(r.fs_path@, dir))
}

/// A parsed request is static only where its resolved path stays under the
/// static directory: a path whose `..` segments, once normalised, lead out of
/// the directory is never static, whatever prefix the raw path had.
pub proof fn lemma_escaping_path_not_static(r: &Request, s: Seq<char>, dir: Seq<char>, pre: Seq<char>)
    requires
        request_matches(r, s, dir, pre),
    ensures
        !path_safe(fs_path_of(head_of(s).url_path, dir, pre), dir) ==> !r.is_static,
        r.is_static ==> has_prefix(r.fs_path@, dir) && r.fs_path@ == fs_path_of(
            head_of(s).url_path,
            dir,
            pre,
        ),
{
}

/// For the request text `GET <p> HTTP/1.1`, then a blank line, the parsed path
/// is `p`; so where `p` starts with the static prefix but its `..` segments lead
/// out of the static directory once normalised, the request is not static.
pub proof fn lemma_traversal_request_not_static(
    r: &Request,
    p: Seq<char>,
    dir: Seq<char>,
    pre: Seq<char>,
)
    requires
        forall|k: int| 0 <= k < p.len() ==> p[k] != ' ' && p[k] != '\n',
        request_matches(r, "GET "@ + p + " HTTP/1.1\r\n\r\n"@, dir, pre),
    ensures
        r.url_path@ == p,
        !path_safe(fs_path_of(p, dir, pre), dir) ==> !r.is_static,
{
    reveal_strlit("GET ");
    reveal_strlit("POST ");
    reveal_strlit(" HTTP/1.1\r\n\r\n");
    reveal_strlit("\n");
    reveal_strlit(" ");
    reveal_strlit("Accept-Encoding: ");
    let g = "GET "@;
    let t = " HTTP/1.1\r\n\r\n"@;
    let s = g + p + t;
    let n = p.len() as int;
    let j1 = 4 + n + 10;
    assert(s.len() == j1 + 3);
    assert forall|k: int| 0 <= k < j1 implies s[k] != '\n' by {
        if k >= 4 && k < 4 + n {
            assert(s[k] == p[k - 4]);
        } else if k >= 4 + n {
            assert(s[k] == t[k - 4 - n]);
        }
    }
    assert(s[j1] == '\n');
    assert(s[j1 + 1] == '\r');
    assert(s[j1 + 2] == '\n');
    lemma_split_at_char(s, '\n', 0, j1);
    lemma_split_at_char(s, '\n', j1 + 1, j1 + 2);
    lemma_split_end_char(s, '\n', j1 + 3);
    assert("\n"@ =~= seq!['\n']);
    assert(" "@ =~= seq![' ']);
    assert(split_from(s, seq!['\n'], j1 + 3, j1 + 3) =~= seq![s.subrange(j1 + 3, j1 + 3)]);
    let pieces = split(s, "\n"@);
    assert(pieces == split_from(s, seq!['\n'], 0, 0));
    assert(pieces =~= seq![
        s.subrange(0, j1),
        s.subrange(j1 + 1, j1 + 2),
        s.subrange(j1 + 3, j1 + 3),
    ]);
    let l = g + p + seq!['H', 'T', 'T', 'P', '/', '1', '.', '1'].insert(0, ' ');
    assert(strip_cr(s.subrange(0, j1)) =~= l);
    assert(strip_cr(s.subrange(j1 + 1, j1 + 2)) =~= Seq::<char>::empty());
    let ls = lines(s);
    assert(ls.len() == 2);
    assert(ls[0] == l);
    assert(ls[1] == Seq::<char>::empty());
    assert(l.subrange(0, 4) =~= g);
    assert(l[3] == ' ');
    assert(l[4 + n] == ' ');
    assert forall|k: int| 0 <= k < 3 implies l[k] != ' ' by {}
    assert forall|k: int| 4 <= k < 4 + n implies l[k] != ' ' by {
        assert(l[k] == p[k - 4]);
    }
    assert forall|k: int| 5 + n <= k < l.len() implies l[k] != ' ' by {}
    lemma_split_at_char(l, ' ', 0, 3);
    lemma_split_at_char(l, ' ', 4, 4 + n);
    lemma_split_end_char(l, ' ', 5 + n);
    let words = split(l, " "@);
    assert(words == split_from(l, seq![' '], 0, 0));
    assert(words =~= seq![l.subrange(0, 3), l.subrange(4, 4 + n), l.subrange(5 + n, l.len() as int)]);
    assert(words.len() == 3);
    assert(words[1] =~= p);
    assert(is_request_line(l));
    assert(!is_request_line(ls[1]));
    assert(!is_encoding_line(ls[1]));
    assert(apply_lines(ls, 0) == empty_head());
    assert(apply_lines(ls, 1) == apply_line(apply_lines(ls, 0), ls[0]));
    assert(apply_lines(ls, 1) == apply_line(empty_head(), l));
    assert(head_of(s) == apply_line(apply_lines(ls, 1), ls[1]));
}

/// A request with every field empty or false.
pub fn get_default_request() -> (r: Request)
    ensures
        r.method@ == Seq::<char>::empty(),
        r.url_path@ == Seq::<char>::empty(),
        r.version@ == Seq::<char>::empty(),
        r.fs_path@ == Seq::<char>::empty(),
        !r.is_gzip_allowed,
        !r.is_deflate_allowed,
        !r.is_static,
{
    Request {
        version: String::new(),
        method: String::new(),
        url_path: String::new(),
        fs_path: String::new(),
        is_gzip_allowed: false,
        is_deflate_allowed: false,
        is_static: false,
    }
}

/// `rest` joined onto `dir`.
fn join_path(dir: &[char], rest: &[char]) -> (r: Vec<char>)
    ensures
        r@ == joined(dir@, rest@),
{
    let mut out: Vec<char> = Vec::new();
    if rest.len() > 0 && rest[0] == '/' {
        out.extend_from_slice(rest);
        return out;
    }
    out.extend_from_slice(dir);
    if dir.len() > 0 && dir[dir.len() - 1] != '/' {
        out.push('/');
    }
    out.extend_from_slice(rest);
    proof {
        if dir@.len() > 0 && dir@.last() != '/' {
            assert(out@ =~= dir@ + seq!['/'] + rest@);
        } else {
            assert(out@ =~= dir@ + rest@);
        }
    }
    out
}

/// The file that the static URL path `requested_path` names under `conf`.
pub fn get_fs_path(requested_path: &str, conf: &Config) -> (r: String)
    ensures
        r@ == fs_path_of(requested_path@, conf.static_dir@, conf.static_url@),
{
    let url = chars_of(requested_path);
    let pre = chars_of(conf.static_url.as_str());
    let dir = chars_of(conf.static_dir.as_str());
    let rest = if starts_with(url.as_slice(), pre.as_slice()) {
        &url.as_slice()[pre.len()..url.len()]
    } else {
        url.as_slice()
    };
    let joined_path = join_path(dir.as_slice(), rest);
    let p = string_of(joined_path.as_slice());
    clean_path(p.as_str())
}

/// Whether `fs_path` lies lexically under the static directory of `conf`.
pub fn is_path_safe(fs_path: &str, conf: &Config) -> (r: bool)
    ensures
        r == path_safe(fs_path@, conf.static_dir@),
{
    let p = chars_of(fs_path);
    let dir = chars_of(conf.static_dir.as_str());
    starts_with(p.as_slice(), dir.as_slice())
}

/// Parses the leading bytes of a connection, read as text: the request line,
/// the `Accept-Encoding` header, and the static route with its sandbox check.
/// Lines that are not understood are ignored; nothing here is an error.
pub fn parse_request(request_str: &str, conf: &Config) -> (r: Request)
    ensures
        request_matches(&r, request_str@, conf.static_dir@, conf.static_url@),
{
    let cs = chars_of(request_str);
    let nl = chars_of("\n");
    proof {
        reveal_strlit("\n");
    }
    let pieces = split_chars(cs.as_slice(), nl.as_slice());
    let ghost p = split(request_str@, "\n"@);
    let n: usize = if pieces.len() > 0 && pieces[pieces.len() - 1].len() == 0 {
        pieces.len() - 1
    } else {
        pieces.len()
    };
    let ghost ls = lines(request_str@);
    assert(n == ls.len());
    let mut h = ParsedHead {
        method: String::new(),
        url_path: String::new(),
        version: String::new(),
        gzip: false,
        deflate: false,
    };
    assert(h@ == apply_lines(ls, 0));
    let mut k: usize = 0;
    while k < n
        invariant
            n == ls.len(),
            n <= pieces@.len(),
            pieces@.len() == p.len(),
            forall|j: int| 0 <= j < pieces@.len() ==> (#[trigger] pieces@[j])@ == p[j],
            ls == lines(request_str@),
            p == split(request_str@, "\n"@),
            k <= n,
            h@ == apply_lines(ls, k as int),
        decreases n - k,
    {
        let piece = pieces[k].as_slice();
        let line = if k + 1 < pieces.len() && piece.len() > 0 && piece[piece.len() - 1] == '\r' {
            &piece[0..piece.len() - 1]
        } else {
            piece
        };
        assert(line@ == ls[k as int]);
        parse_line(&mut h, line);
        k = k + 1;
    }
    let mut request = get_default_request();
    request.method = h.method;
    request.url_path = h.url_path;
    request.version = h.version;
    request.is_gzip_allowed = h.gzip;
    request.is_deflate_allowed = h.deflate;
    let url = chars_of(request.url_path.as_str());
    let pre = chars_of(conf.static_url.as_str());
    if starts_with(url.as_slice(), pre.as_slice()) {
        request.fs_path = get_fs_path(request.url_path.as_str(), conf);
        if is_path_safe(request.fs_path.as_str(), conf) {
            request.is_static = true;
        }
    }
    request
}

} // verus!
