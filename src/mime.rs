//! Content types by file extension.
use vstd::prelude::*;

use crate::text::{chars_of, same_as_str};

verus! {

/// The position of the last `c` in `s` before `i`, or -1 where there is none.
pub open spec fn last_pos(s: Seq<char>, c: char, i: int) -> int
    decreases i,
{
    if i <= 0 {
        -1
    } else if s[i - 1] == c {
        i - 1
    } else {
        last_pos(s, c, i - 1)
    }
}

/// The last segment of the path `p`, after its final `/`.
pub open spec fn file_name(p: Seq<char>) -> Seq<char> {
    p.subrange(last_pos(p, '/', p.len() as int) + 1, p.len() as int)
}

/// The extension of the path `p`: what follows the last `.` of its file name.
/// A name without a dot, a name whose only dot leads it, and `..` have none.
pub open spec fn extension(p: Seq<char>) -> Option<Seq<char>> {
    let f = file_name(p);
    let d = last_pos(f, '.', f.len() as int);
    if d <= 0 || f == seq!['.', '.'] {
        None
    } else {
        Some(f.subrange(d + 1, f.len() as int))
    }
}

/// `c` with an ASCII upper-case letter turned to lower case.
pub open spec fn lower_char(c: char) -> char {
    if 'A' <= c && c <= 'Z' {
        ((c as u8) + 32) as u8 as char
    } else {
        c
    }
}

/// `s` with its ASCII letters in lower case.
pub open spec fn ascii_lower(s: Seq<char>) -> Seq<char> {
    Seq::new(s.len(), |i: int| lower_char(s[i]))
}

/// The content type of a lower-case extension, where the table knows it.
pub open spec fn mime_of(ext: Seq<char>) -> Option<Seq<char>> {
    if ext == "7z"@ {
        Some("application/x-7z-compressed"@)
    } else if ext == "bin"@ {
        Some("application/octet-stream"@)
    } else if ext == "bz"@ {
        Some("application/x-bzip"@)
    } else if ext == "bz2"@ {
        Some("application/x-bzip2"@)
    } else if ext == "doc"@ {
        Some("application/msword"@)
    } else if ext == "docx"@ {
        Some("application/vnd.openxmlformats-officedocument.wordprocessingml.document"@)
    } else if ext == "eot"@ {
        Some("application/vnd.ms-fontobject"@)
    } else if ext == "gz"@ {
        Some("application/gzip"@)
    } else if ext == "gzip"@ {
        Some("application/gzip"@)
    } else if ext == "json"@ {
        Some("application/json"@)
    } else if ext == "odp"@ {
        Some("application/vnd.oasis.opendocument.presentation"@)
    } else if ext == "ods"@ {
        Some("application/vnd.oasis.opendocument.spreadsheet"@)
    } else if ext == "odt"@ {
        Some("application/vnd.oasis.opendocument.text"@)
    } else if ext == "pdf"@ {
        Some("application/pdf"@)
    } else if ext == "ppt"@ {
        Some("application/vnd.ms-powerpoint"@)
    } else if ext == "rar"@ {
        Some("application/x-rar-compressed"@)
    } else if ext == "sh"@ {
        Some("application/x-sh"@)
    } else if ext == "sql"@ {
        Some("application/sql"@)
    } else if ext == "tar"@ {
        Some("application/x-tar"@)
    } else if ext == "xls"@ {
        Some("application/vnd.ms-excel"@)
    } else if ext == "zip"@ {
        Some("application/zip"@)
    } else if ext == "aac"@ {
        Some("audio/aac"@)
    } else if ext == "oga"@ {
        Some("audio/ogg"@)
    } else if ext == "ogg"@ {
        Some("audio/ogg"@)
    } else if ext == "opus"@ {
        Some("audio/opus"@)
    } else if ext == "mp3"@ {
        Some("audio/mpeg"@)
    } else if ext == "gif"@ {
        Some("image/gif"@)
    } else if ext == "ico"@ {
        Some("image/vnd.microsoft.icon"@)
    } else if ext == "jpg"@ {
        Some("image/jpeg"@)
    } else if ext == "jpeg"@ {
        Some("image/jpeg"@)
    } else if ext == "png"@ {
        Some("image/png"@)
    } else if ext == "svg"@ {
        Some("image/svg+xml"@)
    } else if ext == "webp"@ {
        Some("image/webp"@)
    } else if ext == "otf"@ {
        Some("font/otf"@)
    } else if ext == "ttf"@ {
        Some("font/ttf"@)
    } else if ext == "woff"@ {
        Some("font/woff"@)
    } else if ext == "woff2"@ {
        Some("font/woff2"@)
    } else if ext == "css"@ {
        Some("text/css"@)
    } else if ext == "csv"@ {
        Some("text/csv"@)
    } else if ext == "htm"@ {
        Some("text/html"@)
    } else if ext == "html"@ {
        Some("text/html"@)
    } else if ext == "js"@ {
        Some("text/javascript"@)
    } else if ext == "mjs"@ {
        Some("text/javascript"@)
    } else if ext == "rtf"@ {
        Some("text/rtf"@)
    } else if ext == "txt"@ {
        Some("text/plain"@)
    } else if ext == "xml"@ {
        Some("text/xml"@)
    } else if ext == "3gp"@ {
        Some("video/3gpp"@)
    } else if ext == "3gpp"@ {
        Some("video/3gpp"@)
    } else if ext == "avi"@ {
        Some("video/x-msvideo"@)
    } else if ext == "mp4"@ {
        Some("video/mp4"@)
    } else if ext == "mpeg"@ {
        Some("video/mpeg"@)
    } else if ext == "mpg"@ {
        Some("video/mpeg"@)
    } else if ext == "ogv"@ {
        Some("video/ogg"@)
    } else if ext == "vp8"@ {
        Some("video/VP8"@)
    } else if ext == "webm"@ {
        Some("video/webm"@)
    } else {
        None
    }
}

/// The content type of the file at path `p`: its extension, in lower case,
/// looked up in the table.
pub open spec fn mime_for_path(p: Seq<char>) -> Option<Seq<char>> {
    match extension(p) {
        Some(e) => mime_of(ascii_lower(e)),
        None => None,
    }
}

/// The content type of the lower-case extension `ext`.
fn lookup(ext: &[char]) -> (r: Option<&'static str>)
    ensures
        match r {
            Some(m) => mime_of(ext@) == Some(m@),
            None => mime_of(ext@) is None,
        },
{
    if same_as_str(ext, "7z") {
        Some("application/x-7z-compressed")
    } else if same_as_str(ext, "bin") {
        Some("application/octet-stream")
    } else if same_as_str(ext, "bz") {
        Some("application/x-bzip")
    } else if same_as_str(ext, "bz2") {
        Some("application/x-bzip2")
    } else if same_as_str(ext, "doc") {
        Some("application/msword")
    } else if same_as_str(ext, "docx") {
        Some("application/vnd.openxmlformats-officedocument.wordprocessingml.document")
    } else if same_as_str(ext, "eot") {
        Some("application/vnd.ms-fontobject")
    } else if same_as_str(ext, "gz") {
        Some("application/gzip")
    } else if same_as_str(ext, "gzip") {
        Some("application/gzip")
    } else if same_as_str(ext, "json") {
        Some("application/json")
    } else if same_as_str(ext, "odp") {
        Some("application/vnd.oasis.opendocument.presentation")
    } else if same_as_str(ext, "ods") {
        Some("application/vnd.oasis.opendocument.spreadsheet")
    } else if same_as_str(ext, "odt") {
        Some("application/vnd.oasis.opendocument.text")
    } else if same_as_str(ext, "pdf") {
        Some("application/pdf")
    } else if same_as_str(ext, "ppt") {
        Some("application/vnd.ms-powerpoint")
    } else if same_as_str(ext, "rar") {
        Some("application/x-rar-compressed")
    } else if same_as_str(ext, "sh") {
        Some("application/x-sh")
    } else if same_as_str(ext, "sql") {
        Some("application/sql")
    } else if same_as_str(ext, "tar") {
        Some("application/x-tar")
    } else if same_as_str(ext, "xls") {
        Some("application/vnd.ms-excel")
    } else if same_as_str(ext, "zip") {
        Some("application/zip")
    } else if same_as_str(ext, "aac") {
        Some("audio/aac")
    } else if same_as_str(ext, "oga") {
        Some("audio/ogg")
    } else if same_as_str(ext, "ogg") {
        Some("audio/ogg")
    } else if same_as_str(ext, "opus") {
        Some("audio/opus")
    } else if same_as_str(ext, "mp3") {
        Some("audio/mpeg")
    } else if same_as_str(ext, "gif") {
        Some("image/gif")
    } else if same_as_str(ext, "ico") {
        Some("image/vnd.microsoft.icon")
    } else if same_as_str(ext, "jpg") {
        Some("image/jpeg")
    } else if same_as_str(ext, "jpeg") {
        Some("image/jpeg")
    } else if same_as_str(ext, "png") {
        Some("image/png")
    } else if same_as_str(ext, "svg") {
        Some("image/svg+xml")
    } else if same_as_str(ext, "webp") {
        Some("image/webp")
    } else if same_as_str(ext, "otf") {
        Some("font/otf")
    } else if same_as_str(ext, "ttf") {
        Some("font/ttf")
    } else if same_as_str(ext, "woff") {
        Some("font/woff")
    } else if same_as_str(ext, "woff2") {
        Some("font/woff2")
    } else if same_as_str(ext, "css") {
        Some("text/css")
    } else if same_as_str(ext, "csv") {
        Some("text/csv")
    } else if same_as_str(ext, "htm") {
        Some("text/html")
    } else if same_as_str(ext, "html") {
        Some("text/html")
    } else if same_as_str(ext, "js") {
        Some("text/javascript")
    } else if same_as_str(ext, "mjs") {
        Some("text/javascript")
    } else if same_as_str(ext, "rtf") {
        Some("text/rtf")
    } else if same_as_str(ext, "txt") {
        Some("text/plain")
    } else if same_as_str(ext, "xml") {
        Some("text/xml")
    } else if same_as_str(ext, "3gp") {
        Some("video/3gpp")
    } else if same_as_str(ext, "3gpp") {
        Some("video/3gpp")
    } else if same_as_str(ext, "avi") {
        Some("video/x-msvideo")
    } else if same_as_str(ext, "mp4") {
        Some("video/mp4")
    } else if same_as_str(ext, "mpeg") {
        Some("video/mpeg")
    } else if same_as_str(ext, "mpg") {
        Some("video/mpeg")
    } else if same_as_str(ext, "ogv") {
        Some("video/ogg")
    } else if same_as_str(ext, "vp8") {
        Some("video/VP8")
    } else if same_as_str(ext, "webm") {
        Some("video/webm")
    } else {
        None
    }
}

/// The position of the last `c` in `s`, if any.
fn find_last(s: &[char], c: char) -> (r: Option<usize>)
    ensures
        match r {
            Some(j) => j < s.len() && last_pos(s@, c, s@.len() as int) == j,
            None => last_pos(s@, c, s@.len() as int) == -1,
        },
{
    let mut i: usize = s.len();
    while i > 0
        invariant
            i <= s@.len(),
            last_pos(s@, c, s@.len() as int) == last_pos(s@, c, i as int),
        decreases i,
    {
        if s[i - 1] == c {
            return Some(i - 1);
        }
        i = i - 1;
    }
    None
}

/// The content type that the file name `fname` calls for, by its extension in
/// any case; `None` where it has no extension or the table lacks it.
pub fn get_mimetype(fname: &str) -> (r: Option<&'static str>)
    ensures
        match r {
            Some(m) => mime_for_path(fname@) == Some(m@),
            None => mime_for_path(fname@) is None,
        },
{
    let p = chars_of(fname);
    let start: usize = match find_last(p.as_slice(), '/') {
        Some(j) => j + 1,
        None => 0,
    };
    let f = &p.as_slice()[start..p.len()];
    assert(f@ == file_name(fname@));
    let d: usize = match find_last(f, '.') {
        Some(j) => j,
        None => 0,
    };
    if d == 0 || (f.len() == 2 && f[0] == '.' && f[1] == '.') {
        proof {
            if f@.len() == 2 && f@[0] == '.' && f@[1] == '.' {
                assert(f@ =~= seq!['.', '.']);
            }
        }
        return None;
    }
    assert(!(f@ =~= seq!['.', '.']));
    let mut lower: Vec<char> = Vec::new();
    let mut i: usize = d + 1;
    let ghost e = f@.subrange(d + 1, f@.len() as int);
    while i < f.len()
        invariant
            0 < d < f@.len(),
            d + 1 <= i <= f@.len(),
            e == f@.subrange(d + 1, f@.len() as int),
            lower@ == ascii_lower(e).take(i - d - 1),
        decreases f@.len() - i,
    {
        let c = f[i];
        let l = if 'A' <= c && c <= 'Z' {
            ((c as u8) + 32) as char
        } else {
            c
        };
        lower.push(l);
        i = i + 1;
        assert(lower@ =~= ascii_lower(e).take(i - d - 1));
    }
    assert(lower@ =~= ascii_lower(e));
    lookup(lower.as_slice())
}

} // verus!
