//! The application used when none is given: a page that echoes the request.
use vstd::prelude::*;

use crate::http::{HttpResponse, Request};
use crate::text::push_str;

verus! {

/// The page that the default application shows for a request with these fields.
pub open spec fn default_page(version: Seq<char>, method: Seq<char>, url_path: Seq<char>) -> Seq<char> {
    "<h1>Rase - rust (web) app server</h1><h3>Request:</h3>version: "@ + version
        + "<br>method: "@ + method + "<br>url_path: "@ + url_path + "<br>"@
}

/// Answers every request with `200` and a page listing its version, method and
/// path.
pub fn default_app(request: &Request) -> (r: HttpResponse)
    ensures
        r.code == 200,
        r.content@ == default_page(request.version@, request.method@, request.url_path@),
{
    let mut content = String::new();
    push_str(&mut content, "<h1>Rase - rust (web) app server</h1><h3>Request:</h3>version: ");
    push_str(&mut content, request.version.as_str());
    push_str(&mut content, "<br>method: ");
    push_str(&mut content, request.method.as_str());
    push_str(&mut content, "<br>url_path: ");
    push_str(&mut content, request.url_path.as_str());
    push_str(&mut content, "<br>");
    assert(content@ =~= default_page(request.version@, request.method@, request.url_path@));
    HttpResponse { code: 200, content }
}

} // verus!
