use vstd::prelude::*;
use crate::tags::GetTagsError;
use crate::update::{pair_views, tags_headers, tags_request_headers, tags_url};

verus! {

#[verifier::external_type_specification]
#[verifier::external_body]
#[verifier::reject_recursive_types(T)]
pub struct ExHttpRequest<T>(hyper::Request<T>);

#[verifier::external_type_specification]
#[verifier::external_body]
pub struct ExHyperBody(hyper::Body);

/// Whether `hyper::Request::builder` accepts an address and headers (in
/// order) and builds a request with an empty body from them.
pub uninterp spec fn request_accepted(uri: Seq<char>, headers: Seq<(Seq<char>, Seq<char>)>) -> bool;

/// The text of the error (its `Display`) that the builder gives where it
/// does not accept the address and headers.
pub uninterp spec fn request_error_text(
    uri: Seq<char>,
    headers: Seq<(Seq<char>, Seq<char>)>,
) -> Seq<char>;

/// `hyper::Request::builder` with `uri`, one `header` call per pair in
/// order, and `body` with an empty `hyper::Body`: the request where the
/// builder accepts them (`request_accepted`), else the error's text
/// (`request_error_text`).
#[verifier::external_body]
fn build_request(uri: &str, headers: &Vec<(String, String)>) -> (r: Result<
    hyper::Request<hyper::Body>,
    String,
>)
    ensures
        r is Ok <==> request_accepted(uri@, pair_views(headers@)),
        r matches Err(m) ==> m@ == request_error_text(uri@, pair_views(headers@)),
{
    let mut builder = hyper::Request::builder().uri(uri);
    for (name, value) in headers.iter() {
        builder = builder.header(name.as_str(), value.as_str());
    }
    match builder.body(hyper::Body::empty()) {
        Ok(req) => Ok(req),
        Err(e) => Err(e.to_string()),
    }
}

/// The address of the tags of a project on the GitHub API.
pub open spec fn tags_address(project: Seq<char>) -> Seq<char> {
    "https://api.github.com/repos/"@ + project + "/tags"@
}

/// The request for the tags of a project: its address, and the headers
/// with the token; an error where the builder does not accept them.
pub fn tags_request(project: &str, token: &str) -> (r: Result<
    hyper::Request<hyper::Body>,
    GetTagsError,
>)
    ensures
        r is Ok <==> request_accepted(tags_address(project@), tags_headers(token@)),
        r matches Err(e) ==> (e matches GetTagsError::HyperHttpError(m) && m@ == request_error_text(
            tags_address(project@),
            tags_headers(token@),
        )),
{
    let uri = tags_url(project);
    let headers = tags_request_headers(token);
    match build_request(uri.as_str(), &headers) {
        Ok(req) => Ok(req),
        Err(m) => Err(GetTagsError::HyperHttpError(m)),
    }
}

} // verus!
