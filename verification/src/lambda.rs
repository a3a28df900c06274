//! The serverless content-archival function's decisions.
//!
//! The event runtime and the object-storage call live in the runtime;
//! this module decides what an event payload asks for and assembles the
//! function's result.

use vstd::prelude::*;
use vstd::string::StringSliceAdditionalSpecFns;
use vstd::string::StrSliceExecFns;

use crate::json::{dec_str, doc_of, lookup_unique, parse_document, Scalar, ScalarV, Value, ValueV};

verus! {

/// The text content that an event payload carries, if any: the string
/// under the one `content` member.
pub open spec fn content_of(s: Seq<char>) -> Option<Seq<char>> {
    match doc_of(s) {
        Some(d) => match lookup_unique(d, "content"@) {
            Some(ValueV::Scalar(ScalarV::Str(t))) => Some(t),
            _ => None,
        },
        None => None,
    }
}

/// An event payload: the optional text to archive.
#[derive(Debug)]
pub struct Request {
    pub content: Option<String>,
}

impl Request {
    /// Reads the optional `content` member of an event payload. A
    /// payload outside the grammar carries no content.
    pub fn new(json_string: &str) -> (r: Request)
        ensures
            match r.content {
                Some(c) => content_of(json_string@) == Some(c@),
                None => content_of(json_string@) is None,
            },
    {
        match parse_document(json_string) {
            Ok(doc) => match doc.get_unique("content") {
                Some(v) => match v {
                    Value::Scalar(Scalar::Str(s)) => Request { content: Some(s.clone()) },
                    _ => Request { content: None },
                },
                None => Request { content: None },
            },
            Err(_) => Request { content: None },
        }
    }
}

/// The function's result: a status word and, on success, the filename.
#[derive(Debug, PartialEq)]
pub struct Response {
    pub status: String,
    pub filename: Option<String>,
}

impl Response {
    pub fn new(status: String, filename: Option<String>) -> (r: Response)
        ensures
            r.status@ == status@,
            r.filename == filename,
    {
        Response { status, filename }
    }
}

/// What the function decided about an event.
#[derive(Debug)]
pub enum LambdaDecision {
    Reject(Response),
    Upload { content: String },
}

/// Decides what an event asks for: an event without text content is
/// rejected with the error result and reaches no dependency; only an
/// `Upload` carries text to archive.
pub fn handler(event_json: &str) -> (r: LambdaDecision)
    ensures
        match r {
            LambdaDecision::Upload { content } => content_of(event_json@) == Some(content@),
            LambdaDecision::Reject(resp) => content_of(event_json@) is None
                && resp.status@ == "error"@ && resp.filename is None,
        },
{
    let req = Request::new(event_json);
    match req.content {
        Some(content) => LambdaDecision::Upload { content },
        None => LambdaDecision::Reject(Response::new("error".to_owned(), None)),
    }
}

/// The object key for text archived at `now_millis`.
pub fn create_filename(now_millis: u64) -> (r: String)
    ensures
        r@ == dec_str(now_millis as nat) + ".txt"@,
{
    let mut s = crate::json::u64_to_string(now_millis);
    s.append(".txt");
    s
}

/// Plans the archival upload: the event's text, UTF-8 encoded, as a
/// plain-text object under `filename` in the function's fixed bucket.
pub fn upload(filename: &str, content: &str) -> (u: crate::s3::UploadRequest)
    ensures
        u.bucket@ == "bucket-test-001-a"@,
        u.key@ == filename@,
        u.content_type@ == "text/plain"@,
        u.body@ == content.spec_bytes(),
{
    crate::s3::UploadRequest {
        bucket: "bucket-test-001-a".to_owned(),
        key: filename.to_owned(),
        content_type: "text/plain".to_owned(),
        body: content.as_bytes_vec(),
    }
}

/// Assembles the function's result from whether the upload succeeded.
pub fn finish(filename: String, uploaded: bool) -> (r: Response)
    ensures
        uploaded ==> r.status@ == "success"@ && (r.filename matches Some(f) && f@ == filename@),
        !uploaded ==> r.status@ == "error"@ && r.filename is None,
{
    if uploaded {
        Response::new("success".to_owned(), Some(filename))
    } else {
        Response::new("error".to_owned(), None)
    }
}

} // verus!
