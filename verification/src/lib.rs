//! A small color-reporting service, verified.
//!
//! The library holds everything the service decides or computes: the JSON
//! wire format it speaks, the synthesis of a solid-color raster image, and
//! the storage commands it issues against its three backends. The runtime
//! around it performs the network calls that those commands describe.

pub mod color;
pub mod config;
pub mod dynamodb;
pub mod image;
pub mod json;
pub mod lambda;
pub mod laws;
pub mod mysql;
pub mod s3;

use vstd::prelude::*;

use crate::color::Color;
use crate::config::top_int;
use crate::json::{
    append_string_lit, dec_str, json_string_lit, parse_document, Doc, JsonError, Scalar, Value,
    ValueV,
};

verus! {

// ------------------------------------------------------------------
// The inbound request
// ------------------------------------------------------------------

/// An inbound request: the three color channels.
#[derive(Debug, PartialEq, Eq, Structural)]
pub struct Request {
    pub r: u8,
    pub g: u8,
    pub b: u8,
}

/// The color that a parsed document submits, when it carries all three
/// channels as integers in range.
pub open spec fn color_fields(d: Seq<(Seq<char>, ValueV)>) -> Option<(u8, u8, u8)> {
    match (top_int(d, "r"@), top_int(d, "g"@), top_int(d, "b"@)) {
        (Some(r), Some(g), Some(b)) => if r <= 255 && g <= 255 && b <= 255 {
            Some((r as u8, g as u8, b as u8))
        } else {
            None
        },
        _ => None,
    }
}

/// The color that a request body submits, if it is well-formed.
pub open spec fn request_of(s: Seq<char>) -> Option<(u8, u8, u8)> {
    match crate::json::doc_of(s) {
        Some(d) => color_fields(d),
        None => None,
    }
}

fn int_member(doc: &Doc, k: &str) -> (r: Option<u64>)
    ensures
        r == top_int(doc@, k@),
{
    match doc.get_unique(k) {
        Some(v) => match v {
            Value::Scalar(Scalar::Int(n)) => Some(*n),
            _ => None,
        },
        None => None,
    }
}

impl Request {
    /// Decodes a request body: a document with integer members `r`, `g`
    /// and `b`, each between 0 and 255.
    pub fn new(json_string: &str) -> (res: Result<Request, JsonError>)
        ensures
            match res {
                Ok(req) => request_of(json_string@) == Some((req.r, req.g, req.b)),
                Err(_) => request_of(json_string@) is None,
            },
    {
        let doc = match parse_document(json_string) {
            Ok(d) => d,
            Err(e) => {
                return Err(e);
            }
        };
        let r = int_member(&doc, "r");
        let g = int_member(&doc, "g");
        let b = int_member(&doc, "b");
        match (r, g, b) {
            (Some(r), Some(g), Some(b)) => {
                if r <= 255 && g <= 255 && b <= 255 {
                    Ok(Request { r: r as u8, g: g as u8, b: b as u8 })
                } else {
                    Err(JsonError)
                }
            }
            _ => Err(JsonError),
        }
    }
}

// ------------------------------------------------------------------
// The outbound response
// ------------------------------------------------------------------

pub open spec fn url_view(u: Option<String>) -> Option<Seq<char>> {
    match u {
        Some(s) => Some(s@),
        None => None,
    }
}

/// The exact pretty-printed response body: the status, then the link or
/// `null`, each on its own indented line.
pub open spec fn response_body(status: Seq<char>, url: Option<Seq<char>>) -> Seq<char> {
    "{\n  \"status\": "@ + json_string_lit(status) + ",\n  \"url\": "@ + (match url {
        Some(u) => json_string_lit(u),
        None => "null"@,
    }) + "\n}"@
}

/// An outbound response: a status word and, on success, the link.
#[derive(Debug)]
pub struct Response {
    pub status: String,
    pub url: Option<String>,
}

impl Response {
    pub fn new(status: String, url: Option<String>) -> (r: Response)
        ensures
            r.status@ == status@,
            r.url == url,
    {
        Response { status, url }
    }

    /// Renders the response body, pretty-printed.
    pub fn to_json_pretty(&self) -> (r: String)
        ensures
            r@ == response_body(self.status@, url_view(self.url)),
    {
        let mut out = "{\n  \"status\": ".to_owned();
        append_string_lit(&mut out, self.status.as_str());
        out.append(",\n  \"url\": ");
        match &self.url {
            Some(u) => append_string_lit(&mut out, u.as_str()),
            None => out.append("null"),
        }
        out.append("\n}");
        proof {
            assert(out@ =~= response_body(self.status@, url_view(self.url)));
        }
        out
    }
}

// ------------------------------------------------------------------
// The request handler's decisions
// ------------------------------------------------------------------

/// One HTTP reply, ready to send.
#[derive(Debug)]
pub struct HttpReply {
    pub status_code: u16,
    pub content_type: String,
    pub body: String,
}

/// Which downstream dependency failed.
#[derive(Clone, Copy, Debug, PartialEq, Eq, Structural)]
pub enum DependencyError {
    Storage,
    Database,
    DocumentStore,
}

/// What the handler decided about an inbound body.
#[derive(Debug)]
pub enum HandlerDecision {
    Reject(HttpReply),
    Proceed(Color),
}

fn error_reply(status_code: u16) -> (r: HttpReply)
    ensures
        r.status_code == status_code,
        r.content_type@ == "application/json"@,
        r.body@ == response_body("error"@, None),
{
    let resp = Response::new("error".to_owned(), None);
    HttpReply {
        status_code,
        content_type: "application/json".to_owned(),
        body: resp.to_json_pretty(),
    }
}

/// Reads an inbound body and decides: reject it now with the exact
/// client-error reply, or proceed with the submitted color. A rejected
/// body reaches no downstream dependency: only a `Proceed` carries a
/// color to act on.
pub fn handle(body: &str) -> (r: HandlerDecision)
    ensures
        match r {
            HandlerDecision::Proceed(c) => request_of(body@) == Some((c.r, c.g, c.b)),
            HandlerDecision::Reject(rep) => request_of(body@) is None && rep.status_code == 400
                && rep.content_type@ == "application/json"@ && rep.body@ == response_body(
                "error"@,
                None,
            ),
        },
{
    match Request::new(body) {
        Ok(req) => HandlerDecision::Proceed(Color::new(req.r, req.g, req.b)),
        Err(_) => HandlerDecision::Reject(error_reply(400)),
    }
}

/// Assembles the final reply from the downstream outcome: the presigned
/// link on success, the generic server error otherwise.
pub fn finish(outcome: Result<String, DependencyError>) -> (r: HttpReply)
    ensures
        match outcome {
            Ok(url) => r.status_code == 200 && r.content_type@ == "application/json"@
                && r.body@ == response_body("success"@, Some(url@)),
            Err(_) => r.status_code == 500 && r.content_type@ == "application/json"@
                && r.body@ == response_body("error"@, None),
        },
{
    match outcome {
        Ok(url) => {
            let resp = Response::new("success".to_owned(), Some(url));
            HttpReply {
                status_code: 200,
                content_type: "application/json".to_owned(),
                body: resp.to_json_pretty(),
            }
        }
        Err(_) => error_reply(500),
    }
}

/// The object key for an image taken at `now_millis`.
pub fn create_filename(now_millis: u64) -> (r: String)
    ensures
        r@ == dec_str(now_millis as nat) + ".png"@,
{
    let mut s = crate::json::u64_to_string(now_millis);
    s.append(".png");
    s
}

} // verus!
