//! What goes to a provider's API, and what comes back.

use vstd::prelude::*;

use crate::json::{compact, compact_json, json_outcome, parse_json, parsed_json, Json, JsonModel};
use crate::text::{cat2, cat4};

verus! {

/// How a resource is addressed.
#[derive(Clone, Copy, Debug, PartialEq, Eq, Structural)]
pub enum Method {
    Get,
    Post,
    Delete,
}

/// What a request carries.
#[derive(Debug, PartialEq, Eq)]
pub enum Body {
    Nothing,
    Json(Json),
    /// The fields of a form.
    Form(Vec<(String, String)>),
}

/// A request to an API.
#[derive(Debug, PartialEq, Eq)]
pub struct Request {
    pub method: Method,
    pub url: String,
    /// The token that authorises the request.
    pub bearer: Option<String>,
    pub body: Body,
}

/// What an API replied.
#[derive(Debug, PartialEq, Eq)]
pub struct Reply {
    pub status: u16,
    /// The status code and its reason, as it is shown.
    pub status_line: String,
    pub body: String,
}

pub enum BodyModel {
    Nothing,
    Json(JsonModel),
    Form(Seq<(Seq<char>, Seq<char>)>),
}

pub struct RequestModel {
    pub method: Method,
    pub url: Seq<char>,
    pub bearer: Option<Seq<char>>,
    pub body: BodyModel,
}

pub struct ReplyModel {
    pub status: u16,
    pub status_line: Seq<char>,
    pub body: Seq<char>,
}

impl DeepView for Body {
    type V = BodyModel;

    open spec fn deep_view(&self) -> BodyModel {
        match *self {
            Body::Nothing => BodyModel::Nothing,
            Body::Json(j) => BodyModel::Json(j.deep_view()),
            Body::Form(fields) => BodyModel::Form(fields.deep_view()),
        }
    }
}

impl DeepView for Request {
    type V = RequestModel;

    open spec fn deep_view(&self) -> RequestModel {
        RequestModel {
            method: self.method,
            url: self.url@,
            bearer: self.bearer.deep_view(),
            body: self.body.deep_view(),
        }
    }
}

impl DeepView for Reply {
    type V = ReplyModel;

    open spec fn deep_view(&self) -> ReplyModel {
        ReplyModel { status: self.status, status_line: self.status_line@, body: self.body@ }
    }
}

/// Whether a status means success.
pub open spec fn is_success(status: u16) -> bool {
    200 <= status < 300
}

/// How the body of a reply is shown.
pub open spec fn shown_body(body: Seq<char>) -> Seq<char> {
    match compact_json(body) {
        Some(text) => text,
        None => body,
    }
}

/// `head`, the status, `middle` and the body.
pub open spec fn api_error(head: Seq<char>, reply: ReplyModel, middle: Seq<char>) -> Seq<char> {
    head + reply.status_line + middle + shown_body(reply.body)
}

/// Why a body that is not JSON cannot be read.
pub open spec fn body_error(reason: Seq<char>) -> Seq<char> {
    "json: "@ + reason
}

/// What a reply that should be JSON says: an error where it is not JSON, the
/// error made of `head`, the status, `middle` and the body where the status is
/// not one of success, else the document.
pub open spec fn document(reply: ReplyModel, head: Seq<char>, middle: Seq<char>) -> Result<JsonModel, Seq<char>> {
    match parsed_json(reply.body) {
        Err(e) => Err(body_error(e)),
        Ok(tree) => if is_success(reply.status) {
            Ok(tree)
        } else {
            Err(api_error(head, reply, middle))
        },
    }
}

/// What a result of text reads as.
pub open spec fn text_outcome(r: Result<String, String>) -> Result<Seq<char>, Seq<char>> {
    match r {
        Ok(s) => Ok(s@),
        Err(e) => Err(e@),
    }
}

/// What a result of a pair of texts reads as.
pub open spec fn pair_outcome(r: Result<(String, String), String>) -> Result<(Seq<char>, Seq<char>), Seq<char>> {
    match r {
        Ok(p) => Ok((p.0@, p.1@)),
        Err(e) => Err(e@),
    }
}

/// A reply whose body is JSON says that body if and only if its status is in
/// the two hundreds; otherwise the error shows the status line. A body that is
/// not JSON is an error whatever the status.
pub proof fn law_only_success_counts(reply: ReplyModel, head: Seq<char>, middle: Seq<char>)
    ensures
        document(reply, head, middle) is Ok <==> parsed_json(reply.body) is Ok && 200 <= reply.status <= 299,
        document(reply, head, middle) matches Ok(tree) ==> parsed_json(reply.body) == Ok::<JsonModel, Seq<char>>(tree),
        parsed_json(reply.body) is Ok && !(200 <= reply.status <= 299) ==> (document(reply, head, middle) matches Err(e)
            && exists|shown: Seq<char>|
            e == #[trigger] (head + reply.status_line + middle + shown) && shown == shown_body(reply.body)),
        parsed_json(reply.body) matches Err(e) ==> document(reply, head, middle) == Err::<JsonModel, Seq<char>>(
            "json: "@ + e,
        ),
        compact_json(reply.body) matches Some(text) ==> shown_body(reply.body) == text,
        compact_json(reply.body) is None ==> shown_body(reply.body) == reply.body,
{
    let shown = shown_body(reply.body);
    assert(api_error(head, reply, middle) == head + reply.status_line + middle + shown);
}

/// Whether a status means success.
pub fn success(status: u16) -> (r: bool)
    ensures
        r == is_success(status),
{
    200 <= status && status < 300
}

/// How the body of a reply is shown.
pub fn show_body(body: &str) -> (r: String)
    ensures
        r@ == shown_body(body@),
{
    match compact(body) {
        Some(text) => text,
        None => body.to_owned(),
    }
}

/// The body of a reply as a document, whatever the status.
pub fn read_body(reply: &Reply) -> (r: Result<Json, String>)
    ensures
        json_outcome(r) == match parsed_json(reply.body@) {
            Ok(tree) => Ok::<JsonModel, Seq<char>>(tree),
            Err(e) => Err(body_error(e)),
        },
{
    match parse_json(reply.body.as_str()) {
        Ok(tree) => Ok(tree),
        Err(e) => Err(cat2("json: ", e.as_str())),
    }
}

/// The error made of `head`, the status, `middle` and the body.
pub fn error_text(head: &str, reply: &Reply, middle: &str) -> (r: String)
    ensures
        r@ == api_error(head@, reply.deep_view(), middle@),
{
    cat4(head, reply.status_line.as_str(), middle, show_body(reply.body.as_str()).as_str())
}

/// What a reply that should be JSON says.
pub fn read_document(reply: &Reply, head: &str, middle: &str) -> (r: Result<Json, String>)
    ensures
        json_outcome(r) == document(reply.deep_view(), head@, middle@),
{
    match read_body(reply) {
        Ok(tree) => if success(reply.status) {
            Ok(tree)
        } else {
            Err(error_text(head, reply, middle))
        },
        Err(e) => Err(e),
    }
}

/// What a result reads as tells all of it: whether it is a success, and the
/// text of either.
pub proof fn law_outcome_tells_all(
    text: Result<String, String>,
    pair: Result<(String, String), String>,
    s: Seq<char>,
    t: Seq<char>,
)
    ensures
        text_outcome(text) == Ok::<Seq<char>, Seq<char>>(s) <==> (text matches Ok(read) && read@ == s),
        text_outcome(text) == Err::<Seq<char>, Seq<char>>(s) <==> (text matches Err(e) && e@ == s),
        pair_outcome(pair) == Ok::<(Seq<char>, Seq<char>), Seq<char>>((s, t)) <==> (pair matches Ok(read) && read.0@ == s
            && read.1@ == t),
        pair_outcome(pair) == Err::<(Seq<char>, Seq<char>), Seq<char>>(s) <==> (pair matches Err(e) && e@ == s),
{
}

} // verus!
