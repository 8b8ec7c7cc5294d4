//! Requests and replies.
//!
//! What is to be sent and what came back, as plain values. The sending itself
//! is left to the caller.

use vstd::prelude::*;
use vstd::string::*;

use crate::string_map::{text_map, StringMap};
use crate::text::{numeral, opt_text, pair_views};

verus! {

/// The method of a request.
#[derive(Debug, Clone, Copy, PartialEq, Eq, Structural)]
pub enum Method {
    Get,
    Post,
}

/// A request to send.
#[derive(Debug, Clone)]
pub struct HttpRequest {
    pub method: Method,
    pub url: String,
    /// The names and values of the headers, in order.
    pub headers: Vec<(String, String)>,
    /// The members of the JSON object to send, if one is to be sent.
    pub body: Option<StringMap<String>>,
    /// After how many seconds to give up, if ever.
    pub timeout_secs: Option<u64>,
}

/// The model of an [`HttpRequest`].
pub struct HttpRequestView {
    pub method: Method,
    pub url: Seq<char>,
    pub headers: Seq<(Seq<char>, Seq<char>)>,
    pub body: Option<Map<Seq<char>, Seq<char>>>,
    pub timeout_secs: Option<u64>,
}

/// The model of the body of a request.
pub open spec fn body_view(body: Option<StringMap<String>>) -> Option<Map<Seq<char>, Seq<char>>> {
    match body {
        Some(members) => Some(text_map(members@)),
        None => None,
    }
}

impl View for HttpRequest {
    type V = HttpRequestView;

    open spec fn view(&self) -> HttpRequestView {
        HttpRequestView {
            method: self.method,
            url: self.url@,
            headers: pair_views(self.headers@),
            body: body_view(self.body),
            timeout_secs: self.timeout_secs,
        }
    }
}

/// A request is modelled by the characters of its parts.
pub proof fn law_request_view(request: HttpRequest, name: Seq<char>)
    ensures
        request@.method == request.method,
        request@.url == request.url@,
        request@.headers.len() == request.headers@.len(),
        forall|i: int|
            0 <= i < request.headers@.len() ==> (#[trigger] request@.headers[i]) == (
                request.headers@[i].0@,
                request.headers@[i].1@,
            ),
        request@.body is Some <==> request.body is Some,
        request.body matches Some(body) ==> (request@.body->0.contains_key(name)
            <==> body@.contains_key(name)),
        request.body matches Some(body) ==> (body@.contains_key(name) ==> request@.body->0[name]
            == body@[name]@),
        request@.timeout_secs == request.timeout_secs,
{
}

/// The status code of a reply, a number of three digits.
#[derive(Debug, Clone, Copy, PartialEq, Eq)]
pub struct Status {
    code: u16,
}

impl View for Status {
    type V = u16;

    closed spec fn view(&self) -> u16 {
        self.code
    }
}

impl Status {
    #[verifier::type_invariant]
    spec fn three_digits(self) -> bool {
        100 <= self.code <= 999
    }

    /// The status of the given code, if it has three digits.
    pub fn new(code: u16) -> (status: Option<Self>)
        ensures
            match status {
                Some(status) => status@ == code && 100 <= code <= 999,
                None => !(100 <= code <= 999),
            },
    {
        if 100 <= code && code <= 999 {
            Some(Status { code })
        } else {
            None
        }
    }

    /// The code of the status.
    pub fn code(&self) -> (code: u16)
        ensures
            code == self@,
            100 <= code <= 999,
    {
        proof {
            use_type_invariant(self);
        }
        self.code
    }

    /// Whether the status stands for success.
    pub fn is_success(&self) -> (success: bool)
        ensures
            success == success_code(self@),
    {
        200 <= self.code && self.code < 300
    }

    /// The code with the reason that it usually has.
    pub fn text(&self) -> (text: String)
        ensures
            text@ == status_text(self@),
    {
        status_display(self.code())
    }
}

/// The codes that stand for success.
pub open spec fn success_code(code: u16) -> bool {
    200 <= code < 300
}

/// The codes that stand for success are those from 200 to 299.
pub proof fn law_success_code(code: u16)
    ensures
        success_code(code) <==> code as int / 100 == 2,
{
}

/// What a status code of `reqwest` is displayed as.
pub uninterp spec fn status_text(code: u16) -> Seq<char>;

/// `<reqwest::StatusCode as Display>::fmt`, which depends on the code alone:
/// the number, a space, and the reason that the code usually has.
#[verifier::external_body]
fn status_display(code: u16) -> (text: String)
    requires
        100 <= code <= 999,
    ensures
        text@ == status_text(code),
        text@.len() > 4,
        text@.take(4) == numeral(code as nat, 10) + " "@,
{
    reqwest::StatusCode::from_u16(code).map(|status| status.to_string()).unwrap_or_default()
}

/// What came of a request.
#[derive(Debug, Clone)]
pub enum Reply {
    /// There was no answer, for the reason given.
    Unreachable(String),
    /// There was an answer, with a body unless that could not be read.
    Answer { status: Status, body: Option<String> },
}

/// The model of a [`Reply`].
pub enum ReplyView {
    Unreachable(Seq<char>),
    Answer { status: u16, body: Option<Seq<char>> },
}

impl View for Reply {
    type V = ReplyView;

    open spec fn view(&self) -> ReplyView {
        match *self {
            Reply::Unreachable(reason) => ReplyView::Unreachable(reason@),
            Reply::Answer { status, body } => ReplyView::Answer {
                status: status@,
                body: opt_text(body),
            },
        }
    }
}

/// A reply is modelled by its status and the characters of its body.
pub proof fn law_reply_view(reply: Reply)
    ensures
        match reply {
            Reply::Unreachable(reason) => reply@ == ReplyView::Unreachable(reason@),
            Reply::Answer { status, body: Some(body) } => reply@ == (ReplyView::Answer {
                status: status@,
                body: Some(body@),
            }),
            Reply::Answer { status, body: None } => reply@ == (ReplyView::Answer {
                status: status@,
                body: None,
            }),
        },
{
}

} // verus!
