//! HTTP requests and replies as plain values.

use vstd::prelude::*;

use crate::text;

verus! {

/// A GET request: the address, the query parameters and the headers, in order.
#[derive(Debug)]
pub struct HttpRequest {
    pub url: String,
    pub query: Vec<(String, String)>,
    pub headers: Vec<(String, String)>,
}

/// A request with its texts as sequences of characters.
pub struct RequestView {
    pub url: Seq<char>,
    pub query: Seq<(Seq<char>, Seq<char>)>,
    pub headers: Seq<(Seq<char>, Seq<char>)>,
}

impl View for HttpRequest {
    type V = RequestView;

    open spec fn view(&self) -> RequestView {
        RequestView {
            url: self.url@,
            query: text::views(self.query@),
            headers: text::views(self.headers@),
        }
    }
}

/// The parameters with one more behind them.
pub fn with_field(fields: Vec<(String, String)>, name: &str, value: &str) -> (r: Vec<
    (String, String),
>)
    ensures
        text::views(r@) == text::views(fields@).push((name@, value@)),
{
    let mut all = fields;
    let field = (name.to_owned(), value.to_owned());
    let ghost before = text::views(fields@);
    all.push(field);
    assert(text::views(all@) =~= before.push(field@));
    all
}

/// No parameters.
pub fn no_fields() -> (r: Vec<(String, String)>)
    ensures
        text::views(r@) == Seq::<(Seq<char>, Seq<char>)>::empty(),
{
    let r: Vec<(String, String)> = Vec::new();
    assert(text::views(r@) =~= Seq::<(Seq<char>, Seq<char>)>::empty());
    r
}

/// What came back for a request.
#[derive(Debug)]
pub enum HttpReply {
    /// No reply: why.
    Failed(String),
    /// A reply: its status as a number and in words, its content type (empty when it has
    /// none), and its body, or why the body could not be read.
    Answer { status: u16, status_text: String, content_type: String, body: Result<String, String> },
}

/// A reply with its texts as sequences of characters.
pub enum ReplyView {
    Failed(Seq<char>),
    Answer {
        status: u16,
        status_text: Seq<char>,
        content_type: Seq<char>,
        body: Result<Seq<char>, Seq<char>>,
    },
}

/// The view of a result of two texts.
pub open spec fn result_view<T: View>(r: Result<T, String>) -> Result<T::V, Seq<char>> {
    match r {
        Ok(value) => Ok(value@),
        Err(message) => Err(message@),
    }
}

/// The view of a result of a list or an error text.
pub open spec fn list_result<T: View>(r: Result<Vec<T>, String>) -> Result<Seq<T::V>, Seq<char>> {
    match r {
        Ok(items) => Ok(text::views(items@)),
        Err(message) => Err(message@),
    }
}

impl View for HttpReply {
    type V = ReplyView;

    open spec fn view(&self) -> ReplyView {
        match *self {
            HttpReply::Failed(message) => ReplyView::Failed(message@),
            HttpReply::Answer { status, status_text, content_type, body } => ReplyView::Answer {
                status,
                status_text: status_text@,
                content_type: content_type@,
                body: result_view(body),
            },
        }
    }
}

/// A status that reports success.
pub open spec fn is_success(status: u16) -> bool {
    200 <= status < 300
}

/// The body of a successful reply; else the error that each kind of failure is reported as.
pub open spec fn body_or(
    reply: ReplyView,
    failed: Seq<char>,
    refused: Seq<char>,
    unreadable: Seq<char>,
) -> Result<Seq<char>, Seq<char>> {
    match reply {
        ReplyView::Failed(_) => Err(failed),
        ReplyView::Answer { status, status_text, content_type, body } => if !is_success(status) {
            Err(refused + status_text)
        } else {
            match body {
                Ok(text) => Ok(text),
                Err(_) => Err(unreadable),
            }
        },
    }
}

/// The body of a successful reply; else the error that each kind of failure is reported as.
pub fn body_of(reply: HttpReply, failed: &str, refused: &str, unreadable: &str) -> (r: Result<
    String,
    String,
>)
    ensures
        result_view(r) == body_or(reply@, failed@, refused@, unreadable@),
{
    match reply {
        HttpReply::Failed(_) => Err(failed.to_owned()),
        HttpReply::Answer { status, status_text, content_type, body } => if !(200 <= status && status
            < 300) {
            let mut message = refused.to_owned();
            message.append(status_text.as_str());
            Err(message)
        } else {
            match body {
                Ok(text) => Ok(text),
                Err(_) => Err(unreadable.to_owned()),
            }
        },
    }
}

/// Why a reply holds no answer: there is none, or its status reports no success.
pub open spec fn refusal(reply: ReplyView, failed: Seq<char>, refused: Seq<char>) -> Option<
    Seq<char>,
> {
    match reply {
        ReplyView::Failed(_) => Some(failed),
        ReplyView::Answer { status, status_text, content_type, body } => if is_success(status) {
            None
        } else {
            Some(refused + status_text)
        },
    }
}

/// Why a reply holds no answer: there is none, or its status reports no success.
pub fn refusal_of(reply: &HttpReply, failed: &str, refused: &str) -> (r: Option<String>)
    ensures
        text::option_view(r) == refusal(reply@, failed@, refused@),
{
    match reply {
        HttpReply::Failed(_) => Some(failed.to_owned()),
        HttpReply::Answer { status, status_text, content_type, body } => if 200 <= *status && *status
            < 300 {
            None
        } else {
            let mut message = refused.to_owned();
            message.append(status_text.as_str());
            Some(message)
        },
    }
}

/// The text of a good reply is its body; of any other there is none, and a refusal says with
/// which status.
pub proof fn bodies_are_handed_on(
    status: u16,
    status_text: Seq<char>,
    content_type: Seq<char>,
    body: Seq<char>,
    failed: Seq<char>,
    refused: Seq<char>,
    unreadable: Seq<char>,
)
    ensures
        ({
            let reply = ReplyView::Answer { status, status_text, content_type, body: Ok(body) };
            &&& 200 <= status <= 299 ==> body_or(reply, failed, refused, unreadable) == Ok::<
                Seq<char>,
                Seq<char>,
            >(body) && refusal(reply, failed, refused) is None
            &&& !(200 <= status <= 299) ==> body_or(reply, failed, refused, unreadable) == Err::<
                Seq<char>,
                Seq<char>,
            >(refused + status_text) && refusal(reply, failed, refused) == Some(
                refused + status_text,
            )
            &&& body_or(ReplyView::Failed(body), failed, refused, unreadable) == Err::<
                Seq<char>,
                Seq<char>,
            >(failed)
        }),
{
}

} // verus!
