//! The language model: an OpenAI-compatible chat completion.

use vstd::prelude::*;

use crate::http;
use crate::http::{HttpReply, ReplyView};
use crate::text;
use crate::words;

verus! {

/// A message of a chat.
#[derive(Debug)]
pub struct ChatMessage {
    pub role: String,
    pub content: String,
}

impl View for ChatMessage {
    type V = (Seq<char>, Seq<char>);

    open spec fn view(&self) -> (Seq<char>, Seq<char>) {
        (self.role@, self.content@)
    }
}

impl Clone for ChatMessage {
    fn clone(&self) -> (copy: Self)
        ensures
            copy == *self,
    {
        ChatMessage { role: self.role.clone(), content: self.content.clone() }
    }
}

impl ChatMessage {
    /// A message that sets the rules.
    pub fn system(content: &str) -> (r: Self)
        ensures
            r@ == ("system"@, content@),
    {
        ChatMessage { role: "system".to_owned(), content: content.to_owned() }
    }

    /// A message that asks.
    pub fn user(content: &str) -> (r: Self)
        ensures
            r@ == ("user"@, content@),
    {
        ChatMessage { role: "user".to_owned(), content: content.to_owned() }
    }
}

/// A chat that the model is to continue.
#[derive(Debug)]
pub struct Prompt {
    pub system: ChatMessage,
    pub user: ChatMessage,
    /// Whether the reply is to be a JSON object.
    pub json: bool,
}

/// A prompt with its texts as sequences of characters.
pub struct PromptView {
    pub system: Seq<char>,
    pub user: Seq<char>,
    pub json: bool,
}

impl Prompt {
    /// The prompt consists of one message of each role.
    pub open spec fn says(self, view: PromptView) -> bool {
        &&& self.system@ == ("system"@, view.system)
        &&& self.user@ == ("user"@, view.user)
        &&& self.json == view.json
    }

    /// The prompt made of two texts.
    pub fn new(system: &str, user: &str, json: bool) -> (r: Prompt)
        ensures
            r.says((PromptView { system: system@, user: user@, json })),
    {
        Prompt { system: ChatMessage::system(system), user: ChatMessage::user(user), json }
    }
}

/// Where completions are asked for.
pub fn endpoint(base_url: &str) -> (r: String)
    ensures
        r@ == base_url@ + "/chat/completions"@,
{
    let mut r = base_url.to_owned();
    r.append("/chat/completions");
    r
}

/// What the model said: the content of its first choice, unless that is blank. `parsed` is
/// the content of each choice, once the reply's body parses.
pub open spec fn said(reply: ReplyView, parsed: Option<Seq<Option<Seq<char>>>>) -> Result<
    Seq<char>,
    Seq<char>,
> {
    match reply {
        ReplyView::Failed(_) => Err("LLM request failed"@),
        ReplyView::Answer { status, status_text, content_type, body } => if !http::is_success(
            status,
        ) {
            let text = match body {
                Ok(text) => text,
                Err(_) => Seq::empty(),
            };
            Err("LLM API error "@ + status_text + ": "@ + text)
        } else {
            match parsed {
                None => Err("LLM response parse failed"@),
                Some(choices) => if choices.len() > 0 && (choices[0] matches Some(content)
                    && words::trim(content).len() > 0) {
                    Ok(choices[0]->0)
                } else {
                    Err("LLM returned empty response"@)
                },
            }
        },
    }
}

/// The view of the contents of a reply's choices.
pub open spec fn contents(parsed: Option<Vec<Option<String>>>) -> Option<Seq<Option<Seq<char>>>> {
    match parsed {
        Some(choices) => Some(
            choices@.map_values(|content: Option<String>| text::option_view(content)),
        ),
        None => None,
    }
}

/// What the model said: the content of its first choice, unless that is blank. `parsed` is
/// the content of each choice, once the reply's body parses.
pub fn reply_text(reply: &HttpReply, parsed: &Option<Vec<Option<String>>>) -> (r: Result<
    String,
    String,
>)
    ensures
        http::result_view(r) == said(reply@, contents(*parsed)),
{
    match reply {
        HttpReply::Failed(_) => Err("LLM request failed".to_owned()),
        HttpReply::Answer { status, status_text, content_type, body } => if !(200 <= *status
            && *status < 300) {
            let text = match body {
                Ok(text) => text.clone(),
                Err(_) => String::new(),
            };
            proof {
                if body is Err {
                    assert(text@ =~= Seq::<char>::empty());
                }
            }
            let mut message = "LLM API error ".to_owned();
            message.append(status_text.as_str());
            message.append(": ");
            message.append(text.as_str());
            Err(message)
        } else {
            match parsed {
                None => Err("LLM response parse failed".to_owned()),
                Some(choices) => {
                    if choices.len() > 0 {
                        if let Some(content) = &choices[0] {
                            let trimmed = words::trimmed(content.as_str());
                            if !text::blank(trimmed.as_str()) {
                                return Ok(content.clone());
                            }
                        }
                    }
                    Err("LLM returned empty response".to_owned())
                },
            }
        },
    }
}

// ── retries ─────────────────────────────────────────────────────────

/// How often a request is sent before its failure counts.
pub const ATTEMPTS: u32 = 3;

/// A failure that may pass: no reply, too many requests, or a fault of the server.
pub open spec fn is_transient(reply: ReplyView) -> bool {
    match reply {
        ReplyView::Failed(_) => true,
        ReplyView::Answer { status, status_text, content_type, body } => status == 429 || 500
            <= status < 600,
    }
}

/// The seconds to wait before the request is sent again, after `attempt` attempts; `None`
/// when its reply stands. The wait doubles with each attempt.
pub open spec fn retry_after(attempt: u32, reply: ReplyView) -> Option<u64> {
    if is_transient(reply) && attempt < ATTEMPTS {
        if attempt <= 1 {
            Some(1)
        } else {
            Some(2)
        }
    } else {
        None
    }
}

/// The seconds to wait before the request is sent again, after `attempt` attempts; `None`
/// when its reply stands. The wait doubles with each attempt.
pub fn retry_delay(attempt: u32, reply: &HttpReply) -> (r: Option<u64>)
    ensures
        r == retry_after(attempt, reply@),
{
    let transient = match reply {
        HttpReply::Failed(_) => true,
        HttpReply::Answer { status, status_text, content_type, body } => *status == 429 || (500
            <= *status && *status < 600),
    };
    if transient && attempt < ATTEMPTS {
        if attempt <= 1 {
            Some(1)
        } else {
            Some(2)
        }
    } else {
        None
    }
}

/// A reply that succeeds, or fails for good, is never asked for again; nor is any reply once
/// the attempts are used up.
pub proof fn retries_end(attempt: u32, reply: ReplyView)
    ensures
        !is_transient(reply) ==> retry_after(attempt, reply) is None,
        attempt >= ATTEMPTS ==> retry_after(attempt, reply) is None,
        (reply matches ReplyView::Answer { status, .. } && (http::is_success(status) || status == 401
            || status == 403)) ==> retry_after(attempt, reply) is None,
{
}

/// What the model says first is handed on letter for letter, unless it is blank; a refusal
/// tells the status and the body.
pub proof fn the_first_choice_is_said(
    status: u16,
    status_text: Seq<char>,
    content_type: Seq<char>,
    body: Seq<char>,
    content: Seq<char>,
    others: Seq<Option<Seq<char>>>,
)
    ensures
        ({
            let reply = ReplyView::Answer { status, status_text, content_type, body: Ok(body) };
            let choices = seq![Some(content)] + others;
            let result = said(reply, Some(choices));
            &&& 200 <= status <= 299 && words::trim(content).len() > 0 ==> result == Ok::<
                Seq<char>,
                Seq<char>,
            >(content)
            &&& 200 <= status <= 299 && words::trim(content).len() == 0 ==> result is Err
            &&& !(200 <= status <= 299) ==> (result matches Err(message) && text::contains(
                message,
                status_text + ": "@ + body,
            ))
            &&& said(reply, None) is Err
            &&& said(reply, Some(Seq::empty())) is Err
            &&& said(ReplyView::Failed(body), Some(choices)) is Err
        }),
{
    text::strings_associate("LLM API error "@, status_text, ": "@);
    text::strings_associate("LLM API error "@, status_text + ": "@, body);
    text::end_is_held("LLM API error "@, status_text + ": "@ + body);
}

/// Only a request that failed on the way, or that was refused for now, is tried again: once
/// after one second, then after two, three times in all.
pub proof fn transient_failures_are_retried(
    status: u16,
    status_text: Seq<char>,
    content_type: Seq<char>,
    body: Result<Seq<char>, Seq<char>>,
    message: Seq<char>,
)
    ensures
        ({
            let reply = ReplyView::Answer { status, status_text, content_type, body };
            &&& status == 429 || 500 <= status <= 599 ==> retry_after(1, reply) == Some(1u64)
                && retry_after(2, reply) == Some(2u64) && retry_after(3, reply) is None
            &&& status != 429 && !(500 <= status <= 599) ==> retry_after(1, reply) is None
            &&& retry_after(1, ReplyView::Failed(message)) == Some(1u64)
        }),
{
}

} // verus!
