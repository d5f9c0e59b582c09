//! Web pages: the request for one, and the readable text in it.

use vstd::prelude::*;

use crate::http;
use crate::http::{HttpReply, HttpRequest, ReplyView, RequestView};
use crate::pattern;
use crate::text;
use crate::words;

verus! {

/// How requests introduce themselves.
pub const USER_AGENT: &'static str =
    "Mozilla/5.0 (X11; Linux x86_64) AppleWebKit/537.36 (KHTML, like Gecko) Chrome/126.0 Safari/537.36";

/// What a text ends with when it was cut.
pub const TRUNCATED: &'static str = "[...TRUNCATED...]";

/// The most characters taken from a paper in full at arXiv.
pub const ARXIV_CAP: usize = 250_000;

/// The most characters taken from any other page.
pub const PAGE_CAP: usize = 12_000;

/// The most characters taken from a page.
pub open spec fn cap_for(url: Seq<char>) -> nat {
    if text::contains(url, "arxiv.org/html"@) {
        ARXIV_CAP as nat
    } else {
        PAGE_CAP as nat
    }
}

/// The most characters taken from a page.
pub fn cap_for_url(url: &str) -> (r: usize)
    ensures
        r == cap_for(url@),
{
    if text::has(url, "arxiv.org/html") {
        ARXIV_CAP
    } else {
        PAGE_CAP
    }
}

/// The request for a page.
pub open spec fn page_request_for(url: Seq<char>) -> RequestView {
    RequestView {
        url,
        query: Seq::empty(),
        headers: seq![
            ("User-Agent"@, USER_AGENT@),
            ("Accept"@, "text/html,application/xhtml+xml,text/plain"@),
        ],
    }
}

/// The request for a page.
pub fn page_request(url: &str) -> (r: HttpRequest)
    ensures
        r@ == page_request_for(url@),
{
    let headers = http::with_field(http::no_fields(), "User-Agent", USER_AGENT);
    let headers = http::with_field(
        headers,
        "Accept",
        "text/html,application/xhtml+xml,text/plain",
    );
    let r = HttpRequest { url: url.to_owned(), query: http::no_fields(), headers };
    assert(r@.headers =~= page_request_for(url@).headers);
    r
}

/// The elements whose whole content is no part of the text.
pub const SKIPPED: [&'static str; 6] = ["script", "style", "nav", "footer", "header", "noscript"];

/// The end of an element that ends a line.
pub const LINE_END: &'static str = r"(?i)</(p|div|h[1-6]|li|tr|section|article|blockquote|pre)>";

/// A tag.
pub const TAG: &'static str = r"<[^>]*>";

/// Blanks before the end of a line.
pub const TRAILING_BLANKS: &'static str = r"[ \t]+\n";

/// More than one empty line.
pub const EMPTY_LINES: &'static str = r"\n{3,}";

/// The pattern of an element with its content.
pub open spec fn element(tag: Seq<char>) -> Seq<char> {
    "(?is)<"@ + tag + "[^>]*>.*?</"@ + tag + ">"@
}

fn element_pattern(tag: &str) -> (r: String)
    ensures
        r@ == element(tag@),
{
    let mut r = "(?is)<".to_owned();
    r.append(tag);
    r.append("[^>]*>.*?</");
    r.append(tag);
    r.append(">");
    r
}

/// The page without the elements of the first `n` kinds that are no part of the text.
pub open spec fn without_elements(html: Seq<char>, n: int) -> Seq<char>
    decreases n,
{
    if n <= 0 {
        html
    } else {
        pattern::rewritten(element(SKIPPED@[n - 1]@), without_elements(html, n - 1), " "@)
    }
}

/// The text with its character references resolved.
pub open spec fn unescaped(text: Seq<char>) -> Seq<char> {
    let s = words::replaced(text, "&nbsp;"@, " "@);
    let s = words::replaced(s, "&amp;"@, "&"@);
    let s = words::replaced(s, "&lt;"@, "<"@);
    let s = words::replaced(s, "&gt;"@, ">"@);
    let s = words::replaced(s, "&quot;"@, "\""@);
    let s = words::replaced(s, "&#39;"@, "'"@);
    words::replaced(s, "&apos;"@, "'"@)
}

/// The text with its character references resolved.
pub fn unescape(text: &str) -> (r: String)
    ensures
        r@ == unescaped(text@),
{
    proof {
        reveal_strlit("&nbsp;");
        reveal_strlit("&amp;");
        reveal_strlit("&lt;");
        reveal_strlit("&gt;");
        reveal_strlit("&quot;");
        reveal_strlit("&#39;");
        reveal_strlit("&apos;");
    }
    let s = words::replace(text, "&nbsp;", " ");
    let s = words::replace(s.as_str(), "&amp;", "&");
    let s = words::replace(s.as_str(), "&lt;", "<");
    let s = words::replace(s.as_str(), "&gt;", ">");
    let s = words::replace(s.as_str(), "&quot;", "\"");
    let s = words::replace(s.as_str(), "&#39;", "'");
    words::replace(s.as_str(), "&apos;", "'")
}

/// The readable text of a page: scripts and the like gone, a line for each block, no tags,
/// no needless blanks.
pub open spec fn page_text(html: Seq<char>) -> Seq<char> {
    let lines = pattern::rewritten(LINE_END@, without_elements(html, 6), "\n"@);
    let entities = unescaped(pattern::rewritten(TAG@, lines, " "@));
    let cleaned = pattern::rewritten(TRAILING_BLANKS@, entities, "\n"@);
    words::trim(pattern::rewritten(EMPTY_LINES@, cleaned, "\n\n"@))
}

/// The readable text of a page: scripts and the like gone, a line for each block, no tags,
/// no needless blanks.
pub fn html_to_text(html: &str) -> (r: String)
    ensures
        r@ == page_text(html@),
{
    let tags = SKIPPED;
    let mut s = html.to_owned();
    for i in 0..6
        invariant
            tags@ == SKIPPED@,
            s@ == without_elements(html@, i as int),
    {
        s = pattern::rewrite(element_pattern(tags[i as usize]).as_str(), s.as_str(), " ");
    }
    let s = pattern::rewrite(LINE_END, s.as_str(), "\n");
    let s = pattern::rewrite(TAG, s.as_str(), " ");
    let s = unescape(s.as_str());
    let s = pattern::rewrite(TRAILING_BLANKS, s.as_str(), "\n");
    let s = pattern::rewrite(EMPTY_LINES, s.as_str(), "\n\n");
    words::trimmed(s.as_str())
}

/// The text cut to `max` characters, and marked when something was cut off.
pub open spec fn truncated(text: Seq<char>, max: nat) -> Seq<char> {
    if text.len() > max {
        text.take(max as int) + TRUNCATED@
    } else {
        text
    }
}

/// The text cut to `max` characters, and marked when something was cut off.
pub fn truncate(text: &str, max: usize) -> (r: String)
    ensures
        r@ == truncated(text@, max as nat),
{
    let chars = text::chars_of(text);
    if chars.len() > max {
        let mut r = text::text_of(&chars, 0, max);
        r.append(TRUNCATED);
        assert(text@.take(max as int) == chars@.subrange(0, max as int));
        r
    } else {
        text.to_owned()
    }
}

/// Whether a body is a page: by its type, or because it starts like one.
pub open spec fn is_page(content_type: Seq<char>, body: Seq<char>) -> bool {
    text::contains(words::lowercase(content_type), "html"@) || "<"@.is_prefix_of(
        words::trim_start(body),
    )
}

/// The text that the reply for a page holds, cut to `max` characters.
pub open spec fn fetched(url: Seq<char>, reply: ReplyView, max: nat) -> Result<Seq<char>, Seq<char>> {
    match reply {
        ReplyView::Failed(message) => Err(message),
        ReplyView::Answer { status, status_text, content_type, body } => if !http::is_success(
            status,
        ) {
            Err("HTTP "@ + status_text + " for "@ + url)
        } else {
            match body {
                Err(message) => Err(message),
                Ok(body) => if text::contains(words::lowercase(content_type), "pdf"@) {
                    Err("PDF content not supported: "@ + url)
                } else if is_page(content_type, body) {
                    Ok(truncated(words::trim(page_text(body)), max))
                } else {
                    Ok(truncated(words::trim(body), max))
                },
            }
        },
    }
}

/// The text that the reply for a page holds, cut to `max` characters.
pub fn fetch_reply(url: &str, reply: HttpReply, max: usize) -> (r: Result<String, String>)
    ensures
        http::result_view(r) == fetched(url@, reply@, max as nat),
{
    match reply {
        HttpReply::Failed(message) => Err(message),
        HttpReply::Answer { status, status_text, content_type, body } => if !(200 <= status && status
            < 300) {
            let mut message = "HTTP ".to_owned();
            message.append(status_text.as_str());
            message.append(" for ");
            message.append(url);
            Err(message)
        } else {
            match body {
                Err(message) => Err(message),
                Ok(body) => {
                    let kind = content_type.as_str().to_lowercase();
                    if text::has(kind.as_str(), "pdf") {
                        let mut message = "PDF content not supported: ".to_owned();
                        message.append(url);
                        Err(message)
                    } else if text::has(kind.as_str(), "html") || text::has_prefix(
                        words::left_trimmed(body.as_str()).as_str(),
                        "<",
                    ) {
                        let text = words::trimmed(html_to_text(body.as_str()).as_str());
                        Ok(truncate(text.as_str(), max))
                    } else {
                        Ok(truncate(words::trimmed(body.as_str()).as_str(), max))
                    }
                },
            }
        },
    }
}

/// A text that is not longer than allowed stays as it is; of a longer one the first so many
/// characters stay, and a note says that there was more.
pub proof fn texts_are_cut_at_the_limit(text: Seq<char>, max: nat)
    ensures
        text.len() <= max ==> truncated(text, max) == text,
        text.len() > max ==> truncated(text, max).len() == max + TRUNCATED@.len(),
        text.len() > max ==> TRUNCATED@.is_suffix_of(truncated(text, max)),
        forall|i: int| 0 <= i < text.len() && i < max ==> #[trigger] truncated(text, max)[i] == text[i],
{
}

/// A page is asked for at its own address; papers in full at arXiv may be longer than others.
pub proof fn pages_are_asked_for_by_address(front: Seq<char>, back: Seq<char>, url: Seq<char>)
    ensures
        page_request_for(url).url == url,
        cap_for(front + "arxiv.org/html"@ + back) == 250_000,
        !text::contains(url, "arxiv.org/html"@) ==> cap_for(url) == 12_000,
{
    text::holds_its_middle(front, "arxiv.org/html"@, back);
}

/// A reply that failed is its error; a refusal names the status and the address; a text that
/// is no page is handed on, without the white space around it.
pub proof fn replies_are_read(
    url: Seq<char>,
    status: u16,
    status_text: Seq<char>,
    content_type: Seq<char>,
    body: Seq<char>,
    max: nat,
)
    ensures
        ({
            let reply = ReplyView::Answer { status, status_text, content_type, body: Ok(body) };
            let result = fetched(url, reply, max);
            &&& fetched(url, ReplyView::Failed(body), max) == Err::<Seq<char>, Seq<char>>(body)
            &&& !(200 <= status <= 299) ==> (result matches Err(message) && text::contains(
                message,
                status_text,
            ) && url.is_suffix_of(message))
            &&& 200 <= status <= 299 && text::contains(words::lowercase(content_type), "pdf"@)
                ==> (result matches Err(message) && url.is_suffix_of(message))
            &&& 200 <= status <= 299 && !text::contains(words::lowercase(content_type), "pdf"@)
                && !is_page(content_type, body) && words::trim(body).len() <= max ==> result == Ok::<
                Seq<char>,
                Seq<char>,
            >(words::trim(body))
            &&& 200 <= status <= 299 && !text::contains(words::lowercase(content_type), "pdf"@)
                && is_page(content_type, body) && words::trim(page_text(body)).len() <= max
                ==> result == Ok::<Seq<char>, Seq<char>>(words::trim(page_text(body)))
        }),
{
    let message = "HTTP "@ + status_text + " for "@ + url;
    text::holds_its_middle("HTTP "@, status_text, " for "@ + url);
    assert(message =~= "HTTP "@ + status_text + (" for "@ + url));
    assert(url.is_suffix_of(message)) by {
        assert(message.subrange(message.len() - url.len(), message.len() as int) =~= url);
    }
    let other = "PDF content not supported: "@ + url;
    assert(url.is_suffix_of(other)) by {
        assert(other.subrange(other.len() - url.len(), other.len() as int) =~= url);
    }
}

/// A text without an ampersand has no character references: it stays as it is.
pub proof fn texts_without_references_stay(text: Seq<char>)
    requires
        forall|i: int| 0 <= i < text.len() ==> #[trigger] text[i] != '&',
    ensures
        unescaped(text) == text,
{
    reveal_strlit("&nbsp;");
    reveal_strlit("&amp;");
    reveal_strlit("&lt;");
    reveal_strlit("&gt;");
    reveal_strlit("&quot;");
    reveal_strlit("&#39;");
    reveal_strlit("&apos;");
    let none = Seq::<char>::empty();
    words::copies_are_replaced(text, "&nbsp;"@, " "@, none);
    words::copies_are_replaced(text, "&amp;"@, "&"@, none);
    words::copies_are_replaced(text, "&lt;"@, "<"@, none);
    words::copies_are_replaced(text, "&gt;"@, ">"@, none);
    words::copies_are_replaced(text, "&quot;"@, "\""@, none);
    words::copies_are_replaced(text, "&#39;"@, "'"@, none);
    words::copies_are_replaced(text, "&apos;"@, "'"@, none);
}

} // verus!
