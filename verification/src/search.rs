//! Web search over keyless result pages: DuckDuckGo, then Bing, then Brave.
//!
//! A backend is usable when its page parses to at least one result; an empty or gated one
//! yields to the next, and the whole sweep is repeated before a query gives up.

use vstd::prelude::*;

use crate::codec;
use crate::http;
use crate::http::{HttpReply, HttpRequest, ReplyView, RequestView};
use crate::pattern;
use crate::pattern::Groups;
use crate::text;
use crate::words;

verus! {

/// A web page that a search found.
#[derive(Debug)]
pub struct SearchResult {
    pub title: String,
    pub url: String,
    pub snippet: String,
}

/// A search result with its texts as sequences of characters.
pub struct SearchResultView {
    pub title: Seq<char>,
    pub url: Seq<char>,
    pub snippet: Seq<char>,
}

impl View for SearchResult {
    type V = SearchResultView;

    open spec fn view(&self) -> SearchResultView {
        SearchResultView { title: self.title@, url: self.url@, snippet: self.snippet@ }
    }
}

impl Clone for SearchResult {
    fn clone(&self) -> (copy: Self)
        ensures
            copy == *self,
    {
        SearchResult {
            title: self.title.clone(),
            url: self.url.clone(),
            snippet: self.snippet.clone(),
        }
    }
}

/// Why a backend has no answer.
#[derive(Debug)]
pub enum SearchError {
    /// A pattern for its pages is no regular expression.
    Pattern,
    /// Its page could not be had: why.
    Transport(String),
}

/// The view of what a backend answers.
pub open spec fn answer(r: Result<Vec<SearchResult>, SearchError>) -> Result<
    Seq<SearchResultView>,
    SearchError,
> {
    match r {
        Ok(results) => Ok(text::views(results@)),
        Err(error) => Err(error),
    }
}

// ── text of a page ──────────────────────────────────────────────────

/// A comment.
pub const COMMENT: &'static str = r"(?s)<!--.*?-->";

/// A tag.
pub const TAG: &'static str = r"<[^>]*>";

/// The text with its character references resolved.
pub open spec fn unescaped(text: Seq<char>) -> Seq<char> {
    let s = words::replaced(text, "&amp;"@, "&"@);
    let s = words::replaced(s, "&lt;"@, "<"@);
    let s = words::replaced(s, "&gt;"@, ">"@);
    let s = words::replaced(s, "&quot;"@, "\""@);
    let s = words::replaced(s, "&#x27;"@, "'"@);
    let s = words::replaced(s, "&#39;"@, "'"@);
    words::replaced(s, "&nbsp;"@, " "@)
}

/// The text with its character references resolved, and one blank between its words.
pub fn readable(text: &str) -> (r: String)
    ensures
        r@ == words::clean(unescaped(text@)),
{
    proof {
        reveal_strlit("&amp;");
        reveal_strlit("&lt;");
        reveal_strlit("&gt;");
        reveal_strlit("&quot;");
        reveal_strlit("&#x27;");
        reveal_strlit("&#39;");
        reveal_strlit("&nbsp;");
    }
    let s = words::replace(text, "&amp;", "&");
    let s = words::replace(s.as_str(), "&lt;", "<");
    let s = words::replace(s.as_str(), "&gt;", ">");
    let s = words::replace(s.as_str(), "&quot;", "\"");
    let s = words::replace(s.as_str(), "&#x27;", "'");
    let s = words::replace(s.as_str(), "&#39;", "'");
    let s = words::replace(s.as_str(), "&nbsp;", " ");
    words::cleaned(s.as_str())
}

/// The readable text of a piece of a page. Comments go first: they may hold brackets.
pub open spec fn plain(html: Seq<char>) -> Seq<char> {
    words::clean(
        unescaped(
            pattern::rewritten(TAG@, pattern::rewritten(COMMENT@, html, " "@), " "@),
        ),
    )
}

/// The readable text of a piece of a page. Comments go first: they may hold brackets.
pub fn strip_html(s: &str) -> (r: String)
    ensures
        r@ == plain(s@),
{
    let no_comments = pattern::rewrite(COMMENT, s, " ");
    let no_tags = pattern::rewrite(TAG, no_comments.as_str(), " ");
    readable(no_tags.as_str())
}

// ── encoded addresses ───────────────────────────────────────────────

/// The value of a hexadecimal digit.
pub open spec fn hex_value(byte: u8) -> Option<u8> {
    if 0x30 <= byte <= 0x39 {
        Some((byte - 0x30) as u8)
    } else if 0x41 <= byte <= 0x46 {
        Some((byte - 0x41 + 10) as u8)
    } else if 0x61 <= byte <= 0x66 {
        Some((byte - 0x61 + 10) as u8)
    } else {
        None
    }
}

/// The byte that two characters stand for: two hexadecimal digits, or a plus sign and one.
pub open spec fn hex_pair(first: u8, second: u8) -> Option<u8> {
    match (hex_value(first), hex_value(second)) {
        (Some(high), Some(low)) => Some((high * 16 + low) as u8),
        (None, Some(low)) => if first == 0x2b {
            Some(low)
        } else {
            None
        },
        _ => None,
    }
}

fn hex_digit(byte: u8) -> (r: Option<u8>)
    ensures
        r == hex_value(byte),
        r matches Some(value) ==> value < 16,
{
    if 0x30 <= byte && byte <= 0x39 {
        Some(byte - 0x30)
    } else if 0x41 <= byte && byte <= 0x46 {
        Some(byte - 0x41 + 10)
    } else if 0x61 <= byte && byte <= 0x66 {
        Some(byte - 0x61 + 10)
    } else {
        None
    }
}

fn hex_byte(first: u8, second: u8) -> (r: Option<u8>)
    ensures
        r == hex_pair(first, second),
{
    match (hex_digit(first), hex_digit(second)) {
        (Some(high), Some(low)) => Some(high * 16 + low),
        (None, Some(low)) => if first == 0x2b {
            Some(low)
        } else {
            None
        },
        _ => None,
    }
}

/// The bytes with each percent sign and the byte written behind it turned into that byte.
pub open spec fn percent_decoded(bytes: Seq<u8>) -> Seq<u8>
    decreases bytes.len(),
{
    if bytes.len() == 0 {
        bytes
    } else if bytes[0] == 0x25 && bytes.len() > 2 && hex_pair(bytes[1], bytes[2]) is Some {
        seq![hex_pair(bytes[1], bytes[2])->0] + percent_decoded(bytes.skip(3))
    } else {
        seq![bytes[0]] + percent_decoded(bytes.drop_first())
    }
}

/// The bytes with each percent sign and the byte written behind it turned into that byte.
pub fn percent_decode(bytes: &[u8]) -> (r: Vec<u8>)
    ensures
        r@ == percent_decoded(bytes@),
{
    let total: usize = bytes.len();
    let mut out: Vec<u8> = Vec::new();
    let mut i: usize = 0;
    assert(bytes@.skip(0) == bytes@);
    while i < total
        invariant
            i <= total == bytes@.len(),
            percent_decoded(bytes@) == out@ + percent_decoded(bytes@.skip(i as int)),
        decreases total - i,
    {
        let ghost rest = bytes@.skip(i as int);
        let ghost before = out@;
        let mut width: usize = 1;
        let mut value: u8 = bytes[i];
        if bytes[i] == 0x25 && total - i > 2 {
            if let Some(byte) = hex_byte(bytes[i + 1], bytes[i + 2]) {
                width = 3;
                value = byte;
            }
        }
        out.push(value);
        proof {
            assert(rest.drop_first() == bytes@.skip(i + 1));
            if rest.len() > 2 {
                assert(rest.skip(3) == bytes@.skip(i + 3));
            }
            assert(before + (seq![value] + percent_decoded(bytes@.skip(i + width))) =~= out@
                + percent_decoded(bytes@.skip(i + width)));
        }
        i += width;
    }
    assert(bytes@.skip(i as int) =~= Seq::<u8>::empty());
    assert(out@ + Seq::<u8>::empty() =~= out@);
    out
}

/// Bytes without a percent sign stand for themselves.
pub proof fn plain_bytes_stay(bytes: Seq<u8>)
    requires
        !bytes.contains(0x25),
    ensures
        percent_decoded(bytes) == bytes,
    decreases bytes.len(),
{
    if bytes.len() > 0 {
        let rest = bytes.drop_first();
        assert(bytes.contains(bytes[0]));
        assert forall|i: int| 0 <= i < rest.len() implies rest[i] != 0x25 by {
            assert(bytes.contains(bytes[i + 1]));
        }
        plain_bytes_stay(rest);
        assert(seq![bytes[0]] + rest =~= bytes);
    }
}

/// The text that a percent-encoded one stands for.
pub open spec fn url_decoded(text: Seq<char>) -> Seq<char> {
    codec::utf8_lossy(percent_decoded(vstd::utf8::encode_utf8(text)))
}

/// The text that a percent-encoded one stands for.
pub fn urlencoding_decode(s: &str) -> (r: String)
    ensures
        r@ == url_decoded(s@),
        vstd::utf8::valid_utf8(percent_decoded(vstd::utf8::encode_utf8(s@))) ==> r@
            == vstd::utf8::decode_utf8(percent_decoded(vstd::utf8::encode_utf8(s@))),
{
    codec::lossy_text(&percent_decode(s.as_bytes()))
}

/// The marker before the payload of an encoded address.
pub open spec fn payload(text: Seq<char>) -> Seq<char> {
    match text::after_prefix(text, "a1"@) {
        Some(rest) => rest,
        None => text,
    }
}

/// The text that some bytes encode, when they are there and are UTF-8.
pub open spec fn text_in(bytes: Option<Seq<u8>>) -> Option<Seq<char>> {
    match bytes {
        Some(bytes) => if vstd::utf8::valid_utf8(bytes) {
            Some(vstd::utf8::decode_utf8(bytes))
        } else {
            None
        },
        None => None,
    }
}

/// The text that some bytes encode, when they are there and are UTF-8.
pub fn decoded_text(bytes: Option<Vec<u8>>) -> (r: Option<String>)
    ensures
        text::option_view(r) == text_in(text::option_view(bytes)),
{
    match bytes {
        Some(bytes) => codec::utf8_text(bytes),
        None => None,
    }
}

/// The text without the padding at its end.
pub open spec fn unpadded(text: Seq<char>) -> Seq<char>
    decreases text.len(),
{
    if text.len() > 0 && text.last() == '=' {
        unpadded(text.drop_last())
    } else {
        text
    }
}

fn unpad(text: &str) -> (r: String)
    ensures
        r@ == unpadded(text@),
{
    let chars = text::chars_of(text);
    let mut to: usize = chars.len();
    assert(chars@.subrange(0, to as int) =~= chars@);
    while to > 0 && chars[to - 1] == '='
        invariant
            to <= chars@.len(),
            unpadded(chars@) == unpadded(chars@.subrange(0, to as int)),
        decreases to,
    {
        assert(chars@.subrange(0, to as int).drop_last() =~= chars@.subrange(0, to - 1));
        to -= 1;
    }
    text::text_of(&chars, 0, to)
}

/// The text of a base64url value (URL-safe alphabet, padding optional), after the marker
/// "a1", which is not part of the payload.
pub open spec fn base64url_text(text: Seq<char>) -> Option<Seq<char>> {
    text_in(codec::base64url_bytes(vstd::utf8::encode_utf8(unpadded(payload(text)))))
}

/// The text of a base64url value (URL-safe alphabet, padding optional), after the marker
/// "a1", which is not part of the payload.
pub fn base64url_decode(s: &str) -> (r: Option<String>)
    ensures
        text::option_view(r) == base64url_text(s@),
{
    let payload = match text::without_prefix(s, "a1") {
        Some(rest) => rest,
        None => s.to_owned(),
    };
    let bytes = match codec::decode_base64url(unpad(payload.as_str()).as_str().as_bytes()) {
        Ok(bytes) => Some(bytes),
        Err(_) => None,
    };
    decoded_text(bytes)
}

/// Padding makes no difference.
pub proof fn padding_is_optional(text: Seq<char>)
    ensures
        base64url_text(text.push('=')) == base64url_text(text),
{
    let padded = text.push('=');
    reveal_strlit("a1");
    if "a1"@.is_prefix_of(padded) {
        assert(padded[1] == "a1"@[1]);
        assert(text.len() >= 2);
        assert(text.subrange(0, 2) =~= padded.subrange(0, 2));
        assert(payload(padded).drop_last() =~= payload(text));
        assert(payload(padded).last() == '=');
    } else {
        if "a1"@.is_prefix_of(text) {
            assert(padded.subrange(0, 2) =~= text.subrange(0, 2));
        }
        assert(padded.drop_last() =~= text);
    }
    assert(unpadded(payload(padded)) == unpadded(payload(text)));
}

// ── choosing results ────────────────────────────────────────────────

/// Some result leads to this address.
pub open spec fn leads_to(results: Seq<SearchResultView>, url: Seq<char>) -> bool {
    exists|i: int| 0 <= i < results.len() && (#[trigger] results[i]).url == url
}

/// The first `max` candidates, of those with one address the first alone.
pub open spec fn picked(candidates: Seq<SearchResultView>, max: nat) -> Seq<SearchResultView>
    decreases candidates.len(),
{
    if candidates.len() == 0 {
        candidates
    } else {
        let out = picked(candidates.drop_last(), max);
        if out.len() >= max || leads_to(out, candidates.last().url) {
            out
        } else {
            out.push(candidates.last())
        }
    }
}

fn leads(results: &Vec<SearchResult>, url: &str) -> (r: bool)
    ensures
        r == leads_to(text::views(results@), url@),
{
    let ghost all = text::views(results@);
    for i in 0..results.len()
        invariant
            all == text::views(results@),
            forall|j: int| 0 <= j < i ==> (#[trigger] all[j]).url != url@,
    {
        assert(all[i as int] == results@[i as int]@);
        if text::same(results[i].url.as_str(), url) {
            return true;
        }
    }
    false
}

/// The first `max` candidates, of those with one address the first alone.
pub fn pick(candidates: &Vec<SearchResult>, max: usize) -> (r: Vec<SearchResult>)
    ensures
        text::views(r@) == picked(text::views(candidates@), max as nat),
{
    let ghost all = text::views(candidates@);
    let mut out: Vec<SearchResult> = Vec::new();
    assert(all.take(0) =~= text::views(out@));
    for i in 0..candidates.len()
        invariant
            all == text::views(candidates@),
            text::views(out@) == picked(all.take(i as int), max as nat),
    {
        assert(all.take(i + 1).drop_last() == all.take(i as int));
        assert(all.take(i + 1).last() == candidates@[i as int]@);
        if out.len() < max && !leads(&out, candidates[i].url.as_str()) {
            let ghost before = out@;
            out.push(candidates[i].clone());
            assert(text::views(out@) =~= text::views(before).push(candidates@[i as int]@));
        }
    }
    assert(all.take(all.len() as int) == all);
    out
}

/// At most `max` results are chosen, no two lead to one address, and as long as there is room
/// every candidate's address is among them.
pub proof fn picks_are_distinct(candidates: Seq<SearchResultView>, max: nat)
    ensures
        picked(candidates, max).len() <= max,
        forall|i: int, j: int|
            0 <= i < j < picked(candidates, max).len() ==> (#[trigger] picked(candidates, max)[i]).url
                != (#[trigger] picked(candidates, max)[j]).url,
        forall|i: int|
            0 <= i < picked(candidates, max).len() ==> candidates.contains(
                #[trigger] picked(candidates, max)[i],
            ),
        picked(candidates, max).len() < max ==> forall|i: int|
            0 <= i < candidates.len() ==> leads_to(
                picked(candidates, max),
                (#[trigger] candidates[i]).url,
            ),
    decreases candidates.len(),
{
    if candidates.len() > 0 {
        let rest = candidates.drop_last();
        picks_are_distinct(rest, max);
        let before = picked(rest, max);
        let out = picked(candidates, max);
        assert forall|i: int| 0 <= i < out.len() implies candidates.contains(#[trigger] out[i]) by {
            if i < before.len() {
                assert(rest.contains(before[i]));
                let k = choose|k: int| 0 <= k < rest.len() && rest[k] == before[i];
                assert(candidates[k] == out[i]);
            } else {
                assert(candidates[candidates.len() - 1] == out[i]);
            }
        }
        if out.len() < max {
            assert forall|i: int| 0 <= i < candidates.len() implies leads_to(
                out,
                (#[trigger] candidates[i]).url,
            ) by {
                if i < rest.len() {
                    assert(rest[i] == candidates[i]);
                    let k = choose|k: int|
                        0 <= k < before.len() && (#[trigger] before[k]).url == rest[i].url;
                    assert(out[k] == before[k]);
                } else if out.len() > before.len() {
                    assert(out[out.len() - 1] == candidates[i]);
                }
            }
        }
    }
}

/// The results, each with the snippet at its own position, where there is one.
pub open spec fn with_snippets(
    results: Seq<SearchResultView>,
    snippets: Seq<Seq<char>>,
) -> Seq<SearchResultView> {
    results.map(
        |i: int, result: SearchResultView|
            SearchResultView {
                snippet: if i < snippets.len() {
                    snippets[i]
                } else {
                    Seq::empty()
                },
                ..result
            },
    )
}

/// The results, each with the snippet at its own position, where there is one.
pub fn attach_snippets(results: &Vec<SearchResult>, snippets: &Vec<String>) -> (r: Vec<
    SearchResult,
>)
    ensures
        text::views(r@) == with_snippets(text::views(results@), text::views(snippets@)),
{
    let ghost wanted = with_snippets(text::views(results@), text::views(snippets@));
    let mut out: Vec<SearchResult> = Vec::new();
    for i in 0..results.len()
        invariant
            wanted == with_snippets(text::views(results@), text::views(snippets@)),
            text::views(out@) == wanted.take(i as int),
    {
        let snippet = if i < snippets.len() {
            snippets[i].clone()
        } else {
            String::new()
        };
        let result = SearchResult {
            title: results[i].title.clone(),
            url: results[i].url.clone(),
            snippet,
        };
        let ghost before = out@;
        out.push(result);
        proof {
            assert(result@ == wanted[i as int]);
            assert(text::views(out@) =~= text::views(before).push(result@));
            assert(wanted.take(i + 1) =~= wanted.take(i as int).push(wanted[i as int]));
        }
    }
    assert(wanted.take(wanted.len() as int) =~= wanted);
    out
}

/// The candidates that lead somewhere, and not to the search engine itself.
pub open spec fn leads_away(candidate: SearchResultView, own: Seq<char>) -> bool {
    candidate.url.len() > 0 && !own.is_prefix_of(candidate.url)
}

// ── DuckDuckGo ──────────────────────────────────────────────────────

/// A result's link on a page of DuckDuckGo: its address and its title.
pub const DDG_LINK: &'static str = r#"class="result__a"[^>]*href="([^"]+)"[^>]*>(.*?)</a>"#;

/// A result's snippet on a page of DuckDuckGo.
pub const DDG_SNIPPET: &'static str = r#"class="result__snippet"[^>]*>(.*?)</a>"#;

/// The address that a redirecting link of DuckDuckGo leads to.
pub const DDG_TARGET: &'static str = r"uddg=([^&]+)";

/// The first group of the first match, when there is one and it took part.
pub open spec fn found_group(pattern: Seq<char>, subject: Seq<char>) -> Option<Seq<char>> {
    match pattern::first_captures(pattern, subject) {
        Some(row) => pattern::group_text(row, 1),
        None => None,
    }
}

fn find_group(pattern: &str, subject: &str) -> (r: Option<String>)
    requires
        pattern::compiles(pattern@),
    ensures
        text::option_view(r) == found_group(pattern@, subject@),
{
    match pattern::captures_first(pattern, subject) {
        Ok(Some(row)) => pattern::group(&row, 1),
        _ => None,
    }
}

/// Where a link of DuckDuckGo leads. `target` is the address in its redirection, if any.
pub open spec fn ddg_address(raw: Seq<char>, target: Option<Seq<char>>) -> Seq<char> {
    match target {
        Some(target) => url_decoded(target),
        None => text::after_prefixes(raw, "//"@),
    }
}

/// Where a link of DuckDuckGo leads. `target` is the address in its redirection, if any.
pub fn ddg_url(raw: &str, target: &Option<String>) -> (r: String)
    ensures
        r@ == ddg_address(raw@, text::option_view(*target)),
{
    proof {
        reveal_strlit("//");
    }
    match target {
        Some(target) => urlencoding_decode(target.as_str()),
        None => text::without_prefixes(raw, "//"),
    }
}

/// The candidate that a link of DuckDuckGo makes.
pub open spec fn ddg_candidate(row: Seq<Option<Seq<char>>>) -> SearchResultView {
    let raw = text::or_empty(pattern::group_text(row, 1));
    SearchResultView {
        title: plain(text::or_empty(pattern::group_text(row, 2))),
        url: ddg_address(raw, found_group(DDG_TARGET@, raw)),
        snippet: Seq::empty(),
    }
}

/// The readable text of a group, where it took part.
pub open spec fn plain_group(group: Option<Seq<char>>) -> Seq<char> {
    match group {
        Some(text) => plain(text),
        None => Seq::empty(),
    }
}

fn strip_group(group: &Option<String>) -> (r: String)
    ensures
        r@ == plain_group(text::option_view(*group)),
{
    match group {
        Some(text) => strip_html(text.as_str()),
        None => String::new(),
    }
}

/// The results on a page of DuckDuckGo: at most `max`, each address once, the n-th with the
/// n-th snippet of the page.
pub open spec fn ddg_results(html: Seq<char>, max: nat) -> Seq<SearchResultView> {
    with_snippets(
        picked(
            pattern::all_captures(DDG_LINK@, html).map_values(
                |row: Seq<Option<Seq<char>>>| ddg_candidate(row),
            ).filter(|candidate: SearchResultView| leads_away(candidate, "duckduckgo.com"@)),
            max,
        ),
        pattern::all_captures(DDG_SNIPPET@, html).map_values(
            |row: Seq<Option<Seq<char>>>| plain_group(pattern::group_text(row, 1)),
        ),
    )
}

fn ddg_candidates(rows: &Vec<Groups>) -> (r: Vec<SearchResult>)
    requires
        pattern::compiles(DDG_TARGET@),
    ensures
        text::views(r@) == pattern::rows(rows@).map_values(
            |row: Seq<Option<Seq<char>>>| ddg_candidate(row),
        ).filter(|candidate: SearchResultView| leads_away(candidate, "duckduckgo.com"@)),
{
    let ghost all = pattern::rows(rows@).map_values(
        |row: Seq<Option<Seq<char>>>| ddg_candidate(row),
    );
    let ghost keep = |candidate: SearchResultView| leads_away(candidate, "duckduckgo.com"@);
    let mut out: Vec<SearchResult> = Vec::new();
    proof {
        reveal(Seq::filter);
        assert(all.take(0) =~= Seq::<SearchResultView>::empty());
        assert(text::views(out@) =~= Seq::<SearchResultView>::empty());
    }
    for i in 0..rows.len()
        invariant
            pattern::compiles(DDG_TARGET@),
            all == pattern::rows(rows@).map_values(
                |row: Seq<Option<Seq<char>>>| ddg_candidate(row),
            ),
            keep == (|candidate: SearchResultView| leads_away(candidate, "duckduckgo.com"@)),
            text::views(out@) == all.take(i as int).filter(keep),
    {
        let raw = text::text_or_empty(&pattern::group(&rows[i], 1));
        let title = strip_html(text::text_or_empty(&pattern::group(&rows[i], 2)).as_str());
        let target = find_group(DDG_TARGET, raw.as_str());
        let url = ddg_url(raw.as_str(), &target);
        let candidate = SearchResult { title, url, snippet: String::new() };
        proof {
            reveal(Seq::filter);
            assert(all.take(i + 1).drop_last() == all.take(i as int));
            assert(candidate@.snippet =~= Seq::<char>::empty());
            assert(all[i as int] == ddg_candidate(pattern::groups(rows@[i as int])));
            assert(candidate@ == all[i as int]);
        }
        if !text::blank(candidate.url.as_str()) && !text::has_prefix(
            candidate.url.as_str(),
            "duckduckgo.com",
        ) {
            let ghost before = out@;
            out.push(candidate);
            assert(text::views(out@) =~= text::views(before).push(candidate@));
        }
    }
    assert(all.take(all.len() as int) == all);
    out
}

fn stripped_groups(rows: &Vec<Groups>) -> (r: Vec<String>)
    ensures
        text::views(r@) == pattern::rows(rows@).map_values(
            |row: Seq<Option<Seq<char>>>| plain_group(pattern::group_text(row, 1)),
        ),
{
    let ghost all = pattern::rows(rows@).map_values(
        |row: Seq<Option<Seq<char>>>| plain_group(pattern::group_text(row, 1)),
    );
    let mut out: Vec<String> = Vec::new();
    for i in 0..rows.len()
        invariant
            all == pattern::rows(rows@).map_values(
                |row: Seq<Option<Seq<char>>>| plain_group(pattern::group_text(row, 1)),
            ),
            text::views(out@) == all.take(i as int),
    {
        let snippet = strip_group(&pattern::group(&rows[i], 1));
        let ghost before = out@;
        out.push(snippet);
        proof {
            assert(all[i as int] == plain_group(
                pattern::group_text(pattern::groups(rows@[i as int]), 1),
            ));
            assert(text::views(out@) =~= text::views(before).push(snippet@));
            assert(all.take(i + 1) =~= all.take(i as int).push(all[i as int]));
        }
    }
    assert(all.take(all.len() as int) =~= all);
    out
}

/// The results on a page of DuckDuckGo: at most `max`, each address once, the n-th with the
/// n-th snippet of the page.
pub fn parse_ddg(html: &str, max: usize) -> (r: Result<Vec<SearchResult>, SearchError>)
    ensures
        answer(r) == if pattern::compiles(DDG_LINK@) && pattern::compiles(DDG_SNIPPET@)
            && pattern::compiles(DDG_TARGET@) {
            Ok::<Seq<SearchResultView>, SearchError>(ddg_results(html@, max as nat))
        } else {
            Err::<Seq<SearchResultView>, SearchError>(SearchError::Pattern)
        },
{
    if pattern::check(DDG_TARGET).is_err() {
        return Err(SearchError::Pattern);
    }
    match (pattern::captures_all(DDG_LINK, html), pattern::captures_all(DDG_SNIPPET, html)) {
        (Ok(links), Ok(snippets)) => {
            let candidates = ddg_candidates(&links);
            let chosen = pick(&candidates, max);
            Ok(attach_snippets(&chosen, &stripped_groups(&snippets)))
        },
        _ => Err(SearchError::Pattern),
    }
}

// ── Bing ────────────────────────────────────────────────────────────

/// Where a result starts on a page of Bing.
pub const BING_BLOCK: &'static str = r#"<li class="b_algo""#;

/// A result's link on a page of Bing: its address and its title.
pub const BING_LINK: &'static str = r#"<h2[^>]*><a[^>]*href="([^"]+)"[^>]*>(.*?)</a>"#;

/// A result's snippet on a page of Bing.
pub const BING_SNIPPET: &'static str = r#"<p[^>]*class="[^"]*b_lineclamp[^"]*"[^>]*>(.*?)</p>"#;

/// The encoded address that a redirecting link of Bing leads to.
pub const BING_TARGET: &'static str = r#"[?&]u=([^&]+)"#;

/// The stretches of a page that start a result each: all but the first, at most twice `max`.
pub open spec fn blocks(pieces: Seq<Seq<char>>, max: nat) -> Seq<Seq<char>> {
    let rest = if pieces.len() == 0 {
        pieces
    } else {
        pieces.drop_first()
    };
    if rest.len() > 2 * max {
        rest.take(2 * max as int)
    } else {
        rest
    }
}

fn block_count(pieces: &Vec<String>, max: usize) -> (r: usize)
    ensures
        r == blocks(text::views(pieces@), max as nat).len(),
{
    if pieces.len() == 0 {
        0
    } else {
        let rest: usize = pieces.len() - 1;
        match max.checked_mul(2) {
            Some(limit) => if rest > limit {
                limit
            } else {
                rest
            },
            None => rest,
        }
    }
}

/// Where a link of Bing leads. `target` is the encoded address in its redirection, if any;
/// the link itself stands where that cannot be decoded.
pub open spec fn bing_address(raw: Seq<char>, target: Option<Seq<char>>) -> Seq<char> {
    match target {
        Some(target) => match base64url_text(target) {
            Some(address) => address,
            None => words::trim(raw),
        },
        None => words::trim(raw),
    }
}

/// Where a link of Bing leads. `target` is the encoded address in its redirection, if any;
/// the link itself stands where that cannot be decoded.
pub fn bing_url(raw: &str, target: &Option<String>) -> (r: String)
    ensures
        r@ == bing_address(raw@, text::option_view(*target)),
{
    match target {
        Some(target) => match base64url_decode(target.as_str()) {
            Some(address) => address,
            None => words::trimmed(raw),
        },
        None => words::trimmed(raw),
    }
}

/// The candidate that a stretch of a page of Bing makes, when it holds a link.
pub open spec fn bing_candidate(block: Seq<char>) -> Option<SearchResultView> {
    match pattern::first_captures(BING_LINK@, block) {
        Some(row) => {
            let raw = text::or_empty(pattern::group_text(row, 1));
            let target = found_group(BING_TARGET@, words::replaced(raw, "&amp;"@, "&"@));
            Some(
                SearchResultView {
                    title: plain(text::or_empty(pattern::group_text(row, 2))),
                    url: bing_address(raw, target),
                    snippet: plain_group(found_group(BING_SNIPPET@, block)),
                },
            )
        },
        None => None,
    }
}

fn bing_result(block: &str) -> (r: Option<SearchResult>)
    requires
        pattern::compiles(BING_LINK@),
        pattern::compiles(BING_SNIPPET@),
        pattern::compiles(BING_TARGET@),
    ensures
        text::option_view(r) == bing_candidate(block@),
{
    proof {
        reveal_strlit("&amp;");
    }
    match pattern::captures_first(BING_LINK, block) {
        Ok(Some(row)) => {
            let raw = text::text_or_empty(&pattern::group(&row, 1));
            let title = strip_html(text::text_or_empty(&pattern::group(&row, 2)).as_str());
            let link = words::replace(raw.as_str(), "&amp;", "&");
            let target = find_group(BING_TARGET, link.as_str());
            let url = bing_url(raw.as_str(), &target);
            let snippet = strip_group(&find_group(BING_SNIPPET, block));
            Some(SearchResult { title, url, snippet })
        },
        _ => None,
    }
}

/// The candidates among some optional ones, in order, that pass a test.
pub open spec fn sifted(
    candidates: Seq<Option<SearchResultView>>,
    keep: spec_fn(SearchResultView) -> bool,
) -> Seq<SearchResultView>
    decreases candidates.len(),
{
    if candidates.len() == 0 {
        Seq::empty()
    } else {
        let rest = sifted(candidates.drop_last(), keep);
        match candidates.last() {
            Some(candidate) => if keep(candidate) {
                rest.push(candidate)
            } else {
                rest
            },
            None => rest,
        }
    }
}

/// The results on a page of Bing: at most `max`, each address once.
pub open spec fn bing_results(html: Seq<char>, max: nat) -> Seq<SearchResultView> {
    picked(
        sifted(
            blocks(pattern::pieces(BING_BLOCK@, html), max).map_values(
                |block: Seq<char>| bing_candidate(block),
            ),
            |candidate: SearchResultView| leads_away(candidate, "bing.com"@),
        ),
        max,
    )
}

/// The results on a page of Bing: at most `max`, each address once.
pub fn parse_bing(html: &str, max: usize) -> (r: Result<Vec<SearchResult>, SearchError>)
    ensures
        answer(r) == if pattern::compiles(BING_BLOCK@) && pattern::compiles(BING_LINK@)
            && pattern::compiles(BING_SNIPPET@) && pattern::compiles(BING_TARGET@) {
            Ok::<Seq<SearchResultView>, SearchError>(bing_results(html@, max as nat))
        } else {
            Err::<Seq<SearchResultView>, SearchError>(SearchError::Pattern)
        },
{
    if pattern::check(BING_LINK).is_err() || pattern::check(BING_SNIPPET).is_err()
        || pattern::check(BING_TARGET).is_err() {
        return Err(SearchError::Pattern);
    }
    let pieces = match pattern::split(BING_BLOCK, html) {
        Ok(pieces) => pieces,
        Err(_) => return Err(SearchError::Pattern),
    };
    let ghost parts = blocks(text::views(pieces@), max as nat);
    let ghost all = parts.map_values(|block: Seq<char>| bing_candidate(block));
    let ghost keep = |candidate: SearchResultView| leads_away(candidate, "bing.com"@);
    let mut candidates: Vec<SearchResult> = Vec::new();
    let count = block_count(&pieces, max);
    assert(all.take(0) =~= Seq::<Option<SearchResultView>>::empty());
    assert(text::views(candidates@) =~= Seq::<SearchResultView>::empty());
    for i in 0..count
        invariant
            pattern::compiles(BING_LINK@),
            pattern::compiles(BING_SNIPPET@),
            pattern::compiles(BING_TARGET@),
            parts == blocks(text::views(pieces@), max as nat),
            all == parts.map_values(|block: Seq<char>| bing_candidate(block)),
            keep == (|candidate: SearchResultView| leads_away(candidate, "bing.com"@)),
            count == parts.len(),
            text::views(candidates@) == sifted(all.take(i as int), keep),
    {
        proof {
            assert(all.take(i + 1).drop_last() == all.take(i as int));
            assert(parts[i as int] == pieces@[i + 1]@);
        }
        if let Some(candidate) = bing_result(pieces[i + 1].as_str()) {
            if !text::blank(candidate.url.as_str()) && !text::has_prefix(
                candidate.url.as_str(),
                "bing.com",
            ) {
                let ghost before = candidates@;
                candidates.push(candidate);
                assert(text::views(candidates@) =~= text::views(before).push(candidate@));
            }
        }
    }
    assert(all.take(all.len() as int) == all);
    Ok(pick(&candidates, max))
}

// ── Brave ───────────────────────────────────────────────────────────

/// Where a result starts on a page of Brave.
pub const BRAVE_BLOCK: &'static str =
    r#"<div class="snippet svelte-jmfu5f" data-pos="\d+" data-type="web""#;

/// A result's title on a page of Brave.
pub const BRAVE_TITLE: &'static str = r#"<div class="title[^"]*"[^>]*title="([^"]+)"[^>]*>"#;

/// A result's address on a page of Brave.
pub const BRAVE_LINK: &'static str = r#"<a href="(https?://[^"]+)"[^>]*class="[^"]*l1[^"]*""#;

/// A result's snippet on a page of Brave.
pub const BRAVE_SNIPPET: &'static str =
    r#"(?s)<div class="content desktop-default-regular[^"]*"[^>]*>(.*?)</div>"#;

/// The candidate that a stretch of a page of Brave makes.
pub open spec fn brave_candidate(block: Seq<char>) -> SearchResultView {
    SearchResultView {
        title: text::or_empty(found_group(BRAVE_TITLE@, block)),
        url: text::or_empty(found_group(BRAVE_LINK@, block)),
        snippet: plain_group(found_group(BRAVE_SNIPPET@, block)),
    }
}

/// A candidate with an address and a title.
pub open spec fn is_whole(candidate: SearchResultView) -> bool {
    candidate.url.len() > 0 && candidate.title.len() > 0
}

/// The results on a page of Brave: at most `max`, each address once.
pub open spec fn brave_results(html: Seq<char>, max: nat) -> Seq<SearchResultView> {
    picked(
        blocks(pattern::pieces(BRAVE_BLOCK@, html), max).map_values(
            |block: Seq<char>| brave_candidate(block),
        ).filter(|candidate: SearchResultView| is_whole(candidate)),
        max,
    )
}

/// The results on a page of Brave: at most `max`, each address once.
pub fn parse_brave(html: &str, max: usize) -> (r: Result<Vec<SearchResult>, SearchError>)
    ensures
        answer(r) == if pattern::compiles(BRAVE_BLOCK@) && pattern::compiles(BRAVE_TITLE@)
            && pattern::compiles(BRAVE_LINK@) && pattern::compiles(BRAVE_SNIPPET@) {
            Ok::<Seq<SearchResultView>, SearchError>(brave_results(html@, max as nat))
        } else {
            Err::<Seq<SearchResultView>, SearchError>(SearchError::Pattern)
        },
{
    if pattern::check(BRAVE_TITLE).is_err() || pattern::check(BRAVE_LINK).is_err()
        || pattern::check(BRAVE_SNIPPET).is_err() {
        return Err(SearchError::Pattern);
    }
    let pieces = match pattern::split(BRAVE_BLOCK, html) {
        Ok(pieces) => pieces,
        Err(_) => return Err(SearchError::Pattern),
    };
    let ghost parts = blocks(text::views(pieces@), max as nat);
    let ghost all = parts.map_values(|block: Seq<char>| brave_candidate(block));
    let ghost keep = |candidate: SearchResultView| is_whole(candidate);
    let mut candidates: Vec<SearchResult> = Vec::new();
    let count = block_count(&pieces, max);
    proof {
        reveal(Seq::filter);
        assert(all.take(0) =~= Seq::<SearchResultView>::empty());
        assert(text::views(candidates@) =~= Seq::<SearchResultView>::empty());
    }
    for i in 0..count
        invariant
            pattern::compiles(BRAVE_TITLE@),
            pattern::compiles(BRAVE_LINK@),
            pattern::compiles(BRAVE_SNIPPET@),
            parts == blocks(text::views(pieces@), max as nat),
            all == parts.map_values(|block: Seq<char>| brave_candidate(block)),
            keep == (|candidate: SearchResultView| is_whole(candidate)),
            count == parts.len(),
            text::views(candidates@) == all.take(i as int).filter(keep),
    {
        proof {
            reveal(Seq::filter);
            assert(all.take(i + 1).drop_last() == all.take(i as int));
            assert(parts[i as int] == pieces@[i + 1]@);
        }
        let block = pieces[i + 1].as_str();
        let candidate = SearchResult {
            title: text::text_or_empty(&find_group(BRAVE_TITLE, block)),
            url: text::text_or_empty(&find_group(BRAVE_LINK, block)),
            snippet: strip_group(&find_group(BRAVE_SNIPPET, block)),
        };
        if !text::blank(candidate.url.as_str()) && !text::blank(candidate.title.as_str()) {
            let ghost before = candidates@;
            candidates.push(candidate);
            assert(text::views(candidates@) =~= text::views(before).push(candidate@));
        }
    }
    assert(all.take(all.len() as int) == all);
    Ok(pick(&candidates, max))
}

// ── backends ────────────────────────────────────────────────────────

/// A search engine.
#[derive(Debug, Clone, Copy, PartialEq, Eq, Structural)]
pub enum Backend {
    DuckDuckGo,
    Bing,
    Brave,
}

/// How requests introduce themselves to DuckDuckGo and Brave.
pub const LINUX_AGENT: &'static str =
    "Mozilla/5.0 (X11; Linux x86_64) AppleWebKit/537.36 (KHTML, like Gecko) Chrome/126.0 Safari/537.36";

/// How requests introduce themselves to Bing.
pub const WINDOWS_AGENT: &'static str =
    "Mozilla/5.0 (Windows NT 10.0; Win64; x64) AppleWebKit/537.36 (KHTML, like Gecko) Chrome/126.0.0.0 Safari/537.36";

/// The languages that results are asked for in.
pub const LANGUAGES: &'static str = "en-US,en;q=0.9";

impl Backend {
    /// The request for the page of results of a query.
    pub open spec fn request_for(self, query: Seq<char>) -> RequestView {
        match self {
            Backend::DuckDuckGo => RequestView {
                url: "https://html.duckduckgo.com/html/"@,
                query: seq![("q"@, query)],
                headers: seq![("User-Agent"@, LINUX_AGENT@)],
            },
            Backend::Bing => RequestView {
                url: "https://www.bing.com/search"@,
                query: seq![("q"@, query), ("count"@, "10"@)],
                headers: seq![("User-Agent"@, WINDOWS_AGENT@), ("Accept-Language"@, LANGUAGES@)],
            },
            Backend::Brave => RequestView {
                url: "https://search.brave.com/search"@,
                query: seq![("q"@, query)],
                headers: seq![("User-Agent"@, LINUX_AGENT@), ("Accept-Language"@, LANGUAGES@)],
            },
        }
    }

    /// The request for the page of results of a query.
    pub fn request(self, query: &str) -> (r: HttpRequest)
        ensures
            r@ == self.request_for(query@),
    {
        let fields = http::with_field(http::no_fields(), "q", query);
        let r = match self {
            Backend::DuckDuckGo => HttpRequest {
                url: "https://html.duckduckgo.com/html/".to_owned(),
                query: fields,
                headers: http::with_field(http::no_fields(), "User-Agent", LINUX_AGENT),
            },
            Backend::Bing => HttpRequest {
                url: "https://www.bing.com/search".to_owned(),
                query: http::with_field(fields, "count", "10"),
                headers: http::with_field(
                    http::with_field(http::no_fields(), "User-Agent", WINDOWS_AGENT),
                    "Accept-Language",
                    LANGUAGES,
                ),
            },
            Backend::Brave => HttpRequest {
                url: "https://search.brave.com/search".to_owned(),
                query: fields,
                headers: http::with_field(
                    http::with_field(http::no_fields(), "User-Agent", LINUX_AGENT),
                    "Accept-Language",
                    LANGUAGES,
                ),
            },
        };
        assert(r@.query =~= self.request_for(query@).query);
        assert(r@.headers =~= self.request_for(query@).headers);
        r
    }

    /// The request that comes before the one for results: Brave hands out the cookies that
    /// it wants to see on its home page.
    pub open spec fn warmup_for(self) -> Option<RequestView> {
        match self {
            Backend::Brave => Some(
                RequestView {
                    url: "https://search.brave.com/"@,
                    query: Seq::empty(),
                    headers: seq![("User-Agent"@, LINUX_AGENT@)],
                },
            ),
            _ => None,
        }
    }

    /// The request that comes before the one for results: Brave hands out the cookies that
    /// it wants to see on its home page.
    pub fn warmup(self) -> (r: Option<HttpRequest>)
        ensures
            text::option_view(r) == self.warmup_for(),
    {
        match self {
            Backend::Brave => {
                let r = HttpRequest {
                    url: "https://search.brave.com/".to_owned(),
                    query: http::no_fields(),
                    headers: http::with_field(http::no_fields(), "User-Agent", LINUX_AGENT),
                };
                assert(r@.headers =~= (self.warmup_for()->0).headers);
                Some(r)
            },
            _ => None,
        }
    }

    /// What a page says when it is a challenge.
    pub open spec fn challenges(self) -> Seq<Seq<char>> {
        match self {
            Backend::DuckDuckGo => seq!["anomaly"@, "challenge-form"@],
            Backend::Bing => seq!["captcha"@, "unusual traffic"@, "verify you're not a robot"@],
            Backend::Brave => seq!["captcha"@, "verify you're not a robot"@, "unusual traffic"@],
        }
    }

    /// Whether the backend's patterns are regular expressions.
    pub open spec fn is_ready(self) -> bool {
        match self {
            Backend::DuckDuckGo => pattern::compiles(DDG_LINK@) && pattern::compiles(DDG_SNIPPET@)
                && pattern::compiles(DDG_TARGET@),
            Backend::Bing => pattern::compiles(BING_BLOCK@) && pattern::compiles(BING_LINK@)
                && pattern::compiles(BING_SNIPPET@) && pattern::compiles(BING_TARGET@),
            Backend::Brave => pattern::compiles(BRAVE_BLOCK@) && pattern::compiles(BRAVE_TITLE@)
                && pattern::compiles(BRAVE_LINK@) && pattern::compiles(BRAVE_SNIPPET@),
        }
    }

    /// The results on a page of the backend.
    pub open spec fn results_on(self, html: Seq<char>, max: nat) -> Seq<SearchResultView> {
        match self {
            Backend::DuckDuckGo => ddg_results(html, max),
            Backend::Bing => bing_results(html, max),
            Backend::Brave => brave_results(html, max),
        }
    }
}

/// The page is a bot or anomaly challenge: one of the markers stands in it, in upper or
/// lower case.
pub open spec fn gated(html: Seq<char>, markers: Seq<Seq<char>>) -> bool {
    exists|i: int|
        0 <= i < markers.len() && text::contains(
            words::ascii_lower(html),
            words::ascii_lower(#[trigger] markers[i]),
        )
}

/// Whether the page is a bot or anomaly challenge rather than a page of results.
pub fn is_bot_gated(html: &str, markers: &[&str]) -> (r: bool)
    ensures
        r == gated(html@, markers@.map_values(|marker: &str| marker@)),
{
    let ghost all = markers@.map_values(|marker: &str| marker@);
    let lower = words::lowered(html);
    for i in 0..markers.len()
        invariant
            all == markers@.map_values(|marker: &str| marker@),
            lower@ == words::ascii_lower(html@),
            forall|j: int|
                0 <= j < i ==> !text::contains(lower@, words::ascii_lower(#[trigger] all[j])),
    {
        let marker = words::lowered(markers[i]);
        assert(all[i as int] == markers@[i as int]@);
        if text::has(lower.as_str(), marker.as_str()) {
            return true;
        }
    }
    false
}

/// What a backend made of a query.
#[derive(Debug)]
pub struct PageReading {
    pub results: Vec<SearchResult>,
    /// There is no result, and the page is a challenge.
    pub gated: bool,
}

/// What the backend's reply to a query says. A page is looked at for a challenge only once it
/// turned out to hold no result: results are never thrown away.
pub open spec fn read_page(backend: Backend, reply: ReplyView, max: nat) -> Result<
    (Seq<SearchResultView>, bool),
    Option<Seq<char>>,
> {
    match reply {
        ReplyView::Failed(message) => Err(Some(message)),
        ReplyView::Answer { status, status_text, content_type, body } => match body {
            Err(message) => Err(Some(message)),
            Ok(html) => if backend.is_ready() {
                let results = backend.results_on(html, max);
                Ok((results, results.len() == 0 && gated(html, backend.challenges())))
            } else {
                Err(None)
            },
        },
    }
}

fn challenged(backend: Backend, html: &str) -> (r: bool)
    ensures
        r == gated(html@, backend.challenges()),
{
    match backend {
        Backend::DuckDuckGo => {
            let markers: [&str; 2] = ["anomaly", "challenge-form"];
            let r = is_bot_gated(html, markers.as_slice());
            assert(markers@.map_values(|marker: &str| marker@) =~= backend.challenges());
            r
        },
        Backend::Bing => {
            let markers: [&str; 3] = ["captcha", "unusual traffic", "verify you're not a robot"];
            let r = is_bot_gated(html, markers.as_slice());
            assert(markers@.map_values(|marker: &str| marker@) =~= backend.challenges());
            r
        },
        Backend::Brave => {
            let markers: [&str; 3] = ["captcha", "verify you're not a robot", "unusual traffic"];
            let r = is_bot_gated(html, markers.as_slice());
            assert(markers@.map_values(|marker: &str| marker@) =~= backend.challenges());
            r
        },
    }
}

/// What the backend's reply to a query says.
pub fn read_reply(backend: Backend, reply: HttpReply, max: usize) -> (r: Result<
    PageReading,
    SearchError,
>)
    ensures
        match read_page(backend, reply@, max as nat) {
            Ok(page) => r matches Ok(reading) && text::views(reading.results@) == page.0
                && reading.gated == page.1,
            Err(Some(message)) => r matches Err(SearchError::Transport(error)) && error@ == message,
            Err(None) => r matches Err(SearchError::Pattern),
        },
{
    match reply {
        HttpReply::Failed(message) => Err(SearchError::Transport(message)),
        HttpReply::Answer { status, status_text, content_type, body } => match body {
            Err(message) => Err(SearchError::Transport(message)),
            Ok(html) => {
                let parsed = match backend {
                    Backend::DuckDuckGo => parse_ddg(html.as_str(), max),
                    Backend::Bing => parse_bing(html.as_str(), max),
                    Backend::Brave => parse_brave(html.as_str(), max),
                };
                match parsed {
                    Ok(results) => {
                        let gated = results.len() == 0 && challenged(backend, html.as_str());
                        Ok(PageReading { results, gated })
                    },
                    Err(_) => Err(SearchError::Pattern),
                }
            },
        },
    }
}

/// A page with results is never taken for a challenge, whatever else stands in it: all its
/// results are handed on.
pub proof fn results_are_never_discarded(
    backend: Backend,
    html: Seq<char>,
    status: u16,
    status_text: Seq<char>,
    content_type: Seq<char>,
    max: nat,
)
    requires
        backend.is_ready(),
        backend.results_on(html, max).len() > 0,
    ensures
        read_page(
            backend,
            ReplyView::Answer { status, status_text, content_type, body: Ok(html) },
            max,
        ) == Ok::<(Seq<SearchResultView>, bool), Option<Seq<char>>>(
            (backend.results_on(html, max), false),
        ),
{
}

// ── the sweep over the backends ─────────────────────────────────────

/// How often the backends are tried in turn.
pub const SWEEPS: usize = 3;

/// The seconds between two sweeps.
pub const PAUSE_SECS: u64 = 2;

/// Where a query stands.
#[derive(Debug)]
pub enum Sweep {
    /// The backend is to be asked, in the sweep with this number (from 0 on).
    Asking { sweep: usize, backend: Backend },
    /// The query is over, with these results.
    Done { results: Vec<SearchResult> },
}

/// Where a query stands, with its results as their views.
pub enum SweepView {
    Asking { sweep: nat, backend: Backend },
    Done { results: Seq<SearchResultView> },
}

impl View for Sweep {
    type V = SweepView;

    open spec fn view(&self) -> SweepView {
        match *self {
            Sweep::Asking { sweep, backend } => SweepView::Asking { sweep: sweep as nat, backend },
            Sweep::Done { results } => SweepView::Done { results: text::views(results@) },
        }
    }
}

/// A query at its start.
pub open spec fn first_ask() -> SweepView {
    SweepView::Asking { sweep: 0, backend: Backend::DuckDuckGo }
}

/// Where a query stands after a backend gave these results; none, when it failed. The first
/// results end it; the last backend of the last sweep ends it too.
pub open spec fn after_answer(state: SweepView, results: Seq<SearchResultView>) -> SweepView {
    match state {
        SweepView::Done { .. } => state,
        SweepView::Asking { sweep, backend } => if results.len() > 0 {
            SweepView::Done { results }
        } else {
            match backend {
                Backend::DuckDuckGo => SweepView::Asking { sweep, backend: Backend::Bing },
                Backend::Bing => SweepView::Asking { sweep, backend: Backend::Brave },
                Backend::Brave => if sweep + 1 < SWEEPS {
                    SweepView::Asking { sweep: sweep + 1, backend: Backend::DuckDuckGo }
                } else {
                    SweepView::Done { results: Seq::empty() }
                },
            }
        },
    }
}

impl Sweep {
    /// A query at its start.
    pub fn start() -> (r: Sweep)
        ensures
            r@ == first_ask(),
    {
        Sweep::Asking { sweep: 0, backend: Backend::DuckDuckGo }
    }

    /// Where the query stands after a backend gave these results; none, when it failed.
    pub fn answered(self, results: Vec<SearchResult>) -> (r: Sweep)
        ensures
            r@ == after_answer(self@, text::views(results@)),
    {
        match self {
            Sweep::Done { results } => Sweep::Done { results },
            Sweep::Asking { sweep, backend } => if results.len() > 0 {
                Sweep::Done { results }
            } else {
                match backend {
                    Backend::DuckDuckGo => Sweep::Asking { sweep, backend: Backend::Bing },
                    Backend::Bing => Sweep::Asking { sweep, backend: Backend::Brave },
                    Backend::Brave => if sweep < SWEEPS - 1 {
                        Sweep::Asking { sweep: sweep + 1, backend: Backend::DuckDuckGo }
                    } else {
                        let none: Vec<SearchResult> = Vec::new();
                        assert(text::views(none@) =~= Seq::<SearchResultView>::empty());
                        Sweep::Done { results: none }
                    },
                }
            },
        }
    }

    /// Whether a pause comes before the next request: between two sweeps.
    pub fn pauses(&self) -> (r: bool)
        ensures
            r == (self@ matches SweepView::Asking { sweep, backend } && sweep > 0 && backend
                == Backend::DuckDuckGo),
    {
        match self {
            Sweep::Asking { sweep, backend } => *sweep > 0 && *backend == Backend::DuckDuckGo,
            Sweep::Done { .. } => false,
        }
    }
}

/// Where a query stands after these answers.
pub open spec fn after_answers(answers: Seq<Seq<SearchResultView>>) -> SweepView
    decreases answers.len(),
{
    if answers.len() == 0 {
        first_ask()
    } else {
        after_answer(after_answers(answers.drop_last()), answers.last())
    }
}

/// The backend that the n-th request of a query goes to.
pub open spec fn nth_backend(n: nat) -> Backend {
    if n % 3 == 0 {
        Backend::DuckDuckGo
    } else if n % 3 == 1 {
        Backend::Bing
    } else {
        Backend::Brave
    }
}

/// While every answer is empty, a query goes through DuckDuckGo, Bing and Brave in turn, as
/// often as there are sweeps, and then ends without results.
pub proof fn empty_answers_are_retried(answers: Seq<Seq<SearchResultView>>)
    requires
        forall|i: int| 0 <= i < answers.len() ==> (#[trigger] answers[i]).len() == 0,
    ensures
        answers.len() < 3 * SWEEPS ==> after_answers(answers) == (SweepView::Asking {
            sweep: answers.len() / 3,
            backend: nth_backend(answers.len()),
        }),
        answers.len() >= 3 * SWEEPS ==> after_answers(answers) == (SweepView::Done {
            results: Seq::empty(),
        }),
    decreases answers.len(),
{
    if answers.len() > 0 {
        empty_answers_are_retried(answers.drop_last());
        assert(answers[answers.len() - 1].len() == 0);
    }
}

/// The first results that come back are the ones a query ends with, whatever would follow.
pub proof fn first_results_are_kept(answers: Seq<Seq<SearchResultView>>, first: int)
    requires
        0 <= first < answers.len(),
        first < 3 * SWEEPS,
        answers[first].len() > 0,
        forall|i: int| 0 <= i < first ==> (#[trigger] answers[i]).len() == 0,
    ensures
        after_answers(answers) == (SweepView::Done { results: answers[first] }),
    decreases answers.len(),
{
    if first == answers.len() - 1 {
        empty_answers_are_retried(answers.drop_last());
    } else {
        first_results_are_kept(answers.drop_last(), first);
    }
}

// ── what a page holds is what is found ──────────────────────────────

/// Results once chosen stay chosen, whatever follows, and the first candidate is the first
/// result.
pub proof fn first_candidates_come_first(candidates: Seq<SearchResultView>, max: nat, n: int)
    requires
        0 <= n <= candidates.len(),
    ensures
        picked(candidates.take(n), max).is_prefix_of(picked(candidates, max)),
        n > 0 && max > 0 ==> picked(candidates, max).len() > 0 && picked(candidates, max)[0]
            == candidates[0],
    decreases candidates.len(),
{
    if n < candidates.len() {
        let rest = candidates.drop_last();
        first_candidates_come_first(rest, max, n);
        assert(rest.take(n) =~= candidates.take(n));
    } else {
        assert(candidates.take(n) =~= candidates);
        if n > 1 {
            let rest = candidates.drop_last();
            first_candidates_come_first(rest, max, n - 1);
        }
    }
}

proof fn sifting_loses_nothing(
    candidates: Seq<Option<SearchResultView>>,
    keep: spec_fn(SearchResultView) -> bool,
)
    ensures
        forall|i: int|
            0 <= i < candidates.len() && (#[trigger] candidates[i]) is Some && keep(
                candidates[i]->0,
            ) ==> sifted(candidates, keep).contains(candidates[i]->0),
        forall|k: int|
            0 <= k < sifted(candidates, keep).len() ==> keep(
                #[trigger] sifted(candidates, keep)[k],
            ) && candidates.contains(Some(sifted(candidates, keep)[k])),
    decreases candidates.len(),
{
    if candidates.len() > 0 {
        let rest = candidates.drop_last();
        sifting_loses_nothing(rest, keep);
        let before = sifted(rest, keep);
        let out = sifted(candidates, keep);
        assert forall|i: int|
            0 <= i < candidates.len() && (#[trigger] candidates[i]) is Some && keep(
                candidates[i]->0,
            ) implies out.contains(candidates[i]->0) by {
            if i < rest.len() {
                assert(rest[i] == candidates[i]);
                let k = choose|k: int| 0 <= k < before.len() && before[k] == rest[i]->0;
                assert(out[k] == before[k]);
            } else {
                assert(out[out.len() - 1] == candidates[i]->0);
            }
        }
        assert forall|k: int| 0 <= k < out.len() implies keep(#[trigger] out[k])
            && candidates.contains(Some(out[k])) by {
            if k < before.len() {
                assert(out[k] == before[k]);
                let i = choose|i: int| 0 <= i < rest.len() && rest[i] == Some(before[k]);
                assert(candidates[i] == Some(out[k]));
            } else {
                assert(candidates[candidates.len() - 1] == Some(out[k]));
            }
        }
    }
}

/// Of the links on a page of Bing, in the stretches behind the first, up to twice `max` of
/// them, that lead away from Bing, each address is among the results as long as there is
/// room; there are at most `max` results, no two to one address, and each is such a link.
pub proof fn bing_pages_are_read_whole(html: Seq<char>, max: nat)
    ensures
        ({
            let stretches = pattern::pieces(BING_BLOCK@, html);
            let results = bing_results(html, max);
            &&& results.len() <= max
            &&& results.len() < max ==> forall|i: int|
                1 <= i < stretches.len() && i <= 2 * max ==> (bing_candidate(
                    #[trigger] stretches[i],
                ) matches Some(link) ==> (link.url.len() > 0 && !"bing.com"@.is_prefix_of(link.url)
                    ==> leads_to(results, link.url)))
            &&& forall|k: int|
                0 <= k < results.len() ==> {
                    let result = #[trigger] results[k];
                    result.url.len() > 0 && !"bing.com"@.is_prefix_of(result.url) && exists|i: int|
                        1 <= i < stretches.len() && i <= 2 * max && bing_candidate(
                            #[trigger] stretches[i],
                        ) == Some(result)
                }
            &&& forall|j: int, k: int|
                0 <= j < k < results.len() ==> (#[trigger] results[j]).url != (
                #[trigger] results[k]).url
        }),
{
    let stretches = pattern::pieces(BING_BLOCK@, html);
    let parts = blocks(stretches, max);
    let made = parts.map_values(|block: Seq<char>| bing_candidate(block));
    let keep = |candidate: SearchResultView| leads_away(candidate, "bing.com"@);
    let kept = sifted(made, keep);
    let results = bing_results(html, max);
    sifting_loses_nothing(made, keep);
    picks_are_distinct(kept, max);
    assert(results == picked(kept, max));
    assert forall|i: int| 0 <= i < parts.len() implies #[trigger] parts[i] == stretches[i + 1] by {
    }
    if results.len() < max {
        assert forall|i: int| 1 <= i < stretches.len() && i <= 2 * max implies (bing_candidate(
            #[trigger] stretches[i],
        ) matches Some(link) ==> (link.url.len() > 0 && !"bing.com"@.is_prefix_of(link.url)
            ==> leads_to(results, link.url))) by {
            if let Some(link) = bing_candidate(stretches[i]) {
                if link.url.len() > 0 && !"bing.com"@.is_prefix_of(link.url) {
                    assert(parts[i - 1] == stretches[i]);
                    assert(made[i - 1] == Some(link));
                    let k = choose|k: int| 0 <= k < kept.len() && kept[k] == link;
                    assert(leads_to(results, kept[k].url));
                }
            }
        }
    }
    assert forall|k: int| 0 <= k < results.len() implies {
        let result = #[trigger] results[k];
        result.url.len() > 0 && !"bing.com"@.is_prefix_of(result.url) && exists|i: int|
            1 <= i < stretches.len() && i <= 2 * max && bing_candidate(#[trigger] stretches[i])
                == Some(result)
    } by {
        let result = results[k];
        assert(kept.contains(result));
        let m = choose|m: int| 0 <= m < kept.len() && kept[m] == result;
        assert(keep(kept[m]));
        let n = choose|n: int| 0 <= n < made.len() && made[n] == Some(kept[m]);
        assert(parts[n] == stretches[n + 1]);
        assert(bing_candidate(stretches[n + 1]) == Some(result));
    }
}

/// Of the stretches of a page of Brave behind the first, up to twice `max` of them, that hold
/// an address and a title, each address is among the results as long as there is room; there
/// are at most `max` results, no two to one address, and each is such a stretch.
pub proof fn brave_pages_are_read_whole(html: Seq<char>, max: nat)
    ensures
        ({
            let stretches = pattern::pieces(BRAVE_BLOCK@, html);
            let results = brave_results(html, max);
            &&& results.len() <= max
            &&& results.len() < max ==> forall|i: int|
                1 <= i < stretches.len() && i <= 2 * max && brave_candidate(
                    #[trigger] stretches[i],
                ).url.len() > 0 && brave_candidate(stretches[i]).title.len() > 0 ==> leads_to(
                    results,
                    brave_candidate(stretches[i]).url,
                )
            &&& forall|k: int|
                0 <= k < results.len() ==> {
                    let result = #[trigger] results[k];
                    result.url.len() > 0 && result.title.len() > 0 && exists|i: int|
                        1 <= i < stretches.len() && i <= 2 * max && brave_candidate(
                            #[trigger] stretches[i],
                        ) == result
                }
            &&& forall|j: int, k: int|
                0 <= j < k < results.len() ==> (#[trigger] results[j]).url != (
                #[trigger] results[k]).url
        }),
{
    let stretches = pattern::pieces(BRAVE_BLOCK@, html);
    let parts = blocks(stretches, max);
    let made = parts.map_values(|block: Seq<char>| brave_candidate(block));
    let keep = |candidate: SearchResultView| is_whole(candidate);
    let kept = made.filter(keep);
    let results = brave_results(html, max);
    picks_are_distinct(kept, max);
    assert(results == picked(kept, max));
    assert forall|i: int| 0 <= i < parts.len() implies #[trigger] parts[i] == stretches[i + 1] by {
    }
    if results.len() < max {
        assert forall|i: int|
            1 <= i < stretches.len() && i <= 2 * max && brave_candidate(
                #[trigger] stretches[i],
            ).url.len() > 0 && brave_candidate(stretches[i]).title.len() > 0 implies leads_to(
            results,
            brave_candidate(stretches[i]).url,
        ) by {
            assert(parts[i - 1] == stretches[i]);
            assert(made[i - 1] == brave_candidate(stretches[i]));
            made.lemma_filter_contains(keep, i - 1);
            let k = choose|k: int| 0 <= k < kept.len() && kept[k] == made[i - 1];
            assert(leads_to(results, kept[k].url));
        }
    }
    assert forall|k: int| 0 <= k < results.len() implies {
        let result = #[trigger] results[k];
        result.url.len() > 0 && result.title.len() > 0 && exists|i: int|
            1 <= i < stretches.len() && i <= 2 * max && brave_candidate(#[trigger] stretches[i])
                == result
    } by {
        let result = results[k];
        assert(kept.contains(result));
        let m = choose|m: int| 0 <= m < kept.len() && kept[m] == result;
        made.lemma_filter_pred(keep, m);
        made.lemma_filter_contains_rev(keep, kept[m]);
        let n = choose|n: int| 0 <= n < made.len() && made[n] == kept[m];
        assert(parts[n] == stretches[n + 1]);
        assert(brave_candidate(stretches[n + 1]) == result);
    }
}

/// Of the links on a page of DuckDuckGo that lead away from it, each address is among the
/// results as long as there is room; there are at most `max` results, no two to one address,
/// and each has the address and the title of such a link.
pub proof fn ddg_pages_are_read_whole(html: Seq<char>, max: nat)
    ensures
        ({
            let links = pattern::all_captures(DDG_LINK@, html);
            let results = ddg_results(html, max);
            &&& results.len() <= max
            &&& results.len() < max ==> forall|i: int|
                0 <= i < links.len() && ddg_candidate(#[trigger] links[i]).url.len() > 0
                    && !"duckduckgo.com"@.is_prefix_of(ddg_candidate(links[i]).url) ==> leads_to(
                    results,
                    ddg_candidate(links[i]).url,
                )
            &&& forall|k: int|
                0 <= k < results.len() ==> {
                    let result = #[trigger] results[k];
                    result.url.len() > 0 && !"duckduckgo.com"@.is_prefix_of(result.url) && exists|
                        i: int,
                    |
                        0 <= i < links.len() && ddg_candidate(#[trigger] links[i]).url == result.url
                            && ddg_candidate(links[i]).title == result.title
                }
            &&& forall|j: int, k: int|
                0 <= j < k < results.len() ==> (#[trigger] results[j]).url != (
                #[trigger] results[k]).url
        }),
{
    let links = pattern::all_captures(DDG_LINK@, html);
    let made = links.map_values(|row: Seq<Option<Seq<char>>>| ddg_candidate(row));
    let keep = |candidate: SearchResultView| leads_away(candidate, "duckduckgo.com"@);
    let kept = made.filter(keep);
    let chosen = picked(kept, max);
    let results = ddg_results(html, max);
    picks_are_distinct(kept, max);
    assert(results.len() == chosen.len());
    assert forall|k: int| 0 <= k < results.len() implies (#[trigger] results[k]).url
        == chosen[k].url && results[k].title == chosen[k].title by {
    }
    if results.len() < max {
        assert forall|i: int|
            0 <= i < links.len() && ddg_candidate(#[trigger] links[i]).url.len() > 0
                && !"duckduckgo.com"@.is_prefix_of(ddg_candidate(links[i]).url) implies leads_to(
            results,
            ddg_candidate(links[i]).url,
        ) by {
            assert(made[i] == ddg_candidate(links[i]));
            made.lemma_filter_contains(keep, i);
            let k = choose|k: int| 0 <= k < kept.len() && kept[k] == made[i];
            assert(leads_to(chosen, kept[k].url));
            let m = choose|m: int|
                0 <= m < chosen.len() && (#[trigger] chosen[m]).url == kept[k].url;
            assert(results[m].url == chosen[m].url);
        }
    }
    assert forall|k: int| 0 <= k < results.len() implies {
        let result = #[trigger] results[k];
        result.url.len() > 0 && !"duckduckgo.com"@.is_prefix_of(result.url) && exists|i: int|
            0 <= i < links.len() && ddg_candidate(#[trigger] links[i]).url == result.url
                && ddg_candidate(links[i]).title == result.title
    } by {
        assert(results[k].url == chosen[k].url);
        assert(kept.contains(chosen[k]));
        let m = choose|m: int| 0 <= m < kept.len() && kept[m] == chosen[k];
        made.lemma_filter_pred(keep, m);
        made.lemma_filter_contains_rev(keep, kept[m]);
        let n = choose|n: int| 0 <= n < made.len() && made[n] == kept[m];
        assert(made[n] == ddg_candidate(links[n]));
    }
    assert forall|j: int, k: int| 0 <= j < k < results.len() implies (#[trigger] results[j]).url
        != (#[trigger] results[k]).url by {
        assert(results[j].url == chosen[j].url);
        assert(results[k].url == chosen[k].url);
    }
}

/// A link of Bing makes a candidate of its title, of where it leads, and of the snippet
/// beside it: to the address in its redirection, or to the link itself.
pub proof fn bing_links_are_read(
    block: Seq<char>,
    row: Seq<Option<Seq<char>>>,
    link: Seq<char>,
    title: Seq<char>,
)
    requires
        pattern::first_captures(BING_LINK@, block) == Some(row),
        pattern::group_text(row, 1) == Some(link),
        pattern::group_text(row, 2) == Some(title),
    ensures
        ({
            let target = found_group(BING_TARGET@, words::replaced(link, "&amp;"@, "&"@));
            let made = bing_candidate(block)->0;
            &&& bing_candidate(block) is Some
            &&& made.title == plain(title)
            &&& target is None ==> made.url == words::trim(link)
            &&& target matches Some(code) ==> (base64url_text(code) matches Some(address)
                ==> made.url == address)
            &&& target matches Some(code) ==> base64url_text(code) is None ==> made.url
                == words::trim(link)
            &&& found_group(BING_SNIPPET@, block) matches Some(snippet) ==> made.snippet == plain(
                snippet,
            )
            &&& found_group(BING_SNIPPET@, block) is None ==> made.snippet.len() == 0
        }),
{
}

/// A link of DuckDuckGo makes a candidate of its title and of where it leads: to the decoded
/// address in its redirection, or to the link itself.
pub proof fn ddg_links_are_read(row: Seq<Option<Seq<char>>>, link: Seq<char>, title: Seq<char>)
    requires
        pattern::group_text(row, 1) == Some(link),
        pattern::group_text(row, 2) == Some(title),
    ensures
        ddg_candidate(row).title == plain(title),
        found_group(DDG_TARGET@, link) matches Some(target) ==> ddg_candidate(row).url
            == url_decoded(target),
        found_group(DDG_TARGET@, link) is None && !"//"@.is_prefix_of(link) ==> ddg_candidate(
            row,
        ).url == link,
{
}

/// A link without a scheme leads to what stands behind its slashes.
pub proof fn slashes_are_left_out(link: Seq<char>)
    requires
        !"//"@.is_prefix_of(link),
    ensures
        ddg_address("//"@ + link, None) == link,
        ddg_address(link, None) == link,
{
    reveal_strlit("//");
    let whole = "//"@ + link;
    assert("//"@.is_prefix_of(whole));
    assert(whole.skip("//"@.len() as int) =~= link);
    assert(text::after_prefixes(link, "//"@) == link);
    assert(text::after_prefixes(whole, "//"@) == text::after_prefixes(link, "//"@));
}

/// The parts of a stretch of a page of Brave are read into their own places.
pub proof fn brave_blocks_are_read(block: Seq<char>)
    ensures
        found_group(BRAVE_TITLE@, block) matches Some(title) ==> brave_candidate(block).title
            == title,
        found_group(BRAVE_LINK@, block) matches Some(link) ==> brave_candidate(block).url == link,
        found_group(BRAVE_SNIPPET@, block) matches Some(snippet) ==> brave_candidate(block).snippet
            == plain(snippet),
        found_group(BRAVE_TITLE@, block) is None || found_group(BRAVE_LINK@, block) is None
            ==> !is_whole(brave_candidate(block)),
{
}

/// The n-th result gets the n-th snippet and keeps its title and its address; those behind
/// the last snippet get none.
pub proof fn snippets_go_by_position(
    results: Seq<SearchResultView>,
    snippets: Seq<Seq<char>>,
    i: int,
)
    requires
        0 <= i < results.len(),
    ensures
        with_snippets(results, snippets).len() == results.len(),
        with_snippets(results, snippets)[i].title == results[i].title,
        with_snippets(results, snippets)[i].url == results[i].url,
        i < snippets.len() ==> with_snippets(results, snippets)[i].snippet == snippets[i],
        i >= snippets.len() ==> with_snippets(results, snippets)[i].snippet.len() == 0,
{
}

/// Every backend is asked for the query, each at its own address.
pub proof fn backends_are_asked_for_the_query(backend: Backend, query: Seq<char>)
    ensures
        backend.request_for(query).query.len() > 0,
        backend.request_for(query).query[0] == ("q"@, query),
        Backend::DuckDuckGo.request_for(query).url == "https://html.duckduckgo.com/html/"@,
        Backend::Bing.request_for(query).url == "https://www.bing.com/search"@,
        Backend::Brave.request_for(query).url == "https://search.brave.com/search"@,
{
}

/// Each backend's page is read by its own rules, and a page that failed to come is an error
/// with its reason.
pub proof fn pages_are_read_by_their_backend(html: Seq<char>, max: nat, message: Seq<char>)
    ensures
        Backend::DuckDuckGo.results_on(html, max) == ddg_results(html, max),
        Backend::Bing.results_on(html, max) == bing_results(html, max),
        Backend::Brave.results_on(html, max) == brave_results(html, max),
        forall|backend: Backend|
            #[trigger] read_page(backend, ReplyView::Failed(message), max) == Err::<
                (Seq<SearchResultView>, bool),
                Option<Seq<char>>,
            >(Some(message)),
{
}

/// A page that holds one of the markers, in whatever case, is a challenge.
pub proof fn challenges_are_recognised(
    html: Seq<char>,
    markers: Seq<Seq<char>>,
    i: int,
    at: int,
)
    requires
        0 <= i < markers.len(),
        0 <= at,
        at + markers[i].len() <= html.len(),
        forall|k: int|
            0 <= k < markers[i].len() ==> words::ascii_lower_char(#[trigger] html[at + k])
                == words::ascii_lower_char(markers[i][k]),
    ensures
        gated(html, markers),
{
    let page = words::ascii_lower(html);
    let marker = words::ascii_lower(markers[i]);
    assert forall|k: int| 0 <= k < marker.len() implies page[at + k] == marker[k] by {
        assert(words::ascii_lower_char(html[at + k]) == words::ascii_lower_char(markers[i][k]));
    }
    assert(page.subrange(at, at + marker.len()) =~= marker);
    assert(text::occurs_at(page, marker, at));
}

/// The hexadecimal digit for a value below sixteen.
pub open spec fn hex_digit_for(value: nat) -> u8 {
    if value < 10 {
        (0x30 + value) as u8
    } else {
        (0x41 + value - 10) as u8
    }
}

/// The bytes, each written as a percent sign and two hexadecimal digits.
pub open spec fn percent_encoded(bytes: Seq<u8>) -> Seq<u8>
    decreases bytes.len(),
{
    if bytes.len() == 0 {
        bytes
    } else {
        seq![
            0x25u8,
            hex_digit_for((bytes[0] / 16) as nat),
            hex_digit_for((bytes[0] % 16) as nat),
        ] + percent_encoded(bytes.drop_first())
    }
}

/// Bytes that were percent-encoded come back.
pub proof fn encoded_bytes_come_back(bytes: Seq<u8>)
    ensures
        percent_decoded(percent_encoded(bytes)) == bytes,
    decreases bytes.len(),
{
    if bytes.len() > 0 {
        let rest = bytes.drop_first();
        encoded_bytes_come_back(rest);
        let code = percent_encoded(bytes);
        assert(code.skip(3) =~= percent_encoded(rest));
        let high = bytes[0] / 16;
        let low = bytes[0] % 16;
        assert(high < 16 && low < 16 && high * 16 + low == bytes[0]);
        assert(hex_value(code[1]) == Some(high as u8));
        assert(hex_value(code[2]) == Some(low as u8));
        assert(hex_pair(code[1], code[2]) == Some(bytes[0]));
        assert(percent_decoded(code) =~= seq![bytes[0]] + rest);
        assert(seq![bytes[0]] + rest =~= bytes);
    }
}

/// The marker before an encoded address is no part of it.
pub proof fn markers_are_left_out(code: Seq<char>)
    ensures
        payload("a1"@ + code) == code,
        !"a1"@.is_prefix_of(code) ==> payload(code) == code,
{
    assert("a1"@.is_prefix_of("a1"@ + code));
    assert(("a1"@ + code).skip("a1"@.len() as int) =~= code);
}

/// A text without an ampersand has no character references: it stays as it is.
pub proof fn texts_without_references_stay(text: Seq<char>)
    requires
        forall|i: int| 0 <= i < text.len() ==> #[trigger] text[i] != '&',
    ensures
        unescaped(text) == text,
{
    reveal_strlit("&amp;");
    reveal_strlit("&lt;");
    reveal_strlit("&gt;");
    reveal_strlit("&quot;");
    reveal_strlit("&#x27;");
    reveal_strlit("&#39;");
    reveal_strlit("&nbsp;");
    let none = Seq::<char>::empty();
    words::copies_are_replaced(text, "&amp;"@, "&"@, none);
    words::copies_are_replaced(text, "&lt;"@, "<"@, none);
    words::copies_are_replaced(text, "&gt;"@, ">"@, none);
    words::copies_are_replaced(text, "&quot;"@, "\""@, none);
    words::copies_are_replaced(text, "&#x27;"@, "'"@, none);
    words::copies_are_replaced(text, "&#39;"@, "'"@, none);
    words::copies_are_replaced(text, "&nbsp;"@, " "@, none);
}

/// Each backend's own challenges are recognised, and only Brave is warmed up.
pub proof fn backends_have_their_challenges()
    ensures
        Backend::DuckDuckGo.challenges().contains("anomaly"@),
        Backend::DuckDuckGo.challenges().contains("challenge-form"@),
        Backend::Bing.challenges().contains("captcha"@),
        Backend::Bing.challenges().contains("unusual traffic"@),
        Backend::Brave.challenges().contains("captcha"@),
        Backend::Brave.challenges().contains("unusual traffic"@),
        Backend::Brave.warmup_for() matches Some(request) && request.url
            == "https://search.brave.com/"@,
        Backend::Bing.warmup_for() is None,
        Backend::DuckDuckGo.warmup_for() is None,
{
    assert(Backend::DuckDuckGo.challenges()[0] == "anomaly"@);
    assert(Backend::DuckDuckGo.challenges()[1] == "challenge-form"@);
    assert(Backend::Bing.challenges()[0] == "captcha"@);
    assert(Backend::Bing.challenges()[1] == "unusual traffic"@);
    assert(Backend::Brave.challenges()[0] == "captcha"@);
    assert(Backend::Brave.challenges()[2] == "unusual traffic"@);
}

/// A page without results is a challenge exactly where it says so.
pub proof fn empty_pages_are_told_apart(
    backend: Backend,
    html: Seq<char>,
    status: u16,
    status_text: Seq<char>,
    content_type: Seq<char>,
    max: nat,
)
    requires
        backend.is_ready(),
        backend.results_on(html, max).len() == 0,
    ensures
        read_page(
            backend,
            ReplyView::Answer { status, status_text, content_type, body: Ok(html) },
            max,
        ) matches Ok(reading) && reading.0.len() == 0 && reading.1 == gated(
            html,
            backend.challenges(),
        ),
{
}

} // verus!
