//! Scopus (Elsevier): the requests of its search, its entries, and abstracts from CrossRef.

use vstd::prelude::*;

use crate::http;
use crate::http::{HttpReply, HttpRequest, ReplyView, RequestView};
use crate::number;
use crate::text;
use crate::words;

verus! {

/// A paper.
#[derive(Debug)]
pub struct ScopusPaper {
    pub eid: String,
    pub scopus_id: String,
    pub doi: Option<String>,
    pub title: String,
    pub creators: Vec<String>,
    pub journal: Option<String>,
    pub year: Option<String>,
    pub citedby: i64,
    pub url: String,
    /// The abstract that CrossRef has for the DOI; may be empty.
    pub abstract_text: String,
}

/// A paper with its texts as sequences of characters.
pub struct ScopusPaperView {
    pub eid: Seq<char>,
    pub scopus_id: Seq<char>,
    pub doi: Option<Seq<char>>,
    pub title: Seq<char>,
    pub creators: Seq<Seq<char>>,
    pub journal: Option<Seq<char>>,
    pub year: Option<Seq<char>>,
    pub citedby: i64,
    pub url: Seq<char>,
    pub abstract_text: Seq<char>,
}

impl View for ScopusPaper {
    type V = ScopusPaperView;

    open spec fn view(&self) -> ScopusPaperView {
        ScopusPaperView {
            eid: self.eid@,
            scopus_id: self.scopus_id@,
            doi: text::option_view(self.doi),
            title: self.title@,
            creators: text::views(self.creators@),
            journal: text::option_view(self.journal),
            year: text::option_view(self.year),
            citedby: self.citedby,
            url: self.url@,
            abstract_text: self.abstract_text@,
        }
    }
}

impl Clone for ScopusPaper {
    fn clone(&self) -> (copy: Self)
        ensures
            copy@ == self@,
    {
        ScopusPaper {
            eid: self.eid.clone(),
            scopus_id: self.scopus_id.clone(),
            doi: text::copy_option(&self.doi),
            title: self.title.clone(),
            creators: text::copy_texts(&self.creators),
            journal: text::copy_option(&self.journal),
            year: text::copy_option(&self.year),
            citedby: self.citedby,
            url: self.url.clone(),
            abstract_text: self.abstract_text.clone(),
        }
    }
}

// ── requests ────────────────────────────────────────────────────────

/// The request that searches for `query`.
pub open spec fn search_request_for(api_key: Seq<char>, query: Seq<char>, max: nat) -> RequestView {
    RequestView {
        url: "https://api.elsevier.com/content/search/scopus"@,
        query: seq![("query"@, query), ("count"@, number::decimal(max))],
        headers: seq![("X-ELS-APIKey"@, api_key), ("Accept"@, "application/json"@)],
    }
}

/// The request that searches for `query`.
pub fn search_request(api_key: &str, query: &str, max: usize) -> (r: HttpRequest)
    ensures
        r@ == search_request_for(api_key@, query@, max as nat),
{
    let fields = http::with_field(http::no_fields(), "query", query);
    let fields = http::with_field(fields, "count", number::decimal_of(max as u128).as_str());
    let headers = http::with_field(http::no_fields(), "X-ELS-APIKey", api_key);
    let headers = http::with_field(headers, "Accept", "application/json");
    let r = HttpRequest {
        url: "https://api.elsevier.com/content/search/scopus".to_owned(),
        query: fields,
        headers,
    };
    assert(r@.query =~= search_request_for(api_key@, query@, max as nat).query);
    assert(r@.headers =~= search_request_for(api_key@, query@, max as nat).headers);
    r
}

/// The request for what CrossRef knows of a DOI.
pub open spec fn abstract_request_for(doi: Seq<char>) -> RequestView {
    RequestView {
        url: "https://api.crossref.org/works/"@ + doi,
        query: Seq::empty(),
        headers: seq![("User-Agent"@, "research_mcp/0.1 (mailto:research@local.invalid)"@)],
    }
}

/// The request for what CrossRef knows of a DOI.
pub fn abstract_request(doi: &str) -> (r: HttpRequest)
    ensures
        r@ == abstract_request_for(doi@),
{
    let mut url = "https://api.crossref.org/works/".to_owned();
    url.append(doi);
    let headers = http::with_field(
        http::no_fields(),
        "User-Agent",
        "research_mcp/0.1 (mailto:research@local.invalid)",
    );
    let r = HttpRequest { url, query: http::no_fields(), headers };
    assert(r@.headers =~= abstract_request_for(doi@).headers);
    r
}

// ── replies ─────────────────────────────────────────────────────────

/// The number of bytes that a character takes in UTF-8.
pub open spec fn width(c: char) -> nat {
    if (c as int) < 0x80 {
        1
    } else if (c as int) < 0x800 {
        2
    } else if (c as int) < 0x10000 {
        3
    } else {
        4
    }
}

/// The longest start of a text that fits in `limit` bytes of UTF-8.
pub open spec fn fitting(text: Seq<char>, limit: int) -> Seq<char>
    decreases text.len(),
{
    if text.len() == 0 || width(text[0]) > limit {
        Seq::empty()
    } else {
        seq![text[0]] + fitting(text.drop_first(), limit - width(text[0]))
    }
}

fn width_of(c: char) -> (r: usize)
    ensures
        r == width(c),
{
    let n: u32 = c as u32;
    if n < 0x80 {
        1
    } else if n < 0x800 {
        2
    } else if n < 0x10000 {
        3
    } else {
        4
    }
}

/// The longest start of a text that fits in `limit` bytes of UTF-8.
pub fn fit(text: &str, limit: usize) -> (r: String)
    ensures
        r@ == fitting(text@, limit as int),
{
    let chars = text::chars_of(text);
    let mut left: usize = limit;
    let mut at: usize = 0;
    assert(chars@.skip(0) == chars@);
    assert(chars@.take(0) + fitting(chars@, limit as int) =~= fitting(chars@, limit as int));
    while at < chars.len() && width_of(chars[at]) <= left
        invariant
            at <= chars@.len(),
            fitting(chars@, limit as int) == chars@.take(at as int) + fitting(
                chars@.skip(at as int),
                left as int,
            ),
        decreases chars@.len() - at,
    {
        let ghost rest = chars@.skip(at as int);
        left -= width_of(chars[at]);
        proof {
            assert(rest.drop_first() == chars@.skip(at + 1));
            assert(chars@.take(at as int) + (seq![rest[0]] + fitting(
                chars@.skip(at + 1),
                left as int,
            )) =~= chars@.take(at + 1) + fitting(chars@.skip(at + 1), left as int));
        }
        at += 1;
    }
    assert(chars@.take(at as int) + Seq::<char>::empty() =~= chars@.subrange(0, at as int));
    text::text_of(&chars, 0, at)
}

/// What fits is a start of the text, takes no more bytes than allowed, and would take more
/// with the next character.
pub proof fn fitting_is_longest(text: Seq<char>, limit: int)
    requires
        0 <= limit,
    ensures
        fitting(text, limit).is_prefix_of(text),
        vstd::utf8::encode_utf8(fitting(text, limit)).len() <= limit,
        fitting(text, limit).len() < text.len() ==> vstd::utf8::encode_utf8(
            text.take(fitting(text, limit).len() as int + 1),
        ).len() > limit,
    decreases text.len(),
{
    let r = fitting(text, limit);
    if text.len() > 0 {
        let first = text[0];
        vstd::utf8::char_is_scalar(first);
        vstd::utf8::char_u32_cast(first, first as u32);
        assert(vstd::utf8::encode_scalar(first as u32).len() == width(first));
        if width(text[0]) <= limit {
            let rest = text.drop_first();
            let left = limit - width(text[0]);
            fitting_is_longest(rest, left);
            assert(r.drop_first() =~= fitting(rest, left));
            if r.len() < text.len() {
                let next = text.take(r.len() as int + 1);
                assert(next.drop_first() =~= rest.take(fitting(rest, left).len() as int + 1));
            }
        } else {
            let next = text.take(1);
            assert(next.drop_first() =~= Seq::<char>::empty());
        }
    }
}

/// An entry of a reply to a search.
#[derive(Debug)]
pub struct ScopusEntry {
    pub title: String,
    pub creator: String,
    pub doi: Option<String>,
    pub eid: String,
    pub dc_identifier: String,
    pub journal: Option<String>,
    pub cover_date: Option<String>,
    pub citedby_count: Option<String>,
}

/// An entry with its texts as sequences of characters.
pub struct ScopusEntryView {
    pub title: Seq<char>,
    pub creator: Seq<char>,
    pub doi: Option<Seq<char>>,
    pub eid: Seq<char>,
    pub dc_identifier: Seq<char>,
    pub journal: Option<Seq<char>>,
    pub cover_date: Option<Seq<char>>,
    pub citedby_count: Option<Seq<char>>,
}

impl View for ScopusEntry {
    type V = ScopusEntryView;

    open spec fn view(&self) -> ScopusEntryView {
        ScopusEntryView {
            title: self.title@,
            creator: self.creator@,
            doi: text::option_view(self.doi),
            eid: self.eid@,
            dc_identifier: self.dc_identifier@,
            journal: text::option_view(self.journal),
            cover_date: text::option_view(self.cover_date),
            citedby_count: text::option_view(self.citedby_count),
        }
    }
}

/// A reply to a search: its entries, when it has a list of them.
#[derive(Debug)]
pub struct ScopusSearchResponse {
    pub search_results: Option<Vec<ScopusEntry>>,
}

/// The words of a text with one blank between each two.
pub fn clean(s: &str) -> (r: String)
    ensures
        r@ == words::clean(s@),
{
    words::cleaned(s)
}

/// The stretches between the marks of a text.
pub open spec fn split_on(text: Seq<char>, mark: char) -> Seq<Seq<char>>
    decreases text.len(),
{
    if text.len() == 0 {
        seq![Seq::empty()]
    } else {
        let rest = split_on(text.drop_last(), mark);
        if text.last() == mark {
            rest.push(Seq::empty())
        } else {
            rest.update(rest.len() - 1, rest.last().push(text.last()))
        }
    }
}

fn split(text: &str, mark: char) -> (r: Vec<String>)
    ensures
        text::views(r@) == split_on(text@, mark),
{
    let chars = text::chars_of(text);
    let mut done: Vec<String> = Vec::new();
    let mut current = String::new();
    assert(chars@.take(0) =~= Seq::<char>::empty());
    assert(text::views(done@).push(current@) =~= split_on(chars@.take(0), mark));
    for i in 0..chars.len()
        invariant
            text::views(done@).push(current@) == split_on(chars@.take(i as int), mark),
    {
        let ghost before = text::views(done@);
        let ghost word = current@;
        assert(chars@.take(i + 1).drop_last() == chars@.take(i as int));
        if chars[i] == mark {
            done.push(current);
            current = String::new();
            assert(text::views(done@) =~= before.push(word));
            assert(current@ =~= Seq::<char>::empty());
        } else {
            current.push(chars[i]);
            assert(before.push(current@) =~= before.push(word).update(
                before.len() as int,
                current@,
            ));
        }
    }
    assert(chars@.take(chars@.len() as int) == chars@);
    let ghost before = text::views(done@);
    done.push(current);
    assert(text::views(done@) =~= before.push(current@));
    done
}

/// The names in a list of creators, set apart by semicolons.
pub open spec fn creators_in(list: Seq<char>) -> Seq<Seq<char>> {
    split_on(list, ';').map_values(|name: Seq<char>| words::clean(name)).filter(
        |name: Seq<char>| name.len() > 0,
    )
}

fn creators_of(list: &str) -> (r: Vec<String>)
    ensures
        text::views(r@) == creators_in(list@),
{
    let names = split(list, ';');
    let ghost all = split_on(list@, ';').map_values(|name: Seq<char>| words::clean(name));
    let ghost keep = |name: Seq<char>| name.len() > 0;
    let mut out: Vec<String> = Vec::new();
    proof {
        reveal(Seq::filter);
        assert(all.take(0) =~= Seq::<Seq<char>>::empty());
        assert(text::views(out@) =~= Seq::<Seq<char>>::empty());
    }
    for i in 0..names.len()
        invariant
            text::views(names@) == split_on(list@, ';'),
            all == split_on(list@, ';').map_values(|name: Seq<char>| words::clean(name)),
            keep == (|name: Seq<char>| name.len() > 0),
            text::views(out@) == all.take(i as int).filter(keep),
    {
        let name = clean(names[i].as_str());
        proof {
            reveal(Seq::filter);
            assert(all.take(i + 1).drop_last() == all.take(i as int));
            assert(text::views(names@)[i as int] == names@[i as int]@);
            assert(all[i as int] == name@);
        }
        if !text::blank(name.as_str()) {
            let ghost before = out@;
            out.push(name);
            assert(text::views(out@) =~= text::views(before).push(name@));
        }
    }
    assert(all.take(all.len() as int) == all);
    out
}

/// What stands before the first `mark`, or the whole text.
pub open spec fn before_first(text: Seq<char>, mark: Seq<char>) -> Seq<char> {
    match text::cut_once(text, mark) {
        Some(halves) => halves.0,
        None => text,
    }
}

/// The number in an optional text; 0 where there is none.
pub open spec fn count_in(text: Option<Seq<char>>) -> i64 {
    match text {
        Some(text) => match number::parsed_i64(text) {
            Some(value) => value as i64,
            None => 0,
        },
        None => 0,
    }
}

/// Where an entry can be read: under its DOI, or else at Scopus.
pub open spec fn address_of(entry: ScopusEntryView) -> Seq<char> {
    match entry.doi {
        Some(doi) => "https://doi.org/"@ + doi,
        None => "https://www.scopus.com/inward/record.uri?scp="@ + entry.eid,
    }
}

/// The optional text, cleaned.
pub open spec fn clean_option(text: Option<Seq<char>>) -> Option<Seq<char>> {
    match text {
        Some(text) => Some(words::clean(text)),
        None => None,
    }
}

/// The year of an optional date.
pub open spec fn year_in(date: Option<Seq<char>>) -> Option<Seq<char>> {
    match date {
        Some(date) => Some(before_first(date, "-"@)),
        None => None,
    }
}

/// The paper that an entry describes.
pub open spec fn paper_in(entry: ScopusEntryView) -> ScopusPaperView {
    ScopusPaperView {
        eid: entry.eid,
        scopus_id: text::after_prefixes(entry.dc_identifier, "SCOPUS_ID:"@),
        doi: entry.doi,
        title: words::clean(entry.title),
        creators: creators_in(entry.creator),
        journal: clean_option(entry.journal),
        year: year_in(entry.cover_date),
        citedby: count_in(entry.citedby_count),
        url: address_of(entry),
        abstract_text: Seq::empty(),
    }
}

fn paper_of(entry: &ScopusEntry) -> (r: ScopusPaper)
    ensures
        r@ == paper_in(entry@),
{
    proof {
        reveal_strlit("SCOPUS_ID:");
    }
    let url = match &entry.doi {
        Some(doi) => {
            let mut url = "https://doi.org/".to_owned();
            url.append(doi.as_str());
            url
        },
        None => {
            let mut url = "https://www.scopus.com/inward/record.uri?scp=".to_owned();
            url.append(entry.eid.as_str());
            url
        },
    };
    let journal = match &entry.journal {
        Some(journal) => Some(clean(journal.as_str())),
        None => None,
    };
    let year = match &entry.cover_date {
        Some(date) => match text::split_once(date.as_str(), "-") {
            Some(halves) => Some(halves.0),
            None => Some(date.clone()),
        },
        None => None,
    };
    let citedby: i64 = match &entry.citedby_count {
        Some(count) => match number::parse_i64(count.as_str()) {
            Some(value) => value,
            None => 0,
        },
        None => 0,
    };
    let r = ScopusPaper {
        eid: entry.eid.clone(),
        scopus_id: text::without_prefixes(entry.dc_identifier.as_str(), "SCOPUS_ID:"),
        doi: text::copy_option(&entry.doi),
        title: clean(entry.title.as_str()),
        creators: creators_of(entry.creator.as_str()),
        journal,
        year,
        citedby,
        url,
        abstract_text: String::new(),
    };
    assert(r@.abstract_text =~= Seq::<char>::empty());
    r
}

/// An entry that says something: it has a title or a DOI.
pub open spec fn tells(entry: ScopusEntryView) -> bool {
    entry.title.len() > 0 || entry.doi is Some
}

/// The papers that a reply to a search describes.
pub open spec fn papers_in(entries: Seq<ScopusEntryView>) -> Seq<ScopusPaperView> {
    entries.filter(|entry: ScopusEntryView| tells(entry)).map_values(
        |entry: ScopusEntryView| paper_in(entry),
    )
}

impl ScopusSearchResponse {
    /// The entries of the reply.
    pub open spec fn entries(self) -> Seq<ScopusEntryView> {
        match self.search_results {
            Some(entries) => text::views(entries@),
            None => Seq::empty(),
        }
    }

    /// The papers that the reply describes.
    pub fn into_papers(self) -> (r: Vec<ScopusPaper>)
        ensures
            text::views(r@) == papers_in(self.entries()),
    {
        let mut out: Vec<ScopusPaper> = Vec::new();
        let ghost keep = |entry: ScopusEntryView| tells(entry);
        let ghost make = |entry: ScopusEntryView| paper_in(entry);
        proof {
            reveal(Seq::filter);
            assert(text::views(out@) =~= Seq::<ScopusEntryView>::empty().filter(keep).map_values(
                make,
            ));
        }
        if let Some(entries) = self.search_results {
            let ghost all = text::views(entries@);
            assert(all.take(0) =~= Seq::<ScopusEntryView>::empty());
            for i in 0..entries.len()
                invariant
                    all == text::views(entries@),
                    keep == (|entry: ScopusEntryView| tells(entry)),
                    make == (|entry: ScopusEntryView| paper_in(entry)),
                    text::views(out@) == all.take(i as int).filter(keep).map_values(make),
            {
                proof {
                    reveal(Seq::filter);
                    assert(all.take(i + 1).drop_last() == all.take(i as int));
                    assert(all[i as int] == entries@[i as int]@);
                }
                if !text::blank(entries[i].title.as_str()) || entries[i].doi.is_some() {
                    let paper = paper_of(&entries[i]);
                    let ghost before = out@;
                    let ghost kept = all.take(i as int).filter(keep);
                    out.push(paper);
                    assert(text::views(out@) =~= text::views(before).push(paper@));
                    assert(kept.push(all[i as int]).map_values(make) =~= kept.map_values(make).push(
                        paper@,
                    ));
                }
            }
            assert(all.take(all.len() as int) == all);
        }
        out
    }
}

/// The papers that the reply to a search holds. `parsed` is what its body parses to.
pub open spec fn searched(reply: ReplyView, parsed: Option<Seq<ScopusEntryView>>) -> Result<
    Seq<ScopusPaperView>,
    Seq<char>,
> {
    match reply {
        ReplyView::Failed(_) => Err("Scopus search request failed"@),
        ReplyView::Answer { status, status_text, content_type, body } => if !http::is_success(
            status,
        ) {
            let text = match body {
                Ok(text) => text,
                Err(_) => Seq::empty(),
            };
            Err("Scopus API error "@ + status_text + ": "@ + fitting(text, 200))
        } else {
            match parsed {
                Some(entries) => Ok(papers_in(entries)),
                None => Err("Scopus search parse failed"@),
            }
        },
    }
}

/// The papers that the reply to a search holds. `parsed` is what its body parses to.
pub fn search_reply(reply: &HttpReply, parsed: Option<ScopusSearchResponse>) -> (r: Result<
    Vec<ScopusPaper>,
    String,
>)
    ensures
        http::list_result(r) == searched(
            reply@,
            match parsed {
                Some(response) => Some(response.entries()),
                None => None,
            },
        ),
{
    match reply {
        HttpReply::Failed(_) => Err("Scopus search request failed".to_owned()),
        HttpReply::Answer { status, status_text, content_type, body } => if !(200 <= *status
            && *status < 300) {
            let text = match body {
                Ok(text) => text.clone(),
                Err(_) => String::new(),
            };
            proof {
                if body is Err {
                    assert(text@ =~= Seq::<char>::empty());
                }
            }
            let mut message = "Scopus API error ".to_owned();
            message.append(status_text.as_str());
            message.append(": ");
            message.append(fit(text.as_str(), 200).as_str());
            Err(message)
        } else {
            match parsed {
                Some(response) => Ok(response.into_papers()),
                None => Err("Scopus search parse failed".to_owned()),
            }
        },
    }
}

/// An abstract without its markup.
pub open spec fn unmarked(text: Seq<char>) -> Seq<char> {
    let s = words::replaced(text, "<jats:p>"@, " "@);
    let s = words::replaced(s, "</jats:p>"@, "\n"@);
    let s = words::replaced(s, "<jats:title>"@, " "@);
    let s = words::replaced(s, "</jats:title>"@, "\n"@);
    let s = words::replaced(s, "<jats:sec>"@, ""@);
    let s = words::replaced(s, "</jats:sec>"@, ""@);
    words::trim(s)
}

/// An abstract without its markup.
pub fn unmark(text: &str) -> (r: String)
    ensures
        r@ == unmarked(text@),
{
    proof {
        reveal_strlit("<jats:p>");
        reveal_strlit("</jats:p>");
        reveal_strlit("<jats:title>");
        reveal_strlit("</jats:title>");
        reveal_strlit("<jats:sec>");
        reveal_strlit("</jats:sec>");
    }
    let s = words::replace(text, "<jats:p>", " ");
    let s = words::replace(s.as_str(), "</jats:p>", "\n");
    let s = words::replace(s.as_str(), "<jats:title>", " ");
    let s = words::replace(s.as_str(), "</jats:title>", "\n");
    let s = words::replace(s.as_str(), "<jats:sec>", "");
    let s = words::replace(s.as_str(), "</jats:sec>", "");
    words::trimmed(s.as_str())
}

/// The abstract that the reply of CrossRef holds; empty where CrossRef knows nothing of the
/// DOI. `parsed` is the abstract in the reply's body, once that parses.
pub open spec fn abstract_in(reply: ReplyView, parsed: Option<Option<Seq<char>>>) -> Result<
    Seq<char>,
    Seq<char>,
> {
    match reply {
        ReplyView::Failed(_) => Err("CrossRef request failed"@),
        ReplyView::Answer { status, status_text, content_type, body } => if !http::is_success(
            status,
        ) {
            Ok(Seq::empty())
        } else {
            match parsed {
                Some(text) => Ok(unmarked(text::or_empty(text))),
                None => Err("CrossRef parse failed"@),
            }
        },
    }
}

/// The abstract that the reply of CrossRef holds; empty where CrossRef knows nothing of the
/// DOI. `parsed` is the abstract in the reply's body, once that parses.
pub fn abstract_reply(reply: &HttpReply, parsed: Option<Option<String>>) -> (r: Result<
    String,
    String,
>)
    ensures
        http::result_view(r) == abstract_in(
            reply@,
            match parsed {
                Some(text) => Some(text::option_view(text)),
                None => None,
            },
        ),
{
    match reply {
        HttpReply::Failed(_) => Err("CrossRef request failed".to_owned()),
        HttpReply::Answer { status, status_text, content_type, body } => if !(200 <= *status
            && *status < 300) {
            let none = String::new();
            assert(none@ =~= Seq::<char>::empty());
            Ok(none)
        } else {
            match parsed {
                Some(text) => Ok(unmark(text::text_or_empty(&text).as_str())),
                None => Err("CrossRef parse failed".to_owned()),
            }
        },
    }
}

// ── what a reply says is what is read ───────────────────────────────

/// A search asks for the query and for so many papers, with the key; an abstract is asked for
/// under its DOI.
pub proof fn requests_ask_for_what_is_wanted(
    api_key: Seq<char>,
    query: Seq<char>,
    max: nat,
    doi: Seq<char>,
)
    ensures
        search_request_for(api_key, query, max).query.contains(("query"@, query)),
        search_request_for(api_key, query, max).query.contains(("count"@, number::decimal(max))),
        search_request_for(api_key, query, max).headers.contains(("X-ELS-APIKey"@, api_key)),
        text::contains(abstract_request_for(doi).url, "/works/"@ + doi),
{
    let request = search_request_for(api_key, query, max);
    assert(request.query[0] == ("query"@, query));
    assert(request.query[1] == ("count"@, number::decimal(max)));
    assert(request.headers[0] == ("X-ELS-APIKey"@, api_key));
    reveal_strlit("https://api.crossref.org/works/");
    reveal_strlit("https://api.crossref.org");
    reveal_strlit("/works/");
    assert("https://api.crossref.org/works/"@ =~= "https://api.crossref.org"@ + "/works/"@);
    text::strings_associate("https://api.crossref.org"@, "/works/"@, doi);
    text::end_is_held("https://api.crossref.org"@, "/works/"@ + doi);
}

/// A reply gives a paper for each entry that has a title or a DOI, in their order; one more
/// entry adds its paper behind the others, or none.
pub proof fn every_entry_is_a_paper(entries: Seq<ScopusEntryView>, entry: ScopusEntryView)
    ensures
        papers_in(Seq::empty()).len() == 0,
        entry.title.len() > 0 || entry.doi is Some ==> papers_in(entries.push(entry)).len()
            == papers_in(entries).len() + 1 && papers_in(entries.push(entry)).drop_last()
            == papers_in(entries) && papers_in(entries.push(entry)).last().eid == entry.eid,
        entry.title.len() == 0 && entry.doi is None ==> papers_in(entries.push(entry))
            == papers_in(entries),
{
    reveal(Seq::filter);
    let keep = |entry: ScopusEntryView| tells(entry);
    let more = entries.push(entry);
    assert(more.drop_last() =~= entries);
    assert(more.last() == entry);
    assert(Seq::<ScopusEntryView>::empty().filter(keep) =~= Seq::empty());
    if tells(entry) {
        assert(more.filter(keep) == entries.filter(keep).push(entry));
        assert(papers_in(more) =~= papers_in(entries).push(paper_in(entry)));
        assert(papers_in(more).drop_last() =~= papers_in(entries));
    }
}

/// Each part of an entry is read into its own place.
pub proof fn entries_are_read(entry: ScopusEntryView)
    ensures
        ({
            let paper = paper_in(entry);
            &&& paper.eid == entry.eid
            &&& paper.doi == entry.doi
            &&& paper.title == words::clean(entry.title)
            &&& paper.abstract_text.len() == 0
            &&& entry.journal matches Some(journal) ==> paper.journal == Some(
                words::clean(journal),
            )
            &&& entry.journal is None ==> paper.journal is None
            &&& entry.cover_date is None ==> paper.year is None
            &&& entry.citedby_count is None ==> paper.citedby == 0
            &&& entry.doi matches Some(doi) ==> paper.url == "https://doi.org/"@ + doi
            &&& entry.doi is None ==> paper.url
                == "https://www.scopus.com/inward/record.uri?scp="@ + entry.eid
        }),
{
}

/// The year of a date is what stands before its first dash.
pub proof fn years_stand_before_the_dash(entry: ScopusEntryView, year: Seq<char>, rest: Seq<char>)
    requires
        forall|i: int| 0 <= i < year.len() ==> #[trigger] year[i] != '-',
        entry.cover_date == Some(year + "-"@ + rest) || entry.cover_date == Some(year),
    ensures
        paper_in(entry).year == Some(year),
{
    reveal_strlit("-");
    let date = entry.cover_date->0;
    text::first_from_is_first(date, "-"@, 0);
    if date == year {
        if let Some(at) = text::first(date, "-"@) {
            assert(date.subrange(at, at + 1)[0] == year[at]);
        }
    } else {
        let n = year.len() as int;
        assert(date.subrange(n, n + 1) =~= "-"@);
        assert(text::occurs_at(date, "-"@, n));
        if let Some(at) = text::first(date, "-"@) {
            if at < n {
                assert(date.subrange(at, at + 1)[0] == year[at]);
            }
            assert(date.take(n) =~= year);
        }
    }
}

/// The number before the identifier's mark is the paper's.
pub proof fn identifiers_lose_their_mark(entry: ScopusEntryView, id: Seq<char>)
    requires
        !"SCOPUS_ID:"@.is_prefix_of(id),
        entry.dc_identifier == "SCOPUS_ID:"@ + id || entry.dc_identifier == id,
    ensures
        paper_in(entry).scopus_id == id,
{
    reveal_strlit("SCOPUS_ID:");
    let whole = "SCOPUS_ID:"@ + id;
    assert("SCOPUS_ID:"@.is_prefix_of(whole));
    assert(whole.skip("SCOPUS_ID:"@.len() as int) =~= id);
    assert(text::after_prefixes(id, "SCOPUS_ID:"@) == id);
    assert(text::after_prefixes(whole, "SCOPUS_ID:"@) == text::after_prefixes(
        id,
        "SCOPUS_ID:"@,
    ));
}

proof fn plain_text_is_not_split(text: Seq<char>, mark: char)
    requires
        forall|i: int| 0 <= i < text.len() ==> #[trigger] text[i] != mark,
    ensures
        split_on(text, mark) == seq![text],
    decreases text.len(),
{
    if text.len() > 0 {
        let rest = text.drop_last();
        assert forall|i: int| 0 <= i < rest.len() implies #[trigger] rest[i] != mark by {
            assert(rest[i] == text[i]);
        }
        plain_text_is_not_split(rest, mark);
        assert(rest.push(text.last()) =~= text);
        assert(split_on(text, mark) =~= seq![text]);
    } else {
        assert(text =~= Seq::<char>::empty());
    }
}

proof fn splits_part_at_the_mark(list: Seq<char>, name: Seq<char>, mark: char)
    requires
        forall|i: int| 0 <= i < name.len() ==> #[trigger] name[i] != mark,
    ensures
        split_on(list + seq![mark] + name, mark) == split_on(list, mark).push(name),
    decreases name.len(),
{
    let whole = list + seq![mark] + name;
    if name.len() == 0 {
        assert(whole.drop_last() =~= list);
        assert(name =~= Seq::<char>::empty());
    } else {
        let rest = name.drop_last();
        assert forall|i: int| 0 <= i < rest.len() implies #[trigger] rest[i] != mark by {
            assert(rest[i] == name[i]);
        }
        splits_part_at_the_mark(list, rest, mark);
        assert(whole.drop_last() =~= list + seq![mark] + rest);
        assert(whole.last() == name[name.len() - 1]);
        assert(rest.push(name.last()) =~= name);
        assert(split_on(whole, mark) =~= split_on(list, mark).push(name));
    }
}

/// Every name in a list of creators is one of them, in their order: one more name behind a
/// semicolon adds itself, with one blank between its words.
pub proof fn every_creator_is_named(list: Seq<char>, name: Seq<char>)
    requires
        forall|i: int| 0 <= i < name.len() ==> #[trigger] name[i] != ';',
        words::clean(name).len() > 0,
    ensures
        creators_in(name) == seq![words::clean(name)],
        creators_in(list + seq![';'] + name) == creators_in(list).push(words::clean(name)),
{
    reveal(Seq::filter);
    let keep = |name: Seq<char>| name.len() > 0;
    let cleaned = |name: Seq<char>| words::clean(name);
    plain_text_is_not_split(name, ';');
    splits_part_at_the_mark(list, name, ';');
    let before = split_on(list, ';').map_values(cleaned);
    let after = split_on(list + seq![';'] + name, ';').map_values(cleaned);
    assert(after =~= before.push(words::clean(name)));
    assert(after.drop_last() =~= before);
    let one = seq![name].map_values(cleaned);
    assert(one =~= seq![words::clean(name)]);
    assert(one.drop_last() =~= Seq::<Seq<char>>::empty());
    assert(one.filter(keep) =~= seq![words::clean(name)]);
}

/// A good reply gives the papers that it describes; of a refusal the status is told, and of
/// its body as much as fits in two hundred bytes.
pub proof fn replies_give_their_papers(
    status: u16,
    status_text: Seq<char>,
    content_type: Seq<char>,
    body: Seq<char>,
    entries: Seq<ScopusEntryView>,
)
    ensures
        ({
            let reply = ReplyView::Answer { status, status_text, content_type, body: Ok(body) };
            &&& 200 <= status <= 299 ==> searched(reply, Some(entries)) == Ok::<
                Seq<ScopusPaperView>,
                Seq<char>,
            >(papers_in(entries)) && searched(reply, None) is Err
            &&& !(200 <= status <= 299) ==> searched(reply, Some(entries)) == Err::<
                Seq<ScopusPaperView>,
                Seq<char>,
            >("Scopus API error "@ + status_text + ": "@ + fitting(body, 200))
        }),
{
}

/// An abstract without markup is handed on as it is, but for the white space around it; where
/// CrossRef knows nothing of a DOI, it is empty.
pub proof fn abstracts_are_handed_on(
    status: u16,
    status_text: Seq<char>,
    content_type: Seq<char>,
    body: Seq<char>,
    found: Seq<char>,
)
    requires
        forall|i: int| 0 <= i < found.len() ==> #[trigger] found[i] != '<',
    ensures
        ({
            let reply = ReplyView::Answer { status, status_text, content_type, body: Ok(body) };
            &&& 200 <= status <= 299 ==> abstract_in(reply, Some(Some(found))) == Ok::<
                Seq<char>,
                Seq<char>,
            >(words::trim(found))
            &&& !(200 <= status <= 299) ==> abstract_in(reply, Some(Some(found))) == Ok::<
                Seq<char>,
                Seq<char>,
            >(Seq::empty())
        }),
{
    reveal_strlit("<jats:p>");
    reveal_strlit("</jats:p>");
    reveal_strlit("<jats:title>");
    reveal_strlit("</jats:title>");
    reveal_strlit("<jats:sec>");
    reveal_strlit("</jats:sec>");
    let none = Seq::<char>::empty();
    words::copies_are_replaced(found, "<jats:p>"@, " "@, none);
    words::copies_are_replaced(found, "</jats:p>"@, "\n"@, none);
    words::copies_are_replaced(found, "<jats:title>"@, " "@, none);
    words::copies_are_replaced(found, "</jats:title>"@, "\n"@, none);
    words::copies_are_replaced(found, "<jats:sec>"@, ""@, none);
    words::copies_are_replaced(found, "</jats:sec>"@, ""@, none);
}

/// The number of citations that an entry writes is the paper's.
pub proof fn citations_are_read(entry: ScopusEntryView, count: i64)
    requires
        entry.citedby_count == Some(number::signed_decimal(count as int)),
    ensures
        paper_in(entry).citedby == count,
{
    number::signed_numbers_come_back(count as int);
}

} // verus!
