//! arXiv: the requests of its Atom API, and its feeds.

use vstd::prelude::*;

use crate::http;
use crate::http::{HttpReply, HttpRequest, ReplyView, RequestView};
use crate::number;
use crate::text;
use crate::words;
use crate::xml;
use crate::xml::{XmlEvent, XmlEventView};

verus! {

/// Where the API answers.
pub const ARXIV_API_URL: &'static str = "http://export.arxiv.org/api/query";

/// How requests introduce themselves.
pub const USER_AGENT: &'static str = "research_mcp/0.1 (Rust deepresearch tool)";

/// A paper.
#[derive(Debug)]
pub struct ArxivPaper {
    pub arxiv_id: String,
    pub title: String,
    pub authors: Vec<String>,
    pub abstract_text: String,
    pub url: String,
    pub published: Option<String>,
    pub categories: Vec<String>,
}

/// A paper with its texts as sequences of characters.
pub struct ArxivPaperView {
    pub arxiv_id: Seq<char>,
    pub title: Seq<char>,
    pub authors: Seq<Seq<char>>,
    pub abstract_text: Seq<char>,
    pub url: Seq<char>,
    pub published: Option<Seq<char>>,
    pub categories: Seq<Seq<char>>,
}

impl View for ArxivPaper {
    type V = ArxivPaperView;

    open spec fn view(&self) -> ArxivPaperView {
        ArxivPaperView {
            arxiv_id: self.arxiv_id@,
            title: self.title@,
            authors: text::views(self.authors@),
            abstract_text: self.abstract_text@,
            url: self.url@,
            published: text::option_view(self.published),
            categories: text::views(self.categories@),
        }
    }
}

impl Clone for ArxivPaper {
    fn clone(&self) -> (copy: Self)
        ensures
            copy@ == self@,
    {
        ArxivPaper {
            arxiv_id: self.arxiv_id.clone(),
            title: self.title.clone(),
            authors: text::copy_texts(&self.authors),
            abstract_text: self.abstract_text.clone(),
            url: self.url.clone(),
            published: text::copy_option(&self.published),
            categories: text::copy_texts(&self.categories),
        }
    }
}

// ── requests ────────────────────────────────────────────────────────

/// The request that searches all fields for `query`, most relevant first.
pub open spec fn search_request_for(query: Seq<char>, max_results: nat) -> RequestView {
    RequestView {
        url: ARXIV_API_URL@,
        query: seq![
            ("search_query"@, "all:"@ + query),
            ("start"@, "0"@),
            ("max_results"@, number::decimal(max_results)),
            ("sortBy"@, "relevance"@),
            ("sortOrder"@, "descending"@),
        ],
        headers: seq![("User-Agent"@, USER_AGENT@)],
    }
}

/// The request that searches all fields for `query`, most relevant first.
pub fn search_request(query: &str, max_results: usize) -> (r: HttpRequest)
    ensures
        r@ == search_request_for(query@, max_results as nat),
{
    let mut all = "all:".to_owned();
    all.append(query);
    let fields = http::with_field(http::no_fields(), "search_query", all.as_str());
    let fields = http::with_field(fields, "start", "0");
    let fields = http::with_field(
        fields,
        "max_results",
        number::decimal_of(max_results as u128).as_str(),
    );
    let fields = http::with_field(fields, "sortBy", "relevance");
    let fields = http::with_field(fields, "sortOrder", "descending");
    let headers = http::with_field(http::no_fields(), "User-Agent", USER_AGENT);
    let r = HttpRequest { url: ARXIV_API_URL.to_owned(), query: fields, headers };
    assert(r@.query =~= search_request_for(query@, max_results as nat).query);
    assert(r@.headers =~= search_request_for(query@, max_results as nat).headers);
    r
}

/// The request for one paper by its identifier.
pub open spec fn by_id_request_for(arxiv_id: Seq<char>) -> RequestView {
    RequestView {
        url: ARXIV_API_URL@,
        query: seq![("id_list"@, arxiv_id)],
        headers: seq![("User-Agent"@, USER_AGENT@)],
    }
}

/// The request for one paper by its identifier (such as "2607.12631" or "2106.09685v2").
pub fn by_id_request(arxiv_id: &str) -> (r: HttpRequest)
    ensures
        r@ == by_id_request_for(arxiv_id@),
{
    let fields = http::with_field(http::no_fields(), "id_list", arxiv_id);
    let headers = http::with_field(http::no_fields(), "User-Agent", USER_AGENT);
    let r = HttpRequest { url: ARXIV_API_URL.to_owned(), query: fields, headers };
    assert(r@.query =~= by_id_request_for(arxiv_id@).query);
    assert(r@.headers =~= by_id_request_for(arxiv_id@).headers);
    r
}

/// The papers that a reply to a search holds.
pub open spec fn searched(reply: ReplyView) -> Result<Seq<ArxivPaperView>, Seq<char>> {
    match http::body_or(
        reply,
        "arXiv search request failed"@,
        "arXiv API error "@,
        "arXiv response read failed"@,
    ) {
        Ok(body) => feed(body),
        Err(message) => Err(message),
    }
}

/// The papers that a reply to a search holds.
pub fn search_reply(reply: HttpReply) -> (r: Result<Vec<ArxivPaper>, String>)
    ensures
        http::list_result(r) == searched(reply@),
{
    match http::body_of(
        reply,
        "arXiv search request failed",
        "arXiv API error ",
        "arXiv response read failed",
    ) {
        Ok(body) => parse_feed(body.as_str()),
        Err(message) => Err(message),
    }
}

/// The paper that a reply to a request by identifier holds: the first of its feed.
pub open spec fn fetched(reply: ReplyView) -> Result<Option<ArxivPaperView>, Seq<char>> {
    match http::body_or(
        reply,
        "arXiv id fetch failed"@,
        "arXiv API error "@,
        "arXiv response read failed"@,
    ) {
        Ok(body) => match feed(body) {
            Ok(papers) => Ok(
                if papers.len() > 0 {
                    Some(papers[0])
                } else {
                    None
                },
            ),
            Err(message) => Err(message),
        },
        Err(message) => Err(message),
    }
}

/// The paper that a reply to a request by identifier holds: the first of its feed.
pub fn by_id_reply(reply: HttpReply) -> (r: Result<Option<ArxivPaper>, String>)
    ensures
        fetched(reply@) == (match r {
            Ok(found) => Ok::<Option<ArxivPaperView>, Seq<char>>(text::option_view(found)),
            Err(message) => Err::<Option<ArxivPaperView>, Seq<char>>(message@),
        }),
{
    match http::body_of(
        reply,
        "arXiv id fetch failed",
        "arXiv API error ",
        "arXiv response read failed",
    ) {
        Ok(body) => match parse_feed(body.as_str()) {
            Ok(papers) => if papers.len() > 0 {
                Ok(Some(papers[0].clone()))
            } else {
                Ok(None)
            },
            Err(message) => Err(message),
        },
        Err(message) => Err(message),
    }
}

// ── feeds ───────────────────────────────────────────────────────────

/// What follows the last `mark`, or the whole text.
pub open spec fn after_last(text: Seq<char>, mark: char) -> Seq<char>
    decreases text.len(),
{
    if text.len() == 0 || text.last() == mark {
        Seq::empty()
    } else {
        after_last(text.drop_last(), mark).push(text.last())
    }
}

fn tail_after(text: &str, mark: char) -> (r: String)
    ensures
        r@ == after_last(text@, mark),
{
    let chars = text::chars_of(text);
    let mut tail = String::new();
    for i in 0..chars.len()
        invariant
            tail@ == after_last(chars@.take(i as int), mark),
    {
        assert(chars@.take(i + 1).drop_last() == chars@.take(i as int));
        if chars[i] == mark {
            tail = String::new();
        } else {
            tail.push(chars[i]);
        }
    }
    assert(chars@.take(chars@.len() as int) == chars@);
    tail
}

/// The identifier in an entry's address: its last part, without a version suffix.
pub open spec fn base_id(address: Seq<char>) -> Seq<char> {
    let raw = after_last(address, '/');
    match text::cut_once(raw, "v"@) {
        Some(halves) => halves.0,
        None => raw,
    }
}

fn base_id_of(address: &str) -> (r: String)
    ensures
        r@ == base_id(address@),
{
    let raw = tail_after(address, '/');
    match text::split_once(raw.as_str(), "v") {
        Some(halves) => halves.0,
        None => raw,
    }
}

/// Where a paper can be read.
pub open spec fn page_of(arxiv_id: Seq<char>) -> Seq<char> {
    "https://arxiv.org/abs/"@ + arxiv_id
}

/// A paper of which nothing is known.
pub open spec fn blank_paper() -> ArxivPaperView {
    ArxivPaperView {
        arxiv_id: Seq::empty(),
        title: Seq::empty(),
        authors: Seq::empty(),
        abstract_text: Seq::empty(),
        url: Seq::empty(),
        published: None,
        categories: Seq::empty(),
    }
}

fn new_paper() -> (r: ArxivPaper)
    ensures
        r@ == blank_paper(),
{
    let r = ArxivPaper {
        arxiv_id: String::new(),
        title: String::new(),
        authors: Vec::new(),
        abstract_text: String::new(),
        url: String::new(),
        published: None,
        categories: Vec::new(),
    };
    assert(r@.authors =~= Seq::<Seq<char>>::empty());
    assert(r@.categories =~= Seq::<Seq<char>>::empty());
    r
}

/// A reading of a feed, up to some event.
pub struct FeedView {
    /// The papers read so far.
    pub papers: Seq<ArxivPaperView>,
    /// The paper under way.
    pub current: Option<ArxivPaperView>,
    pub in_entry: bool,
    pub in_author: bool,
    /// The element that text belongs to; empty when text belongs to none.
    pub tag: Seq<char>,
}

struct Feed {
    papers: Vec<ArxivPaper>,
    current: Option<ArxivPaper>,
    in_entry: bool,
    in_author: bool,
    tag: String,
}

impl View for Feed {
    type V = FeedView;

    closed spec fn view(&self) -> FeedView {
        FeedView {
            papers: text::views(self.papers@),
            current: text::option_view(self.current),
            in_entry: self.in_entry,
            in_author: self.in_author,
            tag: self.tag@,
        }
    }
}

/// A start tag: an entry starts a paper, an author stands inside an entry.
pub open spec fn opened(state: FeedView, name: Seq<char>) -> FeedView {
    if name == "entry"@ {
        FeedView { tag: name, in_entry: true, current: Some(blank_paper()), ..state }
    } else if name == "author"@ && state.in_entry {
        FeedView { tag: name, in_author: true, ..state }
    } else {
        FeedView { tag: name, ..state }
    }
}

/// An end tag: an entry's end adds its paper, when that has an identifier.
pub open spec fn closed_tag(state: FeedView, name: Seq<char>) -> FeedView {
    if name == "entry"@ {
        FeedView {
            in_entry: false,
            current: None,
            papers: match state.current {
                Some(paper) => if paper.arxiv_id.len() > 0 {
                    state.papers.push(paper)
                } else {
                    state.papers
                },
                None => state.papers,
            },
            ..state
        }
    } else if name == "author"@ {
        FeedView { in_author: false, ..state }
    } else {
        FeedView { tag: Seq::empty(), ..state }
    }
}

/// A paper with the text of one of its elements.
pub open spec fn told(
    paper: ArxivPaperView,
    tag: Seq<char>,
    in_author: bool,
    text: Seq<char>,
) -> ArxivPaperView {
    if tag == "id"@ {
        ArxivPaperView { arxiv_id: base_id(text), url: page_of(base_id(text)), ..paper }
    } else if tag == "title"@ {
        ArxivPaperView { title: words::clean(text), ..paper }
    } else if tag == "summary"@ {
        ArxivPaperView { abstract_text: words::clean(text), ..paper }
    } else if tag == "published"@ {
        ArxivPaperView { published: Some(text), ..paper }
    } else if tag == "name"@ && in_author {
        ArxivPaperView { authors: paper.authors.push(text), ..paper }
    } else {
        paper
    }
}

/// The reading after one more event.
pub open spec fn feed_step(state: FeedView, event: XmlEventView) -> FeedView {
    match event {
        XmlEventView::Start(name) => opened(state, name),
        XmlEventView::End(name) => closed_tag(state, name),
        XmlEventView::Empty(name, value) => match (state.current, value) {
            (Some(paper), Some(term)) if name == "category"@ && state.in_entry => FeedView {
                current: Some(
                    ArxivPaperView {
                        categories: paper.categories.push(text::or_empty(term)),
                        ..paper
                    },
                ),
                ..state
            },
            _ => state,
        },
        XmlEventView::Text(data) => match state.current {
            Some(paper) if state.in_entry && words::trim(text::or_empty(data)).len() > 0 => FeedView {
                current: Some(
                    told(paper, state.tag, state.in_author, words::trim(text::or_empty(data))),
                ),
                ..state
            },
            _ => state,
        },
        XmlEventView::Other => state,
    }
}

/// The reading of a document's events.
pub open spec fn feed_read(events: Seq<XmlEventView>) -> FeedView
    decreases events.len(),
{
    if events.len() == 0 {
        FeedView {
            papers: Seq::empty(),
            current: None,
            in_entry: false,
            in_author: false,
            tag: Seq::empty(),
        }
    } else {
        feed_step(feed_read(events.drop_last()), events.last())
    }
}

/// The papers of an Atom feed of the API, or why it is no XML.
pub open spec fn feed(body: Seq<char>) -> Result<Seq<ArxivPaperView>, Seq<char>> {
    match xml::xml_events(body, "term"@) {
        Ok(events) => Ok(feed_read(events).papers),
        Err(message) => Err("arXiv XML parse error: "@ + message),
    }
}

fn open_tag(state: Feed, name: &str) -> (r: Feed)
    ensures
        r@ == opened(state@, name@),
{
    if text::same(name, "entry") {
        Feed { tag: name.to_owned(), in_entry: true, current: Some(new_paper()), ..state }
    } else if text::same(name, "author") && state.in_entry {
        Feed { tag: name.to_owned(), in_author: true, ..state }
    } else {
        Feed { tag: name.to_owned(), ..state }
    }
}

fn close_tag(state: Feed, name: &str) -> (r: Feed)
    ensures
        r@ == closed_tag(state@, name@),
{
    if text::same(name, "entry") {
        let mut papers = state.papers;
        let ghost before = papers@;
        if let Some(paper) = state.current {
            if !text::blank(paper.arxiv_id.as_str()) {
                papers.push(paper);
                assert(text::views(papers@) =~= text::views(before).push(paper@));
            }
        }
        Feed { in_entry: false, current: None, papers, in_author: state.in_author, tag: state.tag }
    } else if text::same(name, "author") {
        Feed { in_author: false, ..state }
    } else {
        Feed { tag: String::new(), ..state }
    }
}

fn tell(paper: ArxivPaper, tag: &str, in_author: bool, text: String) -> (r: ArxivPaper)
    ensures
        r@ == told(paper@, tag@, in_author, text@),
{
    if text::same(tag, "id") {
        let arxiv_id = base_id_of(text.as_str());
        let mut url = "https://arxiv.org/abs/".to_owned();
        url.append(arxiv_id.as_str());
        ArxivPaper { arxiv_id, url, ..paper }
    } else if text::same(tag, "title") {
        ArxivPaper { title: clean_text(text.as_str()), ..paper }
    } else if text::same(tag, "summary") {
        ArxivPaper { abstract_text: clean_text(text.as_str()), ..paper }
    } else if text::same(tag, "published") {
        ArxivPaper { published: Some(text), ..paper }
    } else if text::same(tag, "name") && in_author {
        let ghost known = paper.authors@;
        let mut authors = paper.authors;
        authors.push(text);
        assert(text::views(authors@) =~= text::views(known).push(text@));
        ArxivPaper { authors, ..paper }
    } else {
        paper
    }
}

fn step(state: Feed, event: &XmlEvent) -> (r: Feed)
    ensures
        r@ == feed_step(state@, event@),
{
    match event {
        XmlEvent::Start(name) => open_tag(state, name.as_str()),
        XmlEvent::End(name) => close_tag(state, name.as_str()),
        XmlEvent::Empty(name, value) => if text::same(name.as_str(), "category") && state.in_entry {
            match (state.current, value) {
                (Some(paper), Some(term)) => {
                    let ghost known = paper.categories@;
                    let mut categories = paper.categories;
                    let value = text::text_or_empty(term);
                    categories.push(value);
                    assert(text::views(categories@) =~= text::views(known).push(value@));
                    Feed {
                        current: Some(ArxivPaper { categories, ..paper }),
                        papers: state.papers,
                        in_entry: state.in_entry,
                        in_author: state.in_author,
                        tag: state.tag,
                    }
                },
                (current, _) => Feed {
                    current,
                    papers: state.papers,
                    in_entry: state.in_entry,
                    in_author: state.in_author,
                    tag: state.tag,
                },
            }
        } else {
            state
        },
        XmlEvent::Text(data) => if state.in_entry {
            let text = words::trimmed(text::text_or_empty(data).as_str());
            let empty = text::blank(text.as_str());
            match state.current {
                Some(paper) if !empty => Feed {
                    current: Some(tell(paper, state.tag.as_str(), state.in_author, text)),
                    papers: state.papers,
                    in_entry: state.in_entry,
                    in_author: state.in_author,
                    tag: state.tag,
                },
                current => Feed {
                    current,
                    papers: state.papers,
                    in_entry: state.in_entry,
                    in_author: state.in_author,
                    tag: state.tag,
                },
            }
        } else {
            state
        },
        XmlEvent::Other => state,
    }
}

/// The papers that the events of a feed make up.
pub fn papers_of(events: &Vec<XmlEvent>) -> (r: Vec<ArxivPaper>)
    ensures
        text::views(r@) == feed_read(text::views(events@)).papers,
{
    let ghost all = text::views(events@);
    let mut state = Feed {
        papers: Vec::new(),
        current: None,
        in_entry: false,
        in_author: false,
        tag: String::new(),
    };
    assert(all.take(0) =~= Seq::<XmlEventView>::empty());
    assert(state@.papers =~= Seq::<ArxivPaperView>::empty());
    for i in 0..events.len()
        invariant
            all == text::views(events@),
            state@ == feed_read(all.take(i as int)),
    {
        assert(all.take(i + 1).drop_last() == all.take(i as int));
        assert(all.take(i + 1).last() == events@[i as int]@);
        state = step(state, &events[i]);
    }
    assert(all.take(all.len() as int) == all);
    state.papers
}

/// The papers of an Atom feed of the API, or why it is no XML.
pub fn parse_feed(xml: &str) -> (r: Result<Vec<ArxivPaper>, String>)
    ensures
        http::list_result(r) == feed(xml@),
{
    match xml::read_xml(xml, "term") {
        Ok(events) => Ok(papers_of(&events)),
        Err(message) => {
            let mut error = "arXiv XML parse error: ".to_owned();
            error.append(message.as_str());
            Err(error)
        },
    }
}

/// The words of a text with one blank between each two: abstracts contain line breaks.
pub fn clean_text(s: &str) -> (r: String)
    ensures
        r@ == words::clean(s@),
{
    words::cleaned(s)
}

/// Every paper of a feed has an identifier, and the address that goes with it.
pub proof fn papers_have_addresses(events: Seq<XmlEventView>)
    ensures
        forall|i: int|
            0 <= i < feed_read(events).papers.len() ==> {
                let paper = #[trigger] feed_read(events).papers[i];
                paper.arxiv_id.len() > 0 && paper.url == page_of(paper.arxiv_id)
            },
        feed_read(events).current matches Some(paper) ==> paper.arxiv_id.len() > 0 ==> paper.url
            == page_of(paper.arxiv_id),
    decreases events.len(),
{
    if events.len() > 0 {
        papers_have_addresses(events.drop_last());
    }
}

// ── what a feed says is what is read ────────────────────────────────

/// A search asks for the query in all fields, for so many papers, the most relevant first.
pub proof fn searches_ask_for_the_query(query: Seq<char>, max_results: nat)
    ensures
        ({
            let request = search_request_for(query, max_results);
            &&& request.url == ARXIV_API_URL@
            &&& request.query.contains(("search_query"@, "all:"@ + query))
            &&& request.query.contains(("max_results"@, number::decimal(max_results)))
            &&& request.query.contains(("start"@, "0"@))
            &&& request.query.contains(("sortBy"@, "relevance"@))
            &&& request.query.contains(("sortOrder"@, "descending"@))
            &&& request.query.len() == 5
        }),
{
    let request = search_request_for(query, max_results);
    assert(request.query[0] == ("search_query"@, "all:"@ + query));
    assert(request.query[1] == ("start"@, "0"@));
    assert(request.query[2] == ("max_results"@, number::decimal(max_results)));
    assert(request.query[3] == ("sortBy"@, "relevance"@));
    assert(request.query[4] == ("sortOrder"@, "descending"@));
}

/// A paper is asked for by its identifier and nothing else.
pub proof fn papers_are_asked_for_by_id(arxiv_id: Seq<char>)
    ensures
        by_id_request_for(arxiv_id).url == ARXIV_API_URL@,
        by_id_request_for(arxiv_id).query.len() == 1,
        by_id_request_for(arxiv_id).query[0] == ("id_list"@, arxiv_id),
{
}

/// A good reply gives the papers of its feed, and to a request by identifier the first of
/// them; any other reply is an error.
pub proof fn replies_give_their_feed(reply: ReplyView, body: Seq<char>)
    requires
        http::body_or(
            reply,
            "arXiv search request failed"@,
            "arXiv API error "@,
            "arXiv response read failed"@,
        ) == Ok::<Seq<char>, Seq<char>>(body),
    ensures
        searched(reply) == feed(body),
        feed(body) matches Ok(papers) && papers.len() > 0 ==> fetched(reply) == Ok::<
            Option<ArxivPaperView>,
            Seq<char>,
        >(Some((feed(body)->Ok_0)[0])),
        feed(body) matches Ok(papers) && papers.len() == 0 ==> fetched(reply) == Ok::<
            Option<ArxivPaperView>,
            Seq<char>,
        >(None),
        feed(body) is Err ==> fetched(reply) is Err,
{
}

/// An address gives its last part as the identifier, without the version behind it.
pub proof fn identifiers_lose_address_and_version(
    address: Seq<char>,
    id: Seq<char>,
    version: Seq<char>,
)
    requires
        forall|i: int| 0 <= i < id.len() ==> #[trigger] id[i] != '/' && id[i] != 'v',
        forall|i: int| 0 <= i < version.len() ==> #[trigger] version[i] != '/',
    ensures
        base_id(address + seq!['/'] + id) == id,
        base_id(address + seq!['/'] + id + "v"@ + version) == id,
{
    reveal_strlit("v");
    let tail = id + "v"@ + version;
    last_part_is_found(address, id);
    last_part_is_found(address, tail);
    assert(address + seq!['/'] + tail =~= address + seq!['/'] + id + "v"@ + version);
    text::first_from_is_first(id, "v"@, 0);
    if let Some(at) = text::first(id, "v"@) {
        assert(id.subrange(at, at + 1)[0] == id[at]);
    }
    text::first_from_is_first(tail, "v"@, 0);
    assert(tail.subrange(id.len() as int, id.len() as int + 1) =~= "v"@);
    assert(text::occurs_at(tail, "v"@, id.len() as int));
    if let Some(at) = text::first(tail, "v"@) {
        if at < id.len() {
            assert(tail.subrange(at, at + 1)[0] == id[at]);
        }
        assert(at == id.len());
        assert(tail.take(at) =~= id);
    }
}

proof fn last_part_is_found(address: Seq<char>, part: Seq<char>)
    requires
        forall|i: int| 0 <= i < part.len() ==> #[trigger] part[i] != '/',
    ensures
        after_last(address + seq!['/'] + part, '/') == part,
    decreases part.len(),
{
    let text = address + seq!['/'] + part;
    if part.len() == 0 {
        assert(text.last() == '/');
        assert(part =~= Seq::<char>::empty());
    } else {
        let rest = part.drop_last();
        assert forall|i: int| 0 <= i < rest.len() implies #[trigger] rest[i] != '/' by {
            assert(rest[i] == part[i]);
        }
        last_part_is_found(address, rest);
        assert(text.drop_last() =~= address + seq!['/'] + rest);
        assert(text.last() == part[part.len() - 1]);
        assert(rest.push(part.last()) =~= part);
    }
}

/// Papers once read stay, in their order, whatever follows; each event adds one paper at most.
pub proof fn papers_once_read_stay(events: Seq<XmlEventView>, event: XmlEventView)
    ensures
        feed_read(events).papers.is_prefix_of(feed_read(events.push(event)).papers),
        feed_read(events.push(event)).papers.len() <= feed_read(events).papers.len() + 1,
        feed_read(events.push(event)).papers != feed_read(events).papers ==> event
            == XmlEventView::End("entry"@),
{
    assert(events.push(event).drop_last() =~= events);
}

/// An entry begins with nothing known of its paper.
pub proof fn entries_begin_blank(events: Seq<XmlEventView>)
    ensures
        ({
            let after = feed_read(events.push(XmlEventView::Start("entry"@)));
            &&& after.in_entry
            &&& after.papers == feed_read(events).papers
            &&& after.current matches Some(paper) && paper.arxiv_id.len() == 0
                && paper.title.len() == 0 && paper.authors.len() == 0 && paper.abstract_text.len()
                == 0 && paper.url.len() == 0 && paper.published is None && paper.categories.len()
                == 0
        }),
{
    assert(events.push(XmlEventView::Start("entry"@)).drop_last() =~= events);
}

/// Where an entry ends, its paper stands behind those read before, as it was read; an entry
/// without an identifier adds none.
pub proof fn entries_end_as_papers(events: Seq<XmlEventView>, paper: ArxivPaperView)
    requires
        feed_read(events).current == Some(paper),
    ensures
        ({
            let before = feed_read(events).papers;
            let after = feed_read(events.push(XmlEventView::End("entry"@)));
            &&& !after.in_entry && after.current is None
            &&& paper.arxiv_id.len() > 0 ==> after.papers.len() == before.len() + 1
                && after.papers.last() == paper && after.papers.drop_last() == before
            &&& paper.arxiv_id.len() == 0 ==> after.papers == before
        }),
{
    let all = events.push(XmlEventView::End("entry"@));
    assert(all.drop_last() =~= events);
    assert(feed_read(events).papers.push(paper).drop_last() =~= feed_read(events).papers);
}

/// The events of an element with a text.
pub open spec fn element(tag: Seq<char>, text: Seq<char>) -> Seq<XmlEventView> {
    seq![XmlEventView::Start(tag), XmlEventView::Text(Some(text)), XmlEventView::End(tag)]
}

proof fn steps_of_an_element(events: Seq<XmlEventView>, tag: Seq<char>, text: Seq<char>)
    ensures
        feed_read(events + element(tag, text)) == feed_step(
            feed_step(
                feed_step(feed_read(events), XmlEventView::Start(tag)),
                XmlEventView::Text(Some(text)),
            ),
            XmlEventView::End(tag),
        ),
{
    let three = events + element(tag, text);
    let two = events.push(XmlEventView::Start(tag)).push(XmlEventView::Text(Some(text)));
    assert(three.drop_last() =~= two);
    assert(two.drop_last() =~= events.push(XmlEventView::Start(tag)));
    assert(events.push(XmlEventView::Start(tag)).drop_last() =~= events);
    assert(three.last() == XmlEventView::End(tag));
    assert(feed_read(two) == feed_step(
        feed_read(events.push(XmlEventView::Start(tag))),
        XmlEventView::Text(Some(text)),
    ));
    assert(feed_read(three) == feed_step(feed_read(two), XmlEventView::End(tag)));
}

proof fn tags_differ()
    ensures
        "id"@ != "title"@ && "id"@ != "summary"@ && "id"@ != "published"@ && "id"@ != "name"@,
        "title"@ != "summary"@ && "title"@ != "published"@ && "title"@ != "name"@,
        "summary"@ != "published"@ && "summary"@ != "name"@ && "published"@ != "name"@,
        "entry"@ != "id"@ && "entry"@ != "title"@ && "entry"@ != "summary"@ && "entry"@
            != "published"@ && "entry"@ != "name"@ && "entry"@ != "author"@,
        "author"@ != "id"@ && "author"@ != "title"@ && "author"@ != "summary"@ && "author"@
            != "published"@ && "author"@ != "name"@,
{
    reveal_strlit("id");
    reveal_strlit("title");
    reveal_strlit("summary");
    reveal_strlit("published");
    reveal_strlit("name");
    reveal_strlit("entry");
    reveal_strlit("author");
    assert("id"@.len() == 2 && "title"@.len() == 5 && "summary"@.len() == 7 && "published"@.len()
        == 9 && "name"@.len() == 4 && "entry"@.len() == 5 && "author"@.len() == 6);
    assert("title"@[0] == 't' && "entry"@[0] == 'e');
}

/// Each element of an entry is read into its own place, as its text without the white space
/// around it: the identifier and with it the address, the title and the abstract as their
/// words, the date; and nothing else of the paper changes.
pub proof fn elements_are_read(
    events: Seq<XmlEventView>,
    paper: ArxivPaperView,
    text: Seq<char>,
)
    requires
        feed_read(events).in_entry,
        feed_read(events).current == Some(paper),
        words::trim(text).len() > 0,
    ensures
        feed_read(events + element("id"@, text)).current == Some(
            ArxivPaperView {
                arxiv_id: base_id(words::trim(text)),
                url: "https://arxiv.org/abs/"@ + base_id(words::trim(text)),
                ..paper
            },
        ),
        feed_read(events + element("title"@, text)).current == Some(
            ArxivPaperView { title: words::clean(words::trim(text)), ..paper },
        ),
        feed_read(events + element("summary"@, text)).current == Some(
            ArxivPaperView { abstract_text: words::clean(words::trim(text)), ..paper },
        ),
        feed_read(events + element("published"@, text)).current == Some(
            ArxivPaperView { published: Some(words::trim(text)), ..paper },
        ),
        feed_read(events).in_author ==> feed_read(events + element("name"@, text)).current == Some(
            ArxivPaperView { authors: paper.authors.push(words::trim(text)), ..paper },
        ),
        !feed_read(events).in_author ==> feed_read(events + element("name"@, text)).current
            == Some(paper),
        forall|tag: Seq<char>|
            tag == "id"@ || tag == "title"@ || tag == "summary"@ || tag == "published"@ || tag
                == "name"@ ==> {
                let after = #[trigger] feed_read(events + element(tag, text));
                after.in_entry && after.papers == feed_read(events).papers && after.in_author
                    == feed_read(events).in_author
            },
{
    tags_differ();
    steps_of_an_element(events, "id"@, text);
    steps_of_an_element(events, "title"@, text);
    steps_of_an_element(events, "summary"@, text);
    steps_of_an_element(events, "published"@, text);
    steps_of_an_element(events, "name"@, text);
}

/// The names of an entry's authors are those inside its author elements, and a category is
/// added by its term.
pub proof fn authors_and_categories_are_read(
    events: Seq<XmlEventView>,
    paper: ArxivPaperView,
    term: Seq<char>,
)
    requires
        feed_read(events).in_entry,
        feed_read(events).current == Some(paper),
    ensures
        feed_read(events.push(XmlEventView::Start("author"@))).in_author,
        feed_read(events.push(XmlEventView::Start("author"@))).current == Some(paper),
        !feed_read(events.push(XmlEventView::End("author"@))).in_author,
        feed_read(events.push(XmlEventView::End("author"@))).current == Some(paper),
        feed_read(events.push(XmlEventView::Empty("category"@, Some(Some(term))))).current == Some(
            ArxivPaperView { categories: paper.categories.push(term), ..paper },
        ),
{
    tags_differ();
    assert(events.push(XmlEventView::Start("author"@)).drop_last() =~= events);
    assert(events.push(XmlEventView::End("author"@)).drop_last() =~= events);
    assert(events.push(XmlEventView::Empty("category"@, Some(Some(term)))).drop_last() =~= events);
}

/// The events of an entry with an address and a title.
pub open spec fn entry(address: Seq<char>, title: Seq<char>) -> Seq<XmlEventView> {
    seq![XmlEventView::Start("entry"@)] + element("id"@, address) + element("title"@, title)
        + seq![XmlEventView::End("entry"@)]
}

/// The events of a feed with these entries.
pub open spec fn entries(items: Seq<(Seq<char>, Seq<char>)>) -> Seq<XmlEventView>
    decreases items.len(),
{
    if items.len() == 0 {
        Seq::empty()
    } else {
        entries(items.drop_last()) + entry(items.last().0, items.last().1)
    }
}

/// A feed yields a paper for each of its entries that has an identifier, in their order, each
/// with its own identifier, address and title.
pub proof fn every_entry_is_a_paper(items: Seq<(Seq<char>, Seq<char>)>)
    requires
        forall|i: int|
            0 <= i < items.len() ==> base_id(words::trim((#[trigger] items[i]).0)).len() > 0
                && words::trim(items[i].0).len() > 0 && words::trim(items[i].1).len() > 0,
    ensures
        ({
            let papers = feed_read(entries(items)).papers;
            &&& papers.len() == items.len()
            &&& forall|i: int|
                0 <= i < items.len() ==> {
                    let paper = #[trigger] papers[i];
                    paper.arxiv_id == base_id(words::trim(items[i].0)) && paper.url
                        == "https://arxiv.org/abs/"@ + base_id(words::trim(items[i].0))
                        && paper.title == words::clean(words::trim(items[i].1))
                }
        }),
    decreases items.len(),
{
    if items.len() > 0 {
        let rest = items.drop_last();
        assert forall|i: int| 0 <= i < rest.len() implies base_id(
            words::trim((#[trigger] rest[i]).0),
        ).len() > 0 && words::trim(rest[i].0).len() > 0 && words::trim(rest[i].1).len() > 0 by {
            assert(rest[i] == items[i]);
        }
        every_entry_is_a_paper(rest);
        let (address, title) = items.last();
        assert(items[items.len() - 1] == items.last());
        let before = entries(rest);
        let one = before.push(XmlEventView::Start("entry"@));
        entries_begin_blank(before);
        let blank = feed_read(one).current->0;
        elements_are_read(one, blank, address);
        let two = one + element("id"@, address);
        let named = feed_read(two).current->0;
        elements_are_read(two, named, title);
        let three = two + element("title"@, title);
        let whole = feed_read(three).current->0;
        entries_end_as_papers(three, whole);
        let four = three.push(XmlEventView::End("entry"@));
        assert(entries(items) =~= four);
        let papers = feed_read(four).papers;
        assert forall|i: int| 0 <= i < items.len() implies {
            let paper = #[trigger] papers[i];
            paper.arxiv_id == base_id(words::trim(items[i].0)) && paper.url
                == "https://arxiv.org/abs/"@ + base_id(words::trim(items[i].0)) && paper.title
                == words::clean(words::trim(items[i].1))
        } by {
            if i < rest.len() {
                assert(papers[i] == papers.drop_last()[i]);
                assert(rest[i] == items[i]);
            } else {
                assert(papers[i] == papers.last());
            }
        }
    }
}

/// A document gives all the papers of its feed: one for each entry that has an identifier, in
/// their order; where it is no XML, it gives the reason.
pub proof fn documents_give_all_their_papers(
    body: Seq<char>,
    items: Seq<(Seq<char>, Seq<char>)>,
    message: Seq<char>,
)
    requires
        forall|i: int|
            0 <= i < items.len() ==> base_id(words::trim((#[trigger] items[i]).0)).len() > 0
                && words::trim(items[i].0).len() > 0 && words::trim(items[i].1).len() > 0,
    ensures
        xml::xml_events(body, "term"@) == Ok::<Seq<XmlEventView>, Seq<char>>(entries(items))
            ==> (feed(body) matches Ok(papers) && papers.len() == items.len() && forall|i: int|
            0 <= i < items.len() ==> (#[trigger] papers[i]).arxiv_id == base_id(
                words::trim(items[i].0),
            ) && papers[i].title == words::clean(words::trim(items[i].1))),
        xml::xml_events(body, "term"@) == Err::<Seq<XmlEventView>, Seq<char>>(message) ==> (feed(
            body,
        ) matches Err(reason) && message.is_suffix_of(reason)),
{
    every_entry_is_a_paper(items);
    let reason = "arXiv XML parse error: "@ + message;
    assert(reason.subrange(reason.len() - message.len(), reason.len() as int) =~= message);
}

} // verus!
