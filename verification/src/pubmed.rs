//! PubMed: the requests of NCBI's E-utilities, and their records.

use vstd::prelude::*;

use crate::http;
use crate::http::{HttpReply, HttpRequest, ReplyView, RequestView};
use crate::number;
use crate::text;
use crate::words;
use crate::xml;
use crate::xml::{XmlEvent, XmlEventView};

verus! {

/// Where searches are answered.
pub const ESEARCH_URL: &'static str = "https://eutils.ncbi.nlm.nih.gov/entrez/eutils/esearch.fcgi";

/// Where records are served.
pub const EFETCH_URL: &'static str = "https://eutils.ncbi.nlm.nih.gov/entrez/eutils/efetch.fcgi";

/// How requests introduce themselves.
pub const USER_AGENT: &'static str = "research_mcp/0.1 (Rust deepresearch tool)";

/// A paper.
#[derive(Debug)]
pub struct PubmedPaper {
    pub pmid: String,
    pub title: String,
    pub authors: Vec<String>,
    pub abstract_text: String,
    pub url: String,
    pub journal: Option<String>,
    pub published: Option<String>,
    pub doi: Option<String>,
}

/// A paper with its texts as sequences of characters.
pub struct PubmedPaperView {
    pub pmid: Seq<char>,
    pub title: Seq<char>,
    pub authors: Seq<Seq<char>>,
    pub abstract_text: Seq<char>,
    pub url: Seq<char>,
    pub journal: Option<Seq<char>>,
    pub published: Option<Seq<char>>,
    pub doi: Option<Seq<char>>,
}

impl View for PubmedPaper {
    type V = PubmedPaperView;

    open spec fn view(&self) -> PubmedPaperView {
        PubmedPaperView {
            pmid: self.pmid@,
            title: self.title@,
            authors: text::views(self.authors@),
            abstract_text: self.abstract_text@,
            url: self.url@,
            journal: text::option_view(self.journal),
            published: text::option_view(self.published),
            doi: text::option_view(self.doi),
        }
    }
}

impl Clone for PubmedPaper {
    fn clone(&self) -> (copy: Self)
        ensures
            copy@ == self@,
    {
        PubmedPaper {
            pmid: self.pmid.clone(),
            title: self.title.clone(),
            authors: text::copy_texts(&self.authors),
            abstract_text: self.abstract_text.clone(),
            url: self.url.clone(),
            journal: text::copy_option(&self.journal),
            published: text::copy_option(&self.published),
            doi: text::copy_option(&self.doi),
        }
    }
}

// ── requests ────────────────────────────────────────────────────────

/// The request that searches for `query`, most relevant first.
pub open spec fn esearch_request_for(query: Seq<char>, max_results: nat) -> RequestView {
    RequestView {
        url: ESEARCH_URL@,
        query: seq![
            ("db"@, "pubmed"@),
            ("term"@, query),
            ("retmax"@, number::decimal(max_results)),
            ("retmode"@, "json"@),
            ("sort"@, "relevance"@),
            ("tool"@, "research_mcp"@),
            ("email"@, "research@local.invalid"@),
        ],
        headers: seq![("User-Agent"@, USER_AGENT@)],
    }
}

/// The request that searches for `query`, most relevant first.
pub fn esearch_request(query: &str, max_results: usize) -> (r: HttpRequest)
    ensures
        r@ == esearch_request_for(query@, max_results as nat),
{
    let fields = http::with_field(http::no_fields(), "db", "pubmed");
    let fields = http::with_field(fields, "term", query);
    let fields = http::with_field(
        fields,
        "retmax",
        number::decimal_of(max_results as u128).as_str(),
    );
    let fields = http::with_field(fields, "retmode", "json");
    let fields = http::with_field(fields, "sort", "relevance");
    let fields = http::with_field(fields, "tool", "research_mcp");
    let fields = http::with_field(fields, "email", "research@local.invalid");
    let headers = http::with_field(http::no_fields(), "User-Agent", USER_AGENT);
    let r = HttpRequest { url: ESEARCH_URL.to_owned(), query: fields, headers };
    assert(r@.query =~= esearch_request_for(query@, max_results as nat).query);
    assert(r@.headers =~= esearch_request_for(query@, max_results as nat).headers);
    r
}

/// The request for the records of some identifiers; none when there is none to ask for.
pub open spec fn efetch_request_for(pmids: Seq<Seq<char>>) -> Option<RequestView> {
    if pmids.len() == 0 {
        None
    } else {
        Some(
            RequestView {
                url: EFETCH_URL@,
                query: seq![
                    ("db"@, "pubmed"@),
                    ("id"@, words::joined(pmids, ","@)),
                    ("retmode"@, "xml"@),
                    ("tool"@, "research_mcp"@),
                    ("email"@, "research@local.invalid"@),
                ],
                headers: seq![("User-Agent"@, USER_AGENT@)],
            },
        )
    }
}

/// The request for the records of some identifiers; none when there is none to ask for.
pub fn efetch_request(pmids: &Vec<String>) -> (r: Option<HttpRequest>)
    ensures
        text::option_view(r) == efetch_request_for(text::views(pmids@)),
{
    if pmids.len() == 0 {
        return None;
    }
    let fields = http::with_field(http::no_fields(), "db", "pubmed");
    let fields = http::with_field(fields, "id", words::join(pmids, ",").as_str());
    let fields = http::with_field(fields, "retmode", "xml");
    let fields = http::with_field(fields, "tool", "research_mcp");
    let fields = http::with_field(fields, "email", "research@local.invalid");
    let headers = http::with_field(http::no_fields(), "User-Agent", USER_AGENT);
    let r = HttpRequest { url: EFETCH_URL.to_owned(), query: fields, headers };
    proof {
        let wanted = efetch_request_for(text::views(pmids@))->0;
        assert(r@.query =~= wanted.query);
        assert(r@.headers =~= wanted.headers);
    }
    Some(r)
}

/// The identifiers that a reply to a search holds. `parsed` is what its body parses to.
pub open spec fn searched_ids(reply: ReplyView, parsed: Option<Seq<Seq<char>>>) -> Result<
    Seq<Seq<char>>,
    Seq<char>,
> {
    match http::refusal(reply, "PubMed esearch request failed"@, "PubMed esearch error "@) {
        Some(message) => Err(message),
        None => match parsed {
            Some(ids) => Ok(ids),
            None => Err("PubMed esearch parse failed"@),
        },
    }
}

/// The identifiers that a reply to a search holds. `parsed` is what its body parses to.
pub fn esearch_reply(reply: &HttpReply, parsed: Option<Vec<String>>) -> (r: Result<
    Vec<String>,
    String,
>)
    ensures
        http::list_result(r) == searched_ids(
            reply@,
            match parsed {
                Some(ids) => Some(text::views(ids@)),
                None => None,
            },
        ),
{
    match http::refusal_of(reply, "PubMed esearch request failed", "PubMed esearch error ") {
        Some(message) => Err(message),
        None => match parsed {
            Some(ids) => Ok(ids),
            None => Err("PubMed esearch parse failed".to_owned()),
        },
    }
}

/// The papers that a reply to a request for records holds.
pub open spec fn fetched(reply: ReplyView) -> Result<Seq<PubmedPaperView>, Seq<char>> {
    match http::body_or(
        reply,
        "PubMed efetch request failed"@,
        "PubMed efetch error "@,
        "PubMed efetch read failed"@,
    ) {
        Ok(body) => records(body),
        Err(message) => Err(message),
    }
}

/// The papers that a reply to a request for records holds.
pub fn efetch_reply(reply: HttpReply) -> (r: Result<Vec<PubmedPaper>, String>)
    ensures
        http::list_result(r) == fetched(reply@),
{
    match http::body_of(
        reply,
        "PubMed efetch request failed",
        "PubMed efetch error ",
        "PubMed efetch read failed",
    ) {
        Ok(body) => parse_records(body.as_str()),
        Err(message) => Err(message),
    }
}

/// The paper asked for by its identifier: the first that the reply holds.
pub fn by_id_reply(reply: HttpReply) -> (r: Result<Option<PubmedPaper>, String>)
    ensures
        match fetched(reply@) {
            Ok(papers) => r matches Ok(found) && text::option_view(found) == if papers.len() > 0 {
                Some(papers[0])
            } else {
                None
            },
            Err(message) => r matches Err(error) && error@ == message,
        },
{
    match efetch_reply(reply) {
        Ok(papers) => if papers.len() > 0 {
            Ok(Some(papers[0].clone()))
        } else {
            Ok(None)
        },
        Err(message) => Err(message),
    }
}

// ── records ─────────────────────────────────────────────────────────

/// Where a paper can be read.
pub open spec fn page_of(pmid: Seq<char>) -> Seq<char> {
    "https://pubmed.ncbi.nlm.nih.gov/"@ + pmid + "/"@
}

/// A paper of which nothing is known.
pub open spec fn blank_paper() -> PubmedPaperView {
    PubmedPaperView {
        pmid: Seq::empty(),
        title: Seq::empty(),
        authors: Seq::empty(),
        abstract_text: Seq::empty(),
        url: Seq::empty(),
        journal: None,
        published: None,
        doi: None,
    }
}

fn new_paper() -> (r: PubmedPaper)
    ensures
        r@ == blank_paper(),
{
    let r = PubmedPaper {
        pmid: String::new(),
        title: String::new(),
        authors: Vec::new(),
        abstract_text: String::new(),
        url: String::new(),
        journal: None,
        published: None,
        doi: None,
    };
    assert(r@.authors =~= Seq::<Seq<char>>::empty());
    r
}

/// A reading of a set of records, up to some event.
pub struct RecordsView {
    /// The papers read so far.
    pub papers: Seq<PubmedPaperView>,
    /// The paper under way.
    pub current: Option<PubmedPaperView>,
    pub in_author: bool,
    /// The element that text belongs to; empty when text belongs to none.
    pub tag: Seq<char>,
}

struct Records {
    papers: Vec<PubmedPaper>,
    current: Option<PubmedPaper>,
    in_author: bool,
    tag: String,
}

impl View for Records {
    type V = RecordsView;

    closed spec fn view(&self) -> RecordsView {
        RecordsView {
            papers: text::views(self.papers@),
            current: text::option_view(self.current),
            in_author: self.in_author,
            tag: self.tag@,
        }
    }
}

/// A start tag: an article starts a paper.
pub open spec fn opened(state: RecordsView, name: Seq<char>) -> RecordsView {
    if name == "PubmedArticle"@ {
        RecordsView { tag: name, current: Some(blank_paper()), ..state }
    } else if name == "Author"@ {
        RecordsView { tag: name, in_author: true, ..state }
    } else {
        RecordsView { tag: name, ..state }
    }
}

/// An end tag: an article's end adds its paper, when that has an identifier.
pub open spec fn closed_tag(state: RecordsView, name: Seq<char>) -> RecordsView {
    if name == "PubmedArticle"@ {
        RecordsView {
            current: None,
            papers: match state.current {
                Some(paper) => if paper.pmid.len() > 0 {
                    state.papers.push(
                        PubmedPaperView {
                            abstract_text: words::clean(paper.abstract_text),
                            ..paper
                        },
                    )
                } else {
                    state.papers
                },
                None => state.papers,
            },
            ..state
        }
    } else if name == "Author"@ {
        RecordsView { in_author: false, ..state }
    } else {
        RecordsView { tag: Seq::empty(), ..state }
    }
}

/// The authors with the last one's given name put before the family name.
pub open spec fn given_name(authors: Seq<Seq<char>>, name: Seq<char>) -> Seq<Seq<char>> {
    if authors.len() == 0 {
        authors
    } else {
        authors.update(authors.len() - 1, name + " "@ + authors.last())
    }
}

/// A paper with the text of one of its elements. The first identifier, journal, year and
/// location stay: a record may name other articles behind its own.
pub open spec fn told(
    paper: PubmedPaperView,
    tag: Seq<char>,
    in_author: bool,
    text: Seq<char>,
) -> PubmedPaperView {
    if tag == "PMID"@ && paper.pmid.len() == 0 {
        PubmedPaperView { pmid: text, url: page_of(text), ..paper }
    } else if tag == "ArticleTitle"@ {
        PubmedPaperView { title: words::clean(text), ..paper }
    } else if tag == "AbstractText"@ {
        PubmedPaperView { abstract_text: paper.abstract_text + text + " "@, ..paper }
    } else if tag == "Title"@ && paper.journal is None {
        PubmedPaperView { journal: Some(text), ..paper }
    } else if tag == "LastName"@ && in_author {
        PubmedPaperView { authors: paper.authors.push(text), ..paper }
    } else if tag == "ForeName"@ && in_author {
        PubmedPaperView { authors: given_name(paper.authors, text), ..paper }
    } else if tag == "Year"@ && paper.published is None {
        PubmedPaperView { published: Some(text), ..paper }
    } else if tag == "ELocationID"@ && paper.doi is None {
        PubmedPaperView { doi: Some(text), ..paper }
    } else {
        paper
    }
}

/// The reading after one more event.
pub open spec fn records_step(state: RecordsView, event: XmlEventView) -> RecordsView {
    match event {
        XmlEventView::Start(name) => opened(state, name),
        XmlEventView::End(name) => closed_tag(state, name),
        XmlEventView::Text(data) => match state.current {
            Some(paper) if words::trim(text::or_empty(data)).len() > 0 => RecordsView {
                current: Some(
                    told(paper, state.tag, state.in_author, words::trim(text::or_empty(data))),
                ),
                ..state
            },
            _ => state,
        },
        _ => state,
    }
}

/// The reading of a document's events.
pub open spec fn records_read(events: Seq<XmlEventView>) -> RecordsView
    decreases events.len(),
{
    if events.len() == 0 {
        RecordsView {
            papers: Seq::empty(),
            current: None,
            in_author: false,
            tag: Seq::empty(),
        }
    } else {
        records_step(records_read(events.drop_last()), events.last())
    }
}

/// The papers of a set of records, or why it is no XML.
pub open spec fn records(body: Seq<char>) -> Result<Seq<PubmedPaperView>, Seq<char>> {
    match xml::xml_events(body, ""@) {
        Ok(events) => Ok(records_read(events).papers),
        Err(message) => Err("PubMed XML parse error: "@ + message),
    }
}

fn close_tag(state: Records, name: &str) -> (r: Records)
    ensures
        r@ == closed_tag(state@, name@),
{
    if text::same(name, "PubmedArticle") {
        let mut papers = state.papers;
        let ghost before = papers@;
        if let Some(paper) = state.current {
            if !text::blank(paper.pmid.as_str()) {
                let abstract_text = clean_text(paper.abstract_text.as_str());
                let whole = PubmedPaper { abstract_text, ..paper };
                papers.push(whole);
                assert(text::views(papers@) =~= text::views(before).push(whole@));
            }
        }
        Records { current: None, papers, in_author: state.in_author, tag: state.tag }
    } else if text::same(name, "Author") {
        Records { in_author: false, ..state }
    } else {
        Records { tag: String::new(), ..state }
    }
}

fn give_name(authors: Vec<String>, name: &str) -> (r: Vec<String>)
    ensures
        text::views(r@) == given_name(text::views(authors@), name@),
{
    let total: usize = authors.len();
    let mut all = authors;
    if total > 0 {
        let mut whole = name.to_owned();
        whole.append(" ");
        whole.append(all[total - 1].as_str());
        all[total - 1] = whole;
        assert(text::views(all@) =~= given_name(text::views(authors@), name@));
    }
    all
}

fn tell(paper: PubmedPaper, tag: &str, in_author: bool, text: String) -> (r: PubmedPaper)
    ensures
        r@ == told(paper@, tag@, in_author, text@),
{
    if text::same(tag, "PMID") && text::blank(paper.pmid.as_str()) {
        let mut url = "https://pubmed.ncbi.nlm.nih.gov/".to_owned();
        url.append(text.as_str());
        url.append("/");
        PubmedPaper { pmid: text, url, ..paper }
    } else if text::same(tag, "ArticleTitle") {
        PubmedPaper { title: clean_text(text.as_str()), ..paper }
    } else if text::same(tag, "AbstractText") {
        let mut abstract_text = paper.abstract_text;
        abstract_text.append(text.as_str());
        abstract_text.append(" ");
        PubmedPaper { abstract_text, ..paper }
    } else if text::same(tag, "Title") && paper.journal.is_none() {
        PubmedPaper { journal: Some(text), ..paper }
    } else if text::same(tag, "LastName") && in_author {
        let ghost known = paper.authors@;
        let mut authors = paper.authors;
        authors.push(text);
        assert(text::views(authors@) =~= text::views(known).push(text@));
        PubmedPaper { authors, ..paper }
    } else if text::same(tag, "ForeName") && in_author {
        let authors = give_name(paper.authors, text.as_str());
        PubmedPaper { authors, ..paper }
    } else if text::same(tag, "Year") && paper.published.is_none() {
        PubmedPaper { published: Some(text), ..paper }
    } else if text::same(tag, "ELocationID") && paper.doi.is_none() {
        PubmedPaper { doi: Some(text), ..paper }
    } else {
        paper
    }
}

fn step(state: Records, event: &XmlEvent) -> (r: Records)
    ensures
        r@ == records_step(state@, event@),
{
    match event {
        XmlEvent::Start(name) => if text::same(name.as_str(), "PubmedArticle") {
            Records { tag: name.clone(), current: Some(new_paper()), ..state }
        } else if text::same(name.as_str(), "Author") {
            Records { tag: name.clone(), in_author: true, ..state }
        } else {
            Records { tag: name.clone(), ..state }
        },
        XmlEvent::End(name) => close_tag(state, name.as_str()),
        XmlEvent::Text(data) => {
            let text = words::trimmed(text::text_or_empty(data).as_str());
            let empty = text::blank(text.as_str());
            match state.current {
                Some(paper) if !empty => Records {
                    current: Some(tell(paper, state.tag.as_str(), state.in_author, text)),
                    papers: state.papers,
                    in_author: state.in_author,
                    tag: state.tag,
                },
                current => Records {
                    current,
                    papers: state.papers,
                    in_author: state.in_author,
                    tag: state.tag,
                },
            }
        },
        _ => state,
    }
}

/// The papers that the events of a set of records make up.
pub fn papers_of(events: &Vec<XmlEvent>) -> (r: Vec<PubmedPaper>)
    ensures
        text::views(r@) == records_read(text::views(events@)).papers,
{
    let ghost all = text::views(events@);
    let mut state = Records {
        papers: Vec::new(),
        current: None,
        in_author: false,
        tag: String::new(),
    };
    assert(all.take(0) =~= Seq::<XmlEventView>::empty());
    assert(state@.papers =~= Seq::<PubmedPaperView>::empty());
    for i in 0..events.len()
        invariant
            all == text::views(events@),
            state@ == records_read(all.take(i as int)),
    {
        assert(all.take(i + 1).drop_last() == all.take(i as int));
        assert(all.take(i + 1).last() == events@[i as int]@);
        state = step(state, &events[i]);
    }
    assert(all.take(all.len() as int) == all);
    state.papers
}

/// The papers of a set of records, or why it is no XML.
pub fn parse_records(xml: &str) -> (r: Result<Vec<PubmedPaper>, String>)
    ensures
        http::list_result(r) == records(xml@),
{
    match xml::read_xml(xml, "") {
        Ok(events) => Ok(papers_of(&events)),
        Err(message) => {
            let mut error = "PubMed XML parse error: ".to_owned();
            error.append(message.as_str());
            Err(error)
        },
    }
}

/// The words of a text with one blank between each two.
pub fn clean_text(s: &str) -> (r: String)
    ensures
        r@ == words::clean(s@),
{
    words::cleaned(s)
}

/// A record keeps its own identifier and address, whatever other articles it names.
pub proof fn records_keep_their_identifier(
    paper: PubmedPaperView,
    tag: Seq<char>,
    in_author: bool,
    text: Seq<char>,
)
    requires
        paper.pmid.len() > 0,
    ensures
        told(paper, tag, in_author, text).pmid == paper.pmid,
        told(paper, tag, in_author, text).url == paper.url,
{
}

/// Every paper of a set of records has an identifier, and the address that goes with it.
pub proof fn papers_have_addresses(events: Seq<XmlEventView>)
    ensures
        forall|i: int|
            0 <= i < records_read(events).papers.len() ==> {
                let paper = #[trigger] records_read(events).papers[i];
                paper.pmid.len() > 0 && paper.url == page_of(paper.pmid)
            },
        records_read(events).current matches Some(paper) ==> paper.pmid.len() > 0 ==> paper.url
            == page_of(paper.pmid),
    decreases events.len(),
{
    if events.len() > 0 {
        papers_have_addresses(events.drop_last());
    }
}

// ── what the records say is what is read ────────────────────────────

/// A search asks for the query and for so many papers, and records are asked for by each
/// identifier.
pub proof fn searches_ask_for_the_query(query: Seq<char>, max_results: nat)
    ensures
        ({
            let request = esearch_request_for(query, max_results);
            &&& request.url == ESEARCH_URL@
            &&& request.query.contains(("term"@, query))
            &&& request.query.contains(("retmax"@, number::decimal(max_results)))
            &&& request.query.contains(("db"@, "pubmed"@))
            &&& request.query.contains(("retmode"@, "json"@))
        }),
{
    let request = esearch_request_for(query, max_results);
    assert(request.query[0] == ("db"@, "pubmed"@));
    assert(request.query[1] == ("term"@, query));
    assert(request.query[2] == ("retmax"@, number::decimal(max_results)));
    assert(request.query[3] == ("retmode"@, "json"@));
}

/// Records are asked for by every identifier that was found, and not at all where none was.
pub proof fn every_id_is_asked_for(pmids: Seq<Seq<char>>, i: int)
    requires
        0 <= i < pmids.len(),
    ensures
        efetch_request_for(Seq::empty()) is None,
        efetch_request_for(pmids) matches Some(request) && request.url == EFETCH_URL@
            && request.query[0] == ("db"@, "pubmed"@) && request.query[1].0 == "id"@
            && text::contains(request.query[1].1, pmids[i]) && request.query[2] == (
            "retmode"@,
            "xml"@,
        ),
{
    words::joined_holds_each(pmids, ","@, i);
}

/// A good reply gives the identifiers that it holds; any other is an error.
pub proof fn replies_give_their_ids(reply: ReplyView, ids: Seq<Seq<char>>)
    ensures
        http::refusal(reply, "PubMed esearch request failed"@, "PubMed esearch error "@) is None
            ==> searched_ids(reply, Some(ids)) == Ok::<Seq<Seq<char>>, Seq<char>>(ids),
        searched_ids(reply, None) is Err,
        http::refusal(reply, "PubMed esearch request failed"@, "PubMed esearch error "@) is Some
            ==> searched_ids(reply, Some(ids)) is Err,
{
}

/// Papers once read stay, in their order, whatever follows; each event adds one paper at most.
pub proof fn papers_once_read_stay(events: Seq<XmlEventView>, event: XmlEventView)
    ensures
        records_read(events).papers.is_prefix_of(records_read(events.push(event)).papers),
        records_read(events.push(event)).papers.len() <= records_read(events).papers.len() + 1,
        records_read(events.push(event)).papers != records_read(events).papers ==> event
            == XmlEventView::End("PubmedArticle"@),
{
    assert(events.push(event).drop_last() =~= events);
}

/// An article begins with nothing known of its paper.
pub proof fn articles_begin_blank(events: Seq<XmlEventView>)
    ensures
        ({
            let after = records_read(events.push(XmlEventView::Start("PubmedArticle"@)));
            &&& after.papers == records_read(events).papers
            &&& after.in_author == records_read(events).in_author
            &&& after.current matches Some(paper) && paper.pmid.len() == 0 && paper.title.len()
                == 0 && paper.authors.len() == 0 && paper.abstract_text.len() == 0
                && paper.url.len() == 0 && paper.journal is None && paper.published is None
                && paper.doi is None
        }),
{
    assert(events.push(XmlEventView::Start("PubmedArticle"@)).drop_last() =~= events);
}

/// Where an article ends, its paper stands behind those read before, as it was read but for
/// the white space of its abstract; an article without an identifier adds none.
pub proof fn articles_end_as_papers(events: Seq<XmlEventView>, paper: PubmedPaperView)
    requires
        records_read(events).current == Some(paper),
    ensures
        ({
            let before = records_read(events).papers;
            let after = records_read(events.push(XmlEventView::End("PubmedArticle"@)));
            &&& after.current is None
            &&& paper.pmid.len() > 0 ==> after.papers.len() == before.len() + 1
                && after.papers.drop_last() == before && after.papers.last() == (PubmedPaperView {
                abstract_text: words::clean(paper.abstract_text),
                ..paper
            })
            &&& paper.pmid.len() == 0 ==> after.papers == before
        }),
{
    let all = events.push(XmlEventView::End("PubmedArticle"@));
    assert(all.drop_last() =~= events);
    assert(records_read(events).papers.push(
        PubmedPaperView { abstract_text: words::clean(paper.abstract_text), ..paper },
    ).drop_last() =~= records_read(events).papers);
}

/// The events of an element with a text.
pub open spec fn element(tag: Seq<char>, text: Seq<char>) -> Seq<XmlEventView> {
    seq![XmlEventView::Start(tag), XmlEventView::Text(Some(text)), XmlEventView::End(tag)]
}

proof fn steps_of_an_element(events: Seq<XmlEventView>, tag: Seq<char>, text: Seq<char>)
    ensures
        records_read(events + element(tag, text)) == records_step(
            records_step(
                records_step(records_read(events), XmlEventView::Start(tag)),
                XmlEventView::Text(Some(text)),
            ),
            XmlEventView::End(tag),
        ),
{
    let three = events + element(tag, text);
    let one = events.push(XmlEventView::Start(tag));
    let two = one.push(XmlEventView::Text(Some(text)));
    assert(three.drop_last() =~= two);
    assert(two.drop_last() =~= one);
    assert(one.drop_last() =~= events);
    assert(three.last() == XmlEventView::End(tag));
    assert(records_read(two) == records_step(
        records_read(one),
        XmlEventView::Text(Some(text)),
    ));
    assert(records_read(three) == records_step(records_read(two), XmlEventView::End(tag)));
}

proof fn tags_differ()
    ensures
        "PMID"@.len() == 4 && "ArticleTitle"@.len() == 12 && "AbstractText"@.len() == 12
            && "Title"@.len() == 5 && "LastName"@.len() == 8 && "ForeName"@.len() == 8
            && "Year"@.len() == 4 && "ELocationID"@.len() == 11 && "PubmedArticle"@.len() == 13
            && "Author"@.len() == 6,
        "PMID"@ != "Year"@ && "ArticleTitle"@ != "AbstractText"@ && "LastName"@ != "ForeName"@,
{
    reveal_strlit("PMID");
    reveal_strlit("ArticleTitle");
    reveal_strlit("AbstractText");
    reveal_strlit("Title");
    reveal_strlit("LastName");
    reveal_strlit("ForeName");
    reveal_strlit("Year");
    reveal_strlit("ELocationID");
    reveal_strlit("PubmedArticle");
    reveal_strlit("Author");
    assert("PMID"@[0] == 'P' && "Year"@[0] == 'Y');
    assert("ArticleTitle"@[1] == 'r' && "AbstractText"@[1] == 'b');
    assert("LastName"@[0] == 'L' && "ForeName"@[0] == 'F');
}

/// Each element of an article is read into its own place, as its text without the white space
/// around it: the first identifier, journal, year and location, the title, every stretch of
/// the abstract; and nothing else of the paper changes.
pub proof fn elements_are_read(
    events: Seq<XmlEventView>,
    paper: PubmedPaperView,
    text: Seq<char>,
)
    requires
        records_read(events).current == Some(paper),
        words::trim(text).len() > 0,
    ensures
        records_read(events + element("PMID"@, text)).current == Some(
            if paper.pmid.len() == 0 {
                PubmedPaperView {
                    pmid: words::trim(text),
                    url: "https://pubmed.ncbi.nlm.nih.gov/"@ + words::trim(text) + "/"@,
                    ..paper
                }
            } else {
                paper
            },
        ),
        records_read(events + element("ArticleTitle"@, text)).current == Some(
            PubmedPaperView { title: words::clean(words::trim(text)), ..paper },
        ),
        records_read(events + element("AbstractText"@, text)).current == Some(
            PubmedPaperView {
                abstract_text: paper.abstract_text + words::trim(text) + " "@,
                ..paper
            },
        ),
        records_read(events + element("Title"@, text)).current == Some(
            if paper.journal is None {
                PubmedPaperView { journal: Some(words::trim(text)), ..paper }
            } else {
                paper
            },
        ),
        records_read(events + element("Year"@, text)).current == Some(
            if paper.published is None {
                PubmedPaperView { published: Some(words::trim(text)), ..paper }
            } else {
                paper
            },
        ),
        records_read(events + element("ELocationID"@, text)).current == Some(
            if paper.doi is None {
                PubmedPaperView { doi: Some(words::trim(text)), ..paper }
            } else {
                paper
            },
        ),
        forall|tag: Seq<char>|
            tag != "PubmedArticle"@ && tag != "Author"@ ==> {
                let after = #[trigger] records_read(events + element(tag, text));
                after.current is Some && after.papers == records_read(events).papers
                    && after.in_author == records_read(events).in_author
            },
{
    tags_differ();
    steps_of_an_element(events, "PMID"@, text);
    steps_of_an_element(events, "ArticleTitle"@, text);
    steps_of_an_element(events, "AbstractText"@, text);
    steps_of_an_element(events, "Title"@, text);
    steps_of_an_element(events, "Year"@, text);
    steps_of_an_element(events, "ELocationID"@, text);
    assert forall|tag: Seq<char>| tag != "PubmedArticle"@ && tag != "Author"@ implies {
        let after = #[trigger] records_read(events + element(tag, text));
        after.current is Some && after.papers == records_read(events).papers && after.in_author
            == records_read(events).in_author
    } by {
        steps_of_an_element(events, tag, text);
    }
}

/// An author with a family name and a given name is added behind those before, the given name
/// first, and nothing else of the paper changes.
pub proof fn authors_are_read(
    events: Seq<XmlEventView>,
    paper: PubmedPaperView,
    family: Seq<char>,
    given: Seq<char>,
)
    requires
        records_read(events).current == Some(paper),
        words::trim(family).len() > 0,
        words::trim(given).len() > 0,
    ensures
        ({
            let start = events.push(XmlEventView::Start("Author"@));
            let half = start + element("LastName"@, family);
            let whole = half + element("ForeName"@, given);
            let after = records_read(whole.push(XmlEventView::End("Author"@)));
            &&& records_read(half).current == Some(
                PubmedPaperView { authors: paper.authors.push(words::trim(family)), ..paper },
            )
            &&& after.current == Some(
                PubmedPaperView {
                    authors: paper.authors.push(
                        words::trim(given) + " "@ + words::trim(family),
                    ),
                    ..paper
                },
            )
            &&& !after.in_author
            &&& after.papers == records_read(events).papers
        }),
{
    tags_differ();
    let start = events.push(XmlEventView::Start("Author"@));
    let half = start + element("LastName"@, family);
    let whole = half + element("ForeName"@, given);
    let all = whole.push(XmlEventView::End("Author"@));
    assert(start.drop_last() =~= events);
    assert(records_read(start).in_author && records_read(start).current == Some(paper));
    steps_of_an_element(start, "LastName"@, family);
    steps_of_an_element(half, "ForeName"@, given);
    assert(all.drop_last() =~= whole);
    let full = words::trim(given) + " "@ + words::trim(family);
    assert(given_name(paper.authors.push(words::trim(family)), words::trim(given))
        =~= paper.authors.push(full));
}

/// The events of an article with an identifier and a title.
pub open spec fn article(pmid: Seq<char>, title: Seq<char>) -> Seq<XmlEventView> {
    seq![XmlEventView::Start("PubmedArticle"@)] + element("PMID"@, pmid) + element(
        "ArticleTitle"@,
        title,
    ) + seq![XmlEventView::End("PubmedArticle"@)]
}

/// The events of a set of records with these articles.
pub open spec fn articles(items: Seq<(Seq<char>, Seq<char>)>) -> Seq<XmlEventView>
    decreases items.len(),
{
    if items.len() == 0 {
        Seq::empty()
    } else {
        articles(items.drop_last()) + article(items.last().0, items.last().1)
    }
}

/// A set of records yields a paper for each of its articles, in their order, each with its own
/// identifier, address and title.
pub proof fn every_article_is_a_paper(items: Seq<(Seq<char>, Seq<char>)>)
    requires
        forall|i: int|
            0 <= i < items.len() ==> words::trim((#[trigger] items[i]).0).len() > 0
                && words::trim(items[i].1).len() > 0,
    ensures
        ({
            let papers = records_read(articles(items)).papers;
            &&& papers.len() == items.len()
            &&& forall|i: int|
                0 <= i < items.len() ==> {
                    let paper = #[trigger] papers[i];
                    paper.pmid == words::trim(items[i].0) && paper.url
                        == "https://pubmed.ncbi.nlm.nih.gov/"@ + words::trim(items[i].0) + "/"@
                        && paper.title == words::clean(words::trim(items[i].1))
                }
        }),
    decreases items.len(),
{
    if items.len() > 0 {
        let rest = items.drop_last();
        assert forall|i: int| 0 <= i < rest.len() implies words::trim(
            (#[trigger] rest[i]).0,
        ).len() > 0 && words::trim(rest[i].1).len() > 0 by {
            assert(rest[i] == items[i]);
        }
        every_article_is_a_paper(rest);
        let (pmid, title) = items.last();
        assert(items[items.len() - 1] == items.last());
        let before = articles(rest);
        let one = before.push(XmlEventView::Start("PubmedArticle"@));
        articles_begin_blank(before);
        let blank = records_read(one).current->0;
        elements_are_read(one, blank, pmid);
        let two = one + element("PMID"@, pmid);
        let named = records_read(two).current->0;
        elements_are_read(two, named, title);
        let three = two + element("ArticleTitle"@, title);
        let whole = records_read(three).current->0;
        articles_end_as_papers(three, whole);
        let four = three.push(XmlEventView::End("PubmedArticle"@));
        assert(articles(items) =~= four);
        tags_differ();
        assert(records_read(two).papers == records_read(one).papers);
        assert(records_read(three).papers == records_read(two).papers);
        let papers = records_read(four).papers;
        assert forall|i: int| 0 <= i < items.len() implies {
            let paper = #[trigger] papers[i];
            paper.pmid == words::trim(items[i].0) && paper.url
                == "https://pubmed.ncbi.nlm.nih.gov/"@ + words::trim(items[i].0) + "/"@
                && paper.title == words::clean(words::trim(items[i].1))
        } by {
            if i < rest.len() {
                assert(papers[i] == papers.drop_last()[i]);
                assert(rest[i] == items[i]);
            } else {
                assert(papers[i] == papers.last());
            }
        }
    }
}

/// A document gives all the papers of its records: one for each article that has an
/// identifier, in their order; where it is no XML, it gives the reason.
pub proof fn documents_give_all_their_papers(
    body: Seq<char>,
    items: Seq<(Seq<char>, Seq<char>)>,
    message: Seq<char>,
)
    requires
        forall|i: int|
            0 <= i < items.len() ==> words::trim((#[trigger] items[i]).0).len() > 0
                && words::trim(items[i].1).len() > 0,
    ensures
        xml::xml_events(body, ""@) == Ok::<Seq<XmlEventView>, Seq<char>>(articles(items)) ==> (
        records(body) matches Ok(papers) && papers.len() == items.len() && forall|i: int|
            0 <= i < items.len() ==> (#[trigger] papers[i]).pmid == words::trim(items[i].0)
                && papers[i].title == words::clean(words::trim(items[i].1))),
        xml::xml_events(body, ""@) == Err::<Seq<XmlEventView>, Seq<char>>(message) ==> (records(
            body,
        ) matches Err(reason) && message.is_suffix_of(reason)),
{
    every_article_is_a_paper(items);
    let reason = "PubMed XML parse error: "@ + message;
    assert(reason.subrange(reason.len() - message.len(), reason.len() as int) =~= message);
}

/// A good reply gives the papers of its records; a refusal tells the status.
pub proof fn replies_give_their_records(
    status: u16,
    status_text: Seq<char>,
    content_type: Seq<char>,
    body: Seq<char>,
)
    ensures
        ({
            let reply = ReplyView::Answer { status, status_text, content_type, body: Ok(body) };
            &&& 200 <= status <= 299 ==> fetched(reply) == records(body)
            &&& !(200 <= status <= 299) ==> (fetched(reply) matches Err(message)
                && status_text.is_suffix_of(message))
        }),
{
    let message = "PubMed efetch error "@ + status_text;
    assert(message.subrange(message.len() - status_text.len(), message.len() as int)
        =~= status_text);
}

} // verus!
