//! Fetching: turning what was found into evidence.

use vstd::prelude::*;

use crate::arxiv::{ArxivPaper, ArxivPaperView};
use crate::number;
use crate::pubmed::{PubmedPaper, PubmedPaperView};
use crate::scopus::{ScopusPaper, ScopusPaperView};
use crate::search::{SearchResult, SearchResultView};
use crate::text;
use crate::words;
use crate::workflow::evidence::{EvidenceItem, EvidenceView};

verus! {

/// The fewest characters that a text must have to count.
pub const MIN_TEXT: usize = 200;

/// The characters of evidence allowed for each source, at most.
pub const CHARS_PER_SOURCE: usize = 12000;

/// The name of the n-th source.
pub open spec fn source_id(n: nat) -> Seq<char> {
    "S"@ + number::decimal(n)
}

fn source_id_of(n: u128) -> (r: String)
    ensures
        r@ == source_id(n as nat),
{
    let mut r = "S".to_owned();
    r.append(number::decimal_of(n).as_str());
    r
}

/// The sources under their names: S1, S2 and so on.
pub open spec fn numbered(items: Seq<EvidenceView>) -> Seq<EvidenceView> {
    items.map(
        |i: int, item: EvidenceView| EvidenceView { id: source_id((i + 1) as nat), ..item },
    )
}

fn accept(evidence: &mut Vec<EvidenceItem>, item: EvidenceItem)
    ensures
        text::views(final(evidence)@) == text::views(old(evidence)@).push(
            (EvidenceView { id: source_id(old(evidence)@.len() + 1), ..item@ }),
        ),
{
    let ghost before = evidence@;
    let id = source_id_of(evidence.len() as u128 + 1);
    let named = EvidenceItem {
        id,
        title: item.title,
        url: item.url,
        snippet: item.snippet,
        text: item.text,
    };
    evidence.push(named);
    assert(text::views(evidence@) =~= text::views(before).push(named@));
}

// ── papers ──────────────────────────────────────────────────────────

/// Where arXiv has a paper in full.
pub open spec fn full_text_address(arxiv_id: Seq<char>) -> Seq<char> {
    "https://arxiv.org/html/"@ + arxiv_id
}

/// Where arXiv has a paper in full.
pub fn full_text_url(paper: &ArxivPaper) -> (r: String)
    ensures
        r@ == full_text_address(paper.arxiv_id@),
{
    let mut url = "https://arxiv.org/html/".to_owned();
    url.append(paper.arxiv_id.as_str());
    url
}

/// What is known of a paper of arXiv, and the paper in full where its text could be had.
pub open spec fn arxiv_text(paper: ArxivPaperView, page: Option<Seq<char>>) -> Seq<char> {
    let known = "Authors: "@ + words::joined(paper.authors, ", "@) + "\nCategories: "@
        + words::joined(paper.categories, ", "@) + "\nPublished: "@ + text::or_empty(
        paper.published,
    ) + "\n\nAbstract:\n"@ + paper.abstract_text;
    match page {
        Some(full) => if full.len() >= MIN_TEXT {
            known + "\n\n--- FULL TEXT (arxiv.org/html) ---\n\n"@ + full
        } else {
            known
        },
        None => known,
    }
}

/// A paper of arXiv as a source.
pub open spec fn arxiv_source(paper: ArxivPaperView, page: Option<Seq<char>>) -> EvidenceView {
    EvidenceView {
        id: Seq::empty(),
        title: paper.title + " (arXiv:"@ + paper.arxiv_id + ")"@,
        url: full_text_address(paper.arxiv_id),
        snippet: Seq::empty(),
        text: arxiv_text(paper, page),
    }
}

fn arxiv_item(paper: &ArxivPaper, page: &Option<String>) -> (r: EvidenceItem)
    ensures
        r@ == arxiv_source(paper@, text::option_view(*page)),
{
    let mut text = "Authors: ".to_owned();
    text.append(words::join(&paper.authors, ", ").as_str());
    text.append("\nCategories: ");
    text.append(words::join(&paper.categories, ", ").as_str());
    text.append("\nPublished: ");
    text.append(text::text_or_empty(&paper.published).as_str());
    text.append("\n\nAbstract:\n");
    text.append(paper.abstract_text.as_str());
    if let Some(full) = page {
        if text::chars_of(full.as_str()).len() >= MIN_TEXT {
            text.append("\n\n--- FULL TEXT (arxiv.org/html) ---\n\n");
            text.append(full.as_str());
        }
    }
    let mut title = paper.title.clone();
    title.append(" (arXiv:");
    title.append(paper.arxiv_id.as_str());
    title.append(")");
    let r = EvidenceItem {
        id: String::new(),
        title,
        url: full_text_url(paper),
        snippet: String::new(),
        text,
    };
    assert(r@.id =~= Seq::<char>::empty());
    assert(r@.snippet =~= Seq::<char>::empty());
    r
}

/// A paper of PubMed as a source.
pub open spec fn pubmed_source(paper: PubmedPaperView) -> EvidenceView {
    EvidenceView {
        id: Seq::empty(),
        title: paper.title + " (PMID:"@ + paper.pmid + ")"@,
        url: paper.url,
        snippet: Seq::empty(),
        text: "Journal: "@ + text::or_empty(paper.journal) + "\nAuthors: "@ + words::joined(
            paper.authors,
            ", "@,
        ) + "\nPublished: "@ + text::or_empty(paper.published) + "\nDOI: "@ + text::or_empty(
            paper.doi,
        ) + "\n\nAbstract:\n"@ + paper.abstract_text,
    }
}

fn pubmed_item(paper: &PubmedPaper) -> (r: EvidenceItem)
    ensures
        r@ == pubmed_source(paper@),
{
    let mut text = "Journal: ".to_owned();
    text.append(text::text_or_empty(&paper.journal).as_str());
    text.append("\nAuthors: ");
    text.append(words::join(&paper.authors, ", ").as_str());
    text.append("\nPublished: ");
    text.append(text::text_or_empty(&paper.published).as_str());
    text.append("\nDOI: ");
    text.append(text::text_or_empty(&paper.doi).as_str());
    text.append("\n\nAbstract:\n");
    text.append(paper.abstract_text.as_str());
    let mut title = paper.title.clone();
    title.append(" (PMID:");
    title.append(paper.pmid.as_str());
    title.append(")");
    let r = EvidenceItem {
        id: String::new(),
        title,
        url: paper.url.clone(),
        snippet: String::new(),
        text,
    };
    assert(r@.id =~= Seq::<char>::empty());
    assert(r@.snippet =~= Seq::<char>::empty());
    r
}

/// The DOI under which the abstract of a paper is asked for: its own, where abstracts can be
/// asked for at all.
pub open spec fn abstract_wanted(paper: ScopusPaperView, with_scopus: bool) -> Option<Seq<char>> {
    if with_scopus {
        paper.doi
    } else {
        None
    }
}

/// The DOI under which the abstract of a paper is asked for: its own, where abstracts can be
/// asked for at all.
pub fn wanted_doi(paper: &ScopusPaper, with_scopus: bool) -> (r: Option<String>)
    ensures
        text::option_view(r) == abstract_wanted(paper@, with_scopus),
{
    if with_scopus {
        text::copy_option(&paper.doi)
    } else {
        None
    }
}

/// The abstract of a paper: the one that was fetched, unless there is none.
pub open spec fn abstract_of(paper: ScopusPaperView, fetched: Option<Seq<char>>) -> Seq<char> {
    if text::or_empty(fetched).len() > 0 {
        text::or_empty(fetched)
    } else {
        paper.abstract_text
    }
}

/// A paper of Scopus as a source.
pub open spec fn scopus_source(paper: ScopusPaperView, fetched: Option<Seq<char>>) -> EvidenceView {
    EvidenceView {
        id: Seq::empty(),
        title: paper.title + " (Scopus)"@,
        url: paper.url,
        snippet: Seq::empty(),
        text: "Journal: "@ + text::or_empty(paper.journal) + "\nAuthors: "@ + words::joined(
            paper.creators,
            ", "@,
        ) + "\nYear: "@ + text::or_empty(paper.year) + "\nDOI: "@ + text::or_empty(paper.doi)
            + "\nCited by: "@ + number::signed_decimal(paper.citedby as int) + "\n\nAbstract:\n"@
            + abstract_of(paper, fetched),
    }
}

fn scopus_item(paper: &ScopusPaper, fetched: &Option<String>) -> (r: EvidenceItem)
    ensures
        r@ == scopus_source(paper@, text::option_view(*fetched)),
{
    let found = text::text_or_empty(fetched);
    let abstract_text = if text::blank(found.as_str()) {
        paper.abstract_text.clone()
    } else {
        found
    };
    let mut text = "Journal: ".to_owned();
    text.append(text::text_or_empty(&paper.journal).as_str());
    text.append("\nAuthors: ");
    text.append(words::join(&paper.creators, ", ").as_str());
    text.append("\nYear: ");
    text.append(text::text_or_empty(&paper.year).as_str());
    text.append("\nDOI: ");
    text.append(text::text_or_empty(&paper.doi).as_str());
    text.append("\nCited by: ");
    text.append(number::signed_decimal_of(paper.citedby).as_str());
    text.append("\n\nAbstract:\n");
    text.append(abstract_text.as_str());
    let mut title = paper.title.clone();
    title.append(" (Scopus)");
    let r = EvidenceItem {
        id: String::new(),
        title,
        url: paper.url.clone(),
        snippet: String::new(),
        text,
    };
    assert(r@.id =~= Seq::<char>::empty());
    assert(r@.snippet =~= Seq::<char>::empty());
    r
}

/// The text that was fetched for the i-th paper, if any.
pub open spec fn fetched_at(texts: Seq<Option<Seq<char>>>, i: int) -> Option<Seq<char>> {
    if 0 <= i < texts.len() {
        texts[i]
    } else {
        None
    }
}

/// The view of some optional texts.
pub open spec fn option_views(texts: Seq<Option<String>>) -> Seq<Option<Seq<char>>> {
    texts.map_values(|text: Option<String>| text::option_view(text))
}

fn fetched_text(texts: &Vec<Option<String>>, i: usize) -> (r: Option<String>)
    ensures
        text::option_view(r) == fetched_at(option_views(texts@), i as int),
{
    if i < texts.len() {
        text::copy_option(&texts[i])
    } else {
        None
    }
}

/// The papers as sources: those of arXiv, of PubMed and of Scopus, in this order. `pages`
/// are the full texts fetched for the papers of arXiv, `abstracts` those for the papers of
/// Scopus.
pub open spec fn paper_sources(
    arxiv: Seq<ArxivPaperView>,
    pages: Seq<Option<Seq<char>>>,
    pubmed: Seq<PubmedPaperView>,
    scopus: Seq<ScopusPaperView>,
    abstracts: Seq<Option<Seq<char>>>,
) -> Seq<EvidenceView> {
    numbered(
        arxiv.map(
            |i: int, paper: ArxivPaperView| arxiv_source(paper, fetched_at(pages, i)),
        ) + pubmed.map_values(|paper: PubmedPaperView| pubmed_source(paper)) + scopus.map(
            |i: int, paper: ScopusPaperView| scopus_source(paper, fetched_at(abstracts, i)),
        ),
    )
}

proof fn numbered_grows(items: Seq<EvidenceView>, n: int)
    requires
        0 <= n < items.len(),
    ensures
        numbered(items.take(n + 1)) == numbered(items.take(n)).push(
            (EvidenceView { id: source_id((n + 1) as nat), ..items[n] }),
        ),
{
    assert(numbered(items.take(n + 1)) =~= numbered(items.take(n)).push(
        (EvidenceView { id: source_id((n + 1) as nat), ..items[n] }),
    ));
}

/// The papers as sources.
pub fn paper_evidence(
    arxiv: &Vec<ArxivPaper>,
    pages: &Vec<Option<String>>,
    pubmed: &Vec<PubmedPaper>,
    scopus: &Vec<ScopusPaper>,
    abstracts: &Vec<Option<String>>,
) -> (r: Vec<EvidenceItem>)
    ensures
        text::views(r@) == paper_sources(
            text::views(arxiv@),
            option_views(pages@),
            text::views(pubmed@),
            text::views(scopus@),
            option_views(abstracts@),
        ),
{
    let ghost first = text::views(arxiv@).map(
        |i: int, paper: ArxivPaperView| arxiv_source(paper, fetched_at(option_views(pages@), i)),
    );
    let ghost second = text::views(pubmed@).map_values(
        |paper: PubmedPaperView| pubmed_source(paper),
    );
    let ghost third = text::views(scopus@).map(
        |i: int, paper: ScopusPaperView|
            scopus_source(paper, fetched_at(option_views(abstracts@), i)),
    );
    let ghost all = first + second + third;
    let mut out: Vec<EvidenceItem> = Vec::new();
    assert(text::views(out@) =~= numbered(all.take(0)));
    for i in 0..arxiv.len()
        invariant
            first == text::views(arxiv@).map(
                |i: int, paper: ArxivPaperView|
                    arxiv_source(paper, fetched_at(option_views(pages@), i)),
            ),
            all == first + second + third,
            text::views(out@) == numbered(all.take(i as int)),
            out@.len() == i,
    {
        let item = arxiv_item(&arxiv[i], &fetched_text(pages, i));
        proof {
            assert(all[i as int] == first[i as int]);
            assert(item@ == all[i as int]);
            numbered_grows(all, i as int);
        }
        accept(&mut out, item);
        assert(text::views(out@).len() == i + 1);
    }
    for i in 0..pubmed.len()
        invariant
            first.len() == arxiv@.len(),
            second == text::views(pubmed@).map_values(|paper: PubmedPaperView| pubmed_source(paper)),
            all == first + second + third,
            text::views(out@) == numbered(all.take(arxiv@.len() + i)),
            out@.len() == arxiv@.len() + i,
    {
        let item = pubmed_item(&pubmed[i]);
        proof {
            assert(all[arxiv@.len() + i] == second[i as int]);
            assert(item@ == all[arxiv@.len() + i]);
            numbered_grows(all, arxiv@.len() + i);
        }
        accept(&mut out, item);
        assert(text::views(out@).len() == arxiv@.len() + i + 1);
    }
    for i in 0..scopus.len()
        invariant
            first.len() == arxiv@.len(),
            second.len() == pubmed@.len(),
            third == text::views(scopus@).map(
                |i: int, paper: ScopusPaperView|
                    scopus_source(paper, fetched_at(option_views(abstracts@), i)),
            ),
            all == first + second + third,
            text::views(out@) == numbered(all.take(arxiv@.len() + pubmed@.len() + i)),
            out@.len() == arxiv@.len() + pubmed@.len() + i,
    {
        let item = scopus_item(&scopus[i], &fetched_text(abstracts, i));
        proof {
            assert(all[arxiv@.len() + pubmed@.len() + i] == third[i as int]);
            assert(item@ == all[arxiv@.len() + pubmed@.len() + i]);
            numbered_grows(all, arxiv@.len() + pubmed@.len() + i);
        }
        accept(&mut out, item);
        assert(text::views(out@).len() == arxiv@.len() + pubmed@.len() + i + 1);
    }
    assert(all.take(all.len() as int) =~= all);
    out
}

// ── web pages ───────────────────────────────────────────────────────

/// The characters of evidence collected so far.
pub open spec fn total_chars(evidence: Seq<EvidenceView>) -> nat
    decreases evidence.len(),
{
    if evidence.len() == 0 {
        0
    } else {
        total_chars(evidence.drop_last()) + evidence.last().text.len()
    }
}

/// The size of the evidence from which no more pages are fetched.
pub open spec fn context_budget(max_sources: nat) -> nat {
    if CHARS_PER_SOURCE * max_sources > usize::MAX {
        usize::MAX as nat
    } else {
        (CHARS_PER_SOURCE * max_sources) as nat
    }
}

/// How many papers are fetched in full: as many as the limit of downloads allows.
pub fn full_texts_allowed(papers: usize, max_sources: usize) -> (r: usize)
    ensures
        r == (if papers <= max_sources {
            papers
        } else {
            max_sources
        }),
{
    if papers <= max_sources {
        papers
    } else {
        max_sources
    }
}

/// How many downloads the limit leaves for pages once so many papers are fetched in full.
pub open spec fn pages_allowed(max_sources: nat, full_texts: nat) -> nat {
    if full_texts <= max_sources {
        (max_sources - full_texts) as nat
    } else {
        0
    }
}

/// Some source has this address.
pub open spec fn is_source(evidence: Seq<EvidenceView>, url: Seq<char>) -> bool {
    exists|i: int| 0 <= i < evidence.len() && (#[trigger] evidence[i]).url == url
}

/// Fetching the pages that a search found, up to some page.
pub struct PagesView {
    pub web: Seq<SearchResultView>,
    /// The limit of downloads.
    pub max_sources: nat,
    /// How many papers are fetched in full.
    pub full_texts: nat,
    pub evidence: Seq<EvidenceView>,
    pub rejected: Seq<Seq<char>>,
    /// The position of the next page to look at.
    pub at: nat,
}

/// The page to fetch next: the next one, among as many as the limit leaves for pages, that is
/// no source yet, as long as there is room for more evidence.
pub open spec fn next_page(state: PagesView) -> Option<int>
    decreases state.web.len() - state.at,
{
    if state.at >= state.web.len() || state.at >= pages_allowed(
        state.max_sources,
        state.full_texts,
    ) {
        None
    } else if is_source(state.evidence, state.web[state.at as int].url) {
        next_page(PagesView { at: state.at + 1, ..state })
    } else if total_chars(state.evidence) >= context_budget(state.max_sources) {
        None
    } else {
        Some(state.at as int)
    }
}

/// The state once the page at `page` was fetched; without a text when that failed. A short
/// text is refused.
pub open spec fn page_fetched(state: PagesView, page: int, text: Option<Seq<char>>) -> PagesView {
    let result = state.web[page];
    match text {
        Some(text) => if text.len() < MIN_TEXT {
            PagesView {
                rejected: state.rejected.push(result.url + " (too short)"@),
                at: (page + 1) as nat,
                ..state
            }
        } else {
            PagesView {
                evidence: state.evidence.push(
                    EvidenceView {
                        id: source_id(state.evidence.len() + 1),
                        title: result.title,
                        url: result.url,
                        snippet: result.snippet,
                        text,
                    },
                ),
                at: (page + 1) as nat,
                ..state
            }
        },
        None => PagesView {
            rejected: state.rejected.push(result.url),
            at: (page + 1) as nat,
            ..state
        },
    }
}

/// Fetching the pages that a search found.
#[derive(Debug)]
pub struct PageFetch {
    web: Vec<SearchResult>,
    max_sources: usize,
    full_texts: usize,
    evidence: Vec<EvidenceItem>,
    rejected: Vec<String>,
    at: usize,
}

impl View for PageFetch {
    type V = PagesView;

    closed spec fn view(&self) -> PagesView {
        PagesView {
            web: text::views(self.web@),
            max_sources: self.max_sources as nat,
            full_texts: self.full_texts as nat,
            evidence: text::views(self.evidence@),
            rejected: text::views(self.rejected@),
            at: self.at as nat,
        }
    }
}

fn sources_hold(evidence: &Vec<EvidenceItem>, url: &str) -> (r: bool)
    ensures
        r == is_source(text::views(evidence@), url@),
{
    let ghost all = text::views(evidence@);
    for i in 0..evidence.len()
        invariant
            all == text::views(evidence@),
            forall|j: int| 0 <= j < i ==> (#[trigger] all[j]).url != url@,
    {
        assert(all[i as int] == evidence@[i as int]@);
        if text::same(evidence[i].url.as_str(), url) {
            return true;
        }
    }
    false
}

fn chars_used(evidence: &Vec<EvidenceItem>) -> (r: usize)
    ensures
        r == if total_chars(text::views(evidence@)) > usize::MAX {
            usize::MAX as nat
        } else {
            total_chars(text::views(evidence@))
        },
{
    let ghost all = text::views(evidence@);
    let mut used: usize = 0;
    assert(all.take(0) =~= Seq::<EvidenceView>::empty());
    for i in 0..evidence.len()
        invariant
            all == text::views(evidence@),
            used == if total_chars(all.take(i as int)) > usize::MAX {
                usize::MAX as nat
            } else {
                total_chars(all.take(i as int))
            },
    {
        assert(all.take(i + 1).drop_last() == all.take(i as int));
        assert(all.take(i + 1).last() == evidence@[i as int]@);
        let size: usize = text::chars_of(evidence[i].text.as_str()).len();
        used = used.saturating_add(size);
    }
    assert(all.take(all.len() as int) == all);
    used
}

fn budget_for(max_sources: usize) -> (r: usize)
    ensures
        r == context_budget(max_sources as nat),
{
    match max_sources.checked_mul(CHARS_PER_SOURCE) {
        Some(budget) => budget,
        None => usize::MAX,
    }
}

impl PageFetch {
    /// Start with the sources that are there already, for which so many papers were fetched
    /// in full.
    pub fn start(
        web: Vec<SearchResult>,
        max_sources: usize,
        full_texts: usize,
        evidence: Vec<EvidenceItem>,
    ) -> (r: PageFetch)
        ensures
            r@ == (PagesView {
                web: text::views(web@),
                max_sources: max_sources as nat,
                full_texts: full_texts as nat,
                evidence: text::views(evidence@),
                rejected: Seq::empty(),
                at: 0,
            }),
    {
        let r = PageFetch { web, max_sources, full_texts, evidence, rejected: Vec::new(), at: 0 };
        assert(r@.rejected =~= Seq::<Seq<char>>::empty());
        r
    }

    /// The position of the page to fetch next.
    pub fn next(&self) -> (r: Option<usize>)
        ensures
            match r {
                Some(page) => next_page(self@) == Some(page as int) && page < self@.web.len(),
                None => next_page(self@) is None,
            },
    {
        let limit: usize = self.max_sources.saturating_sub(self.full_texts);
        let mut at: usize = self.at;
        assert(PagesView { at: at as nat, ..self@ } == self@);
        while at < self.web.len() && at < limit
            invariant
                limit == pages_allowed(self@.max_sources, self@.full_texts),
                next_page(self@) == next_page(PagesView { at: at as nat, ..self@ }),
            decreases self.web@.len() - at,
        {
            assert(self@.web[at as int] == self.web@[at as int]@);
            if !sources_hold(&self.evidence, self.web[at].url.as_str()) {
                if chars_used(&self.evidence) >= budget_for(self.max_sources) {
                    return None;
                }
                return Some(at);
            }
            at += 1;
        }
        None
    }

    /// The address of a page.
    pub fn address(&self, page: usize) -> (r: String)
        requires
            page < self@.web.len(),
        ensures
            r@ == self@.web[page as int].url,
    {
        self.web[page].url.clone()
    }

    /// Take in the text of a page; none when it could not be fetched.
    pub fn fetched(&mut self, page: usize, text: Option<String>)
        requires
            page < old(self)@.web.len(),
        ensures
            final(self)@ == page_fetched(old(self)@, page as int, text::option_view(text)),
    {
        let ghost before = self@;
        let total: usize = self.web.len();
        assert(page < total);
        match text {
            Some(text) => if text::chars_of(text.as_str()).len() < MIN_TEXT {
                let mut reason = self.web[page].url.clone();
                reason.append(" (too short)");
                self.rejected.push(reason);
                assert(self@.rejected =~= before.rejected.push(reason@));
            } else {
                let item = EvidenceItem {
                    id: String::new(),
                    title: self.web[page].title.clone(),
                    url: self.web[page].url.clone(),
                    snippet: self.web[page].snippet.clone(),
                    text,
                };
                accept(&mut self.evidence, item);
            },
            None => {
                let url = self.web[page].url.clone();
                self.rejected.push(url);
                assert(self@.rejected =~= before.rejected.push(url@));
            },
        }
        self.at = page + 1;
        assert(self@.web == before.web);
    }

    /// The sources, and what was refused.
    pub fn finish(self) -> (r: (Vec<EvidenceItem>, Vec<String>))
        ensures
            text::views(r.0@) == self@.evidence,
            text::views(r.1@) == self@.rejected,
    {
        (self.evidence, self.rejected)
    }
}

// ── laws ────────────────────────────────────────────────────────────

/// Each source is named after its position.
pub open spec fn named_in_order(evidence: Seq<EvidenceView>) -> bool {
    forall|i: int|
        0 <= i < evidence.len() ==> (#[trigger] evidence[i]).id == source_id((i + 1) as nat)
}

/// The papers are named S1, S2 and so on.
pub proof fn papers_are_named_in_order(
    arxiv: Seq<ArxivPaperView>,
    pages: Seq<Option<Seq<char>>>,
    pubmed: Seq<PubmedPaperView>,
    scopus: Seq<ScopusPaperView>,
    abstracts: Seq<Option<Seq<char>>>,
)
    ensures
        named_in_order(paper_sources(arxiv, pages, pubmed, scopus, abstracts)),
{
}

/// Each page that is accepted takes the next name.
pub proof fn pages_take_the_next_name(state: PagesView, page: int, text: Option<Seq<char>>)
    requires
        named_in_order(state.evidence),
    ensures
        named_in_order(page_fetched(state, page, text).evidence),
{
}

/// Sources named in order have different names.
pub proof fn names_differ(evidence: Seq<EvidenceView>, i: int, j: int)
    requires
        named_in_order(evidence),
        0 <= i < j < evidence.len(),
    ensures
        evidence[i].id != evidence[j].id,
{
    if evidence[i].id == evidence[j].id {
        let a = number::decimal((i + 1) as nat);
        let b = number::decimal((j + 1) as nat);
        assert(("S"@ + a).skip("S"@.len() as int) =~= a);
        assert(("S"@ + b).skip("S"@.len() as int) =~= b);
        number::decimal_is_injective((i + 1) as nat, (j + 1) as nat);
    }
}

/// A page is fetched only among as many as the limit leaves for pages, only where its address
/// is no source yet, and only while there is room for more evidence; fetching goes on behind
/// it.
pub proof fn fetched_pages_are_wanted(state: PagesView)
    ensures
        next_page(state) matches Some(page) ==> {
            &&& state.at <= page < state.web.len()
            &&& page < pages_allowed(state.max_sources, state.full_texts)
            &&& !is_source(state.evidence, state.web[page].url)
            &&& total_chars(state.evidence) < context_budget(state.max_sources)
            &&& forall|i: int|
                state.at <= i < page ==> is_source(state.evidence, (#[trigger] state.web[i]).url)
        },
    decreases state.web.len() - state.at,
{
    if state.at < state.web.len() && state.at < pages_allowed(
        state.max_sources,
        state.full_texts,
    ) && is_source(
        state.evidence,
        state.web[state.at as int].url,
    ) {
        fetched_pages_are_wanted(PagesView { at: state.at + 1, ..state });
    }
}

/// A page adds one source or one refusal, never both, and sources once accepted stay.
pub proof fn a_page_is_accepted_or_refused(state: PagesView, page: int, text: Option<Seq<char>>)
    ensures
        ({
            let after = page_fetched(state, page, text);
            let accepted = text matches Some(found) && found.len() >= MIN_TEXT;
            &&& accepted ==> after.evidence.drop_last() == state.evidence && after.rejected
                == state.rejected && after.evidence.last().url == state.web[page].url
            &&& !accepted ==> after.evidence == state.evidence && after.rejected.drop_last()
                == state.rejected && after.rejected.len() == state.rejected.len() + 1
        }),
{
    let after = page_fetched(state, page, text);
    if text matches Some(found) && found.len() >= MIN_TEXT {
        assert(after.evidence.drop_last() =~= state.evidence);
    } else {
        assert(after.rejected.drop_last() =~= state.rejected);
    }
}

/// The state once pages were fetched one after the other, with these texts.
pub open spec fn pages_fetched(state: PagesView, texts: Seq<Option<Seq<char>>>) -> PagesView
    decreases texts.len(),
{
    match next_page(state) {
        Some(page) => if texts.len() == 0 {
            state
        } else {
            pages_fetched(page_fetched(state, page, texts[0]), texts.drop_first())
        },
        None => state,
    }
}

/// However the pages turn out, no more of them are fetched than the limit leaves for pages.
pub proof fn fetching_keeps_to_the_limit(state: PagesView, texts: Seq<Option<Seq<char>>>)
    requires
        state.at <= pages_allowed(state.max_sources, state.full_texts),
    ensures
        ({
            let after = pages_fetched(state, texts);
            let accepted = after.evidence.len() - state.evidence.len();
            let refused = after.rejected.len() - state.rejected.len();
            accepted >= 0 && refused >= 0 && accepted + refused <= pages_allowed(
                state.max_sources,
                state.full_texts,
            ) - state.at
        }),
    decreases texts.len(),
{
    fetched_pages_are_wanted(state);
    if let Some(page) = next_page(state) {
        if texts.len() > 0 {
            fetching_keeps_to_the_limit(page_fetched(state, page, texts[0]), texts.drop_first());
        }
    }
}

/// The limit is a hard one: the papers that are fetched in full, and the pages that are
/// fetched after them, whether they are accepted or refused, are together no more than it
/// allows.
pub proof fn downloads_keep_to_the_limit(
    papers: nat,
    max_sources: nat,
    web: Seq<SearchResultView>,
    evidence: Seq<EvidenceView>,
    texts: Seq<Option<Seq<char>>>,
)
    ensures
        ({
            let full_texts = if papers <= max_sources {
                papers
            } else {
                max_sources
            };
            let start = PagesView {
                web,
                max_sources,
                full_texts,
                evidence,
                rejected: Seq::empty(),
                at: 0,
            };
            let after = pages_fetched(start, texts);
            let pages = after.evidence.len() - evidence.len() + after.rejected.len();
            full_texts + pages <= max_sources
        }),
{
    let full_texts = if papers <= max_sources {
        papers
    } else {
        max_sources
    };
    fetching_keeps_to_the_limit(
        PagesView { web, max_sources, full_texts, evidence, rejected: Seq::empty(), at: 0 },
        texts,
    );
}

/// No two sources have the same address.
pub open spec fn addresses_differ(evidence: Seq<EvidenceView>) -> bool {
    forall|i: int, j: int|
        0 <= i < j < evidence.len() ==> (#[trigger] evidence[i]).url != (#[trigger] evidence[j]).url
}

/// No page becomes a source twice.
pub proof fn no_page_is_a_source_twice(state: PagesView, texts: Seq<Option<Seq<char>>>)
    requires
        addresses_differ(state.evidence),
    ensures
        addresses_differ(pages_fetched(state, texts).evidence),
    decreases texts.len(),
{
    fetched_pages_are_wanted(state);
    if let Some(page) = next_page(state) {
        if texts.len() > 0 {
            no_page_is_a_source_twice(page_fetched(state, page, texts[0]), texts.drop_first());
        }
    }
}


/// The source made of an accepted page carries over what the search found of it: its title,
/// its address and its snippet, beside the text that was fetched; nothing else changes but
/// the position, which moves behind the page.
pub proof fn pages_carry_over_what_was_found(state: PagesView, page: int, text: Seq<char>)
    requires
        0 <= page < state.web.len(),
        text.len() >= 200,
    ensures
        ({
            let after = page_fetched(state, page, Some(text));
            &&& after.evidence.len() == state.evidence.len() + 1
            &&& after.evidence.last().title == state.web[page].title
            &&& after.evidence.last().url == state.web[page].url
            &&& after.evidence.last().snippet == state.web[page].snippet
            &&& after.evidence.last().text == text
            &&& after.evidence.last().id == "S"@ + number::decimal(state.evidence.len() + 1)
            &&& after.evidence.drop_last() == state.evidence
            &&& after.rejected == state.rejected
            &&& after.at == page + 1
            &&& after.web == state.web
            &&& after.max_sources == state.max_sources
            &&& after.full_texts == state.full_texts
        }),
{
    assert(page_fetched(state, page, Some(text)).evidence.drop_last() =~= state.evidence);
}

/// A refused page is recorded by its address, and where a text came that was too short, with
/// that reason; nothing else changes but the position, which moves behind the page.
pub proof fn refused_pages_are_named(state: PagesView, page: int, text: Option<Seq<char>>)
    requires
        0 <= page < state.web.len(),
        text matches Some(short) ==> short.len() < 200,
    ensures
        ({
            let after = page_fetched(state, page, text);
            &&& after.rejected.len() == state.rejected.len() + 1
            &&& text is None ==> after.rejected.last() == state.web[page].url
            &&& text is Some ==> after.rejected.last() == state.web[page].url + " (too short)"@
            &&& after.rejected.drop_last() == state.rejected
            &&& after.evidence == state.evidence
            &&& after.at == page + 1
            &&& after.web == state.web
            &&& after.max_sources == state.max_sources
            &&& after.full_texts == state.full_texts
        }),
{
    assert(page_fetched(state, page, text).rejected.drop_last() =~= state.rejected);
}

/// Fetching ends only where no page is left that the limit allows and that is no source yet,
/// or where the room for evidence is used up.
pub proof fn no_wanted_page_is_left_out(state: PagesView, page: int)
    requires
        state.at <= page < state.web.len(),
        page + state.full_texts < state.max_sources,
        !is_source(state.evidence, state.web[page].url),
        total_chars(state.evidence) < context_budget(state.max_sources),
    ensures
        next_page(state) matches Some(next) && state.at <= next <= page,
    decreases page - state.at,
{
    if is_source(state.evidence, state.web[state.at as int].url) {
        no_wanted_page_is_left_out(PagesView { at: state.at + 1, ..state }, page);
    }
}

/// The room for evidence is twelve thousand characters for each download allowed, as far as
/// that can be counted, and every character of every text takes some of it.
pub proof fn all_texts_count(evidence: Seq<EvidenceView>, item: EvidenceView, max_sources: nat)
    ensures
        12_000 * max_sources <= usize::MAX ==> context_budget(max_sources) == 12_000 * max_sources,
        12_000 * max_sources > usize::MAX ==> context_budget(max_sources) == usize::MAX,
        total_chars(Seq::<EvidenceView>::empty()) == 0,
        total_chars(evidence.push(item)) == total_chars(evidence) + item.text.len(),
{
    assert(evidence.push(item).drop_last() =~= evidence);
}

/// The papers become sources one for one: those of arXiv, of PubMed and of Scopus, each list
/// in its order, each paper with the text that was fetched for it.
pub proof fn papers_become_sources(
    arxiv: Seq<ArxivPaperView>,
    pages: Seq<Option<Seq<char>>>,
    pubmed: Seq<PubmedPaperView>,
    scopus: Seq<ScopusPaperView>,
    abstracts: Seq<Option<Seq<char>>>,
)
    requires
        pages.len() == arxiv.len(),
        abstracts.len() == scopus.len(),
    ensures
        ({
            let sources = paper_sources(arxiv, pages, pubmed, scopus, abstracts);
            &&& sources.len() == arxiv.len() + pubmed.len() + scopus.len()
            &&& forall|i: int|
                0 <= i < arxiv.len() ==> {
                    let source = #[trigger] sources[i];
                    source.title == arxiv[i].title + " (arXiv:"@ + arxiv[i].arxiv_id + ")"@
                        && source.url == "https://arxiv.org/html/"@ + arxiv[i].arxiv_id
                        && source.snippet.len() == 0 && source.text == arxiv_text(
                        arxiv[i],
                        pages[i],
                    )
                }
            &&& forall|i: int|
                0 <= i < pubmed.len() ==> {
                    let source = sources[arxiv.len() + i];
                    source.title == (#[trigger] pubmed[i]).title + " (PMID:"@ + pubmed[i].pmid
                        + ")"@ && source.url == pubmed[i].url && source.snippet.len() == 0
                        && source.text == pubmed_source(pubmed[i]).text
                }
            &&& forall|i: int|
                0 <= i < scopus.len() ==> {
                    let source = sources[arxiv.len() + pubmed.len() + i];
                    source.title == (#[trigger] scopus[i]).title + " (Scopus)"@ && source.url
                        == scopus[i].url && source.snippet.len() == 0 && source.text
                        == scopus_source(scopus[i], abstracts[i]).text
                }
        }),
{
    let sources = paper_sources(arxiv, pages, pubmed, scopus, abstracts);
    let first = arxiv.map(
        |i: int, paper: ArxivPaperView| arxiv_source(paper, fetched_at(pages, i)),
    );
    let second = pubmed.map_values(|paper: PubmedPaperView| pubmed_source(paper));
    let third = scopus.map(
        |i: int, paper: ScopusPaperView| scopus_source(paper, fetched_at(abstracts, i)),
    );
    assert(sources.len() == first.len() + second.len() + third.len());
    assert forall|i: int| 0 <= i < pubmed.len() implies {
        let source = sources[arxiv.len() + i];
        source.title == (#[trigger] pubmed[i]).title + " (PMID:"@ + pubmed[i].pmid + ")"@
            && source.url == pubmed[i].url && source.snippet.len() == 0 && source.text
            == pubmed_source(pubmed[i]).text
    } by {
        assert((first + second + third)[arxiv.len() + i] == second[i]);
    }
    assert forall|i: int| 0 <= i < scopus.len() implies {
        let source = sources[arxiv.len() + pubmed.len() + i];
        source.title == (#[trigger] scopus[i]).title + " (Scopus)"@ && source.url
            == scopus[i].url && source.snippet.len() == 0 && source.text == scopus_source(
            scopus[i],
            abstracts[i],
        ).text
    } by {
        assert((first + second + third)[arxiv.len() + pubmed.len() + i] == third[i]);
    }
}

/// What is known of a paper of arXiv stands in its source, each part behind its name, and
/// the full text where it has at least two hundred characters.
pub proof fn arxiv_papers_are_told(paper: ArxivPaperView, page: Option<Seq<char>>)
    ensures
        ({
            let told = arxiv_text(paper, page);
            &&& text::contains(
                told,
                "Authors: "@ + words::joined(paper.authors, ", "@) + "\nCategories: "@,
            )
            &&& text::contains(
                told,
                "\nCategories: "@ + words::joined(paper.categories, ", "@) + "\nPublished: "@,
            )
            &&& paper.published matches Some(date) ==> text::contains(
                told,
                "\nPublished: "@ + date + "\n\nAbstract:\n"@,
            )
            &&& text::contains(told, "\n\nAbstract:\n"@ + paper.abstract_text)
            &&& page matches Some(full) ==> full.len() >= 200 ==> text::contains(
                told,
                paper.abstract_text + "\n\n--- FULL TEXT (arxiv.org/html) ---\n\n"@ + full,
            )
            &&& (page matches Some(full) ==> full.len() < 200) ==> told == arxiv_text(paper, None)
        }),
{
    let parts = seq![
        "Authors: "@,
        words::joined(paper.authors, ", "@),
        "\nCategories: "@,
        words::joined(paper.categories, ", "@),
        "\nPublished: "@,
        text::or_empty(paper.published),
        "\n\nAbstract:\n"@,
        paper.abstract_text,
        "\n\n--- FULL TEXT (arxiv.org/html) ---\n\n"@,
        text::or_empty(page),
    ];
    reveal_with_fuel(text::strung, 11);
    let n: int = if page is Some && text::or_empty(page).len() >= 200 {
        10
    } else {
        8
    };
    assert(arxiv_text(paper, page) == text::strung(parts, n));
    text::strung_holds_three(parts, n, 0);
    text::strung_holds_three(parts, n, 2);
    text::strung_holds_three(parts, n, 4);
    text::strung_holds_two(parts, n, 6);
    if n == 10 {
        text::strung_holds_three(parts, n, 7);
    }
}

/// What is known of a paper of PubMed stands in its source, each part behind its name.
pub proof fn pubmed_papers_are_told(paper: PubmedPaperView)
    ensures
        ({
            let told = pubmed_source(paper).text;
            &&& paper.journal matches Some(journal) ==> text::contains(
                told,
                "Journal: "@ + journal + "\nAuthors: "@,
            )
            &&& text::contains(
                told,
                "\nAuthors: "@ + words::joined(paper.authors, ", "@) + "\nPublished: "@,
            )
            &&& paper.published matches Some(date) ==> text::contains(
                told,
                "\nPublished: "@ + date + "\nDOI: "@,
            )
            &&& paper.doi matches Some(doi) ==> text::contains(
                told,
                "\nDOI: "@ + doi + "\n\nAbstract:\n"@,
            )
            &&& text::contains(told, "\n\nAbstract:\n"@ + paper.abstract_text)
        }),
{
    let parts = seq![
        "Journal: "@,
        text::or_empty(paper.journal),
        "\nAuthors: "@,
        words::joined(paper.authors, ", "@),
        "\nPublished: "@,
        text::or_empty(paper.published),
        "\nDOI: "@,
        text::or_empty(paper.doi),
        "\n\nAbstract:\n"@,
        paper.abstract_text,
    ];
    reveal_with_fuel(text::strung, 11);
    assert(pubmed_source(paper).text == text::strung(parts, 10));
    text::strung_holds_three(parts, 10, 0);
    text::strung_holds_three(parts, 10, 2);
    text::strung_holds_three(parts, 10, 4);
    text::strung_holds_three(parts, 10, 6);
    text::strung_holds_two(parts, 10, 8);
}

/// What is known of a paper of Scopus stands in its source, each part behind its name; the
/// abstract that was fetched goes before the one that was found.
pub proof fn scopus_papers_are_told(paper: ScopusPaperView, fetched: Option<Seq<char>>)
    ensures
        ({
            let told = scopus_source(paper, fetched).text;
            &&& paper.journal matches Some(journal) ==> text::contains(
                told,
                "Journal: "@ + journal + "\nAuthors: "@,
            )
            &&& text::contains(
                told,
                "\nAuthors: "@ + words::joined(paper.creators, ", "@) + "\nYear: "@,
            )
            &&& paper.year matches Some(year) ==> text::contains(
                told,
                "\nYear: "@ + year + "\nDOI: "@,
            )
            &&& paper.doi matches Some(doi) ==> text::contains(
                told,
                "\nDOI: "@ + doi + "\nCited by: "@,
            )
            &&& text::contains(
                told,
                "\nCited by: "@ + number::signed_decimal(paper.citedby as int)
                    + "\n\nAbstract:\n"@,
            )
            &&& fetched matches Some(found) ==> found.len() > 0 ==> text::contains(
                told,
                "\n\nAbstract:\n"@ + found,
            )
            &&& (fetched matches Some(found) ==> found.len() == 0) ==> text::contains(
                told,
                "\n\nAbstract:\n"@ + paper.abstract_text,
            )
        }),
{
    let parts = seq![
        "Journal: "@,
        text::or_empty(paper.journal),
        "\nAuthors: "@,
        words::joined(paper.creators, ", "@),
        "\nYear: "@,
        text::or_empty(paper.year),
        "\nDOI: "@,
        text::or_empty(paper.doi),
        "\nCited by: "@,
        number::signed_decimal(paper.citedby as int),
        "\n\nAbstract:\n"@,
        abstract_of(paper, fetched),
    ];
    reveal_with_fuel(text::strung, 13);
    assert(scopus_source(paper, fetched).text == text::strung(parts, 12));
    text::strung_holds_three(parts, 12, 0);
    text::strung_holds_three(parts, 12, 2);
    text::strung_holds_three(parts, 12, 4);
    text::strung_holds_three(parts, 12, 6);
    text::strung_holds_three(parts, 12, 8);
    text::strung_holds_two(parts, 12, 10);
}

/// Abstracts are asked for by the paper's own DOI, and not at all without the means to.
pub proof fn abstracts_are_asked_for_by_doi(paper: ScopusPaperView)
    ensures
        abstract_wanted(paper, true) == paper.doi,
        abstract_wanted(paper, false) is None,
{
}

} // verus!
