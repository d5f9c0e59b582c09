//! Searching: what is asked of the sources, and what is kept of their answers.

use vstd::prelude::*;

use crate::arxiv::{ArxivPaper, ArxivPaperView};
use crate::pattern;
use crate::pattern::Groups;
use crate::pubmed::{PubmedPaper, PubmedPaperView};
use crate::scopus::{ScopusPaper, ScopusPaperView};
use crate::search::{SearchResult, SearchResultView};
use crate::text;
use crate::workflow::plan;
use crate::workflow::plan::{Plan, PlanView};

verus! {

// ── identifiers in a topic ──────────────────────────────────────────

/// An arXiv identifier: behind the name of arXiv in either case, in an address of arXiv, or
/// bare at the start of the text or behind a blank.
pub const ARXIV_ID: &'static str =
    r"(?i)(?:arxiv\.org/(?:abs|pdf)/|arxiv\s*:?\s*|^|\s)(\d{4}\.\d{4,5}(?:v\d+)?)";

/// A PubMed identifier: behind "PMID", in an address of PubMed, or bare at the start of the
/// text or behind a blank.
pub const PUBMED_ID: &'static str =
    r"(?:PMID:?\s*|pubmed\.ncbi\.nlm\.nih\.gov/|pubmed\.ncbi\.nlm\.nih\.gov/(?:pubmed/)?|^|\s)(\d{6,9})";

/// The first groups of some matches, each text once, in the order of its first occurrence.
pub open spec fn distinct_groups(rows: Seq<Seq<Option<Seq<char>>>>) -> Seq<Seq<char>>
    decreases rows.len(),
{
    if rows.len() == 0 {
        Seq::empty()
    } else {
        let out = distinct_groups(rows.drop_last());
        match pattern::group_text(rows.last(), 1) {
            Some(id) => if out.contains(id) {
                out
            } else {
                out.push(id)
            },
            None => out,
        }
    }
}

/// The first groups of some matches, each text once, in the order of its first occurrence.
pub fn first_groups(rows: &Vec<Groups>) -> (r: Vec<String>)
    ensures
        text::views(r@) == distinct_groups(pattern::rows(rows@)),
{
    let ghost all = pattern::rows(rows@);
    let mut out: Vec<String> = Vec::new();
    assert(all.take(0) =~= Seq::<Seq<Option<Seq<char>>>>::empty());
    assert(text::views(out@) =~= Seq::<Seq<char>>::empty());
    for i in 0..rows.len()
        invariant
            all == pattern::rows(rows@),
            text::views(out@) == distinct_groups(all.take(i as int)),
    {
        assert(all.take(i + 1).drop_last() == all.take(i as int));
        assert(all.take(i + 1).last() == pattern::groups(rows@[i as int]));
        if let Some(id) = pattern::group(&rows[i], 1) {
            if !text::listed(&out, id.as_str()) {
                let ghost before = out@;
                out.push(id);
                assert(text::views(out@) =~= text::views(before).push(id@));
            }
        }
    }
    assert(all.take(all.len() as int) == all);
    out
}

/// The identifiers that a pattern finds in a text, each once.
pub open spec fn ids_in(pattern: Seq<char>, text: Seq<char>) -> Seq<Seq<char>> {
    if pattern::compiles(pattern) {
        distinct_groups(pattern::all_captures(pattern, text))
    } else {
        Seq::empty()
    }
}

fn ids_of(pattern: &str, text: &str) -> (r: Vec<String>)
    ensures
        text::views(r@) == ids_in(pattern@, text@),
{
    match pattern::captures_all(pattern, text) {
        Ok(rows) => first_groups(&rows),
        Err(_) => {
            let none: Vec<String> = Vec::new();
            assert(text::views(none@) =~= Seq::<Seq<char>>::empty());
            none
        },
    }
}

/// The arXiv identifiers in a topic, each once.
pub fn extract_arxiv_ids(text: &str) -> (r: Vec<String>)
    ensures
        text::views(r@) == ids_in(ARXIV_ID@, text@),
{
    ids_of(ARXIV_ID, text)
}

/// The PubMed identifiers in a topic, each once.
pub fn extract_pubmed_ids(text: &str) -> (r: Vec<String>)
    ensures
        text::views(r@) == ids_in(PUBMED_ID@, text@),
{
    ids_of(PUBMED_ID, text)
}

/// No identifier is listed twice.
pub proof fn groups_are_distinct(rows: Seq<Seq<Option<Seq<char>>>>)
    ensures
        distinct_groups(rows).no_duplicates(),
    decreases rows.len(),
{
    if rows.len() > 0 {
        groups_are_distinct(rows.drop_last());
    }
}

// ── what is asked ───────────────────────────────────────────────────

/// A request to a source.
#[derive(Debug)]
pub enum GatherTask {
    /// One paper of arXiv.
    ArxivById(String),
    /// One paper of PubMed.
    PubmedById(String),
    /// Web pages, at most so many.
    Web { query: String, max: usize },
    /// Papers of arXiv, at most so many.
    ArxivSearch { query: String, max: usize },
    /// Papers of PubMed, at most so many.
    PubmedSearch { query: String, max: usize },
    /// Papers of Scopus, at most so many.
    ScopusSearch { query: String, max: usize },
}

/// A request with its texts as sequences of characters.
pub enum TaskView {
    ArxivById(Seq<char>),
    PubmedById(Seq<char>),
    Web { query: Seq<char>, max: nat },
    ArxivSearch { query: Seq<char>, max: nat },
    PubmedSearch { query: Seq<char>, max: nat },
    ScopusSearch { query: Seq<char>, max: nat },
}

impl View for GatherTask {
    type V = TaskView;

    open spec fn view(&self) -> TaskView {
        match *self {
            GatherTask::ArxivById(id) => TaskView::ArxivById(id@),
            GatherTask::PubmedById(id) => TaskView::PubmedById(id@),
            GatherTask::Web { query, max } => TaskView::Web { query: query@, max: max as nat },
            GatherTask::ArxivSearch { query, max } => TaskView::ArxivSearch {
                query: query@,
                max: max as nat,
            },
            GatherTask::PubmedSearch { query, max } => TaskView::PubmedSearch {
                query: query@,
                max: max as nat,
            },
            GatherTask::ScopusSearch { query, max } => TaskView::ScopusSearch {
                query: query@,
                max: max as nat,
            },
        }
    }
}

/// How many queries are put to each library of papers.
pub const PAPER_QUERIES: usize = 2;

/// How many papers are asked for per query.
pub const PAPERS_PER_QUERY: usize = 4;

/// The queries of a plan; the topic itself where it has none.
pub open spec fn queries_of(plan: PlanView, topic: Seq<char>) -> Seq<Seq<char>> {
    if plan.queries.len() == 0 {
        seq![topic]
    } else {
        plan.queries
    }
}

/// The queries that go to the libraries of papers.
pub open spec fn paper_queries(queries: Seq<Seq<char>>) -> Seq<Seq<char>> {
    if queries.len() > PAPER_QUERIES {
        queries.take(PAPER_QUERIES as int)
    } else {
        queries
    }
}

/// A source that queries go to.
#[derive(Debug, Clone, Copy, PartialEq, Eq, Structural)]
pub enum Library {
    Web,
    Arxiv,
    Pubmed,
    Scopus,
}

impl Library {
    /// The request that puts a query to the source.
    pub open spec fn task(self, query: Seq<char>, max: nat) -> TaskView {
        match self {
            Library::Web => TaskView::Web { query, max },
            Library::Arxiv => TaskView::ArxivSearch { query, max },
            Library::Pubmed => TaskView::PubmedSearch { query, max },
            Library::Scopus => TaskView::ScopusSearch { query, max },
        }
    }

    /// The requests that put some queries to the source.
    pub open spec fn tasks(self, queries: Seq<Seq<char>>, max: nat) -> Seq<TaskView> {
        queries.map_values(|query: Seq<char>| self.task(query, max))
    }

    fn ask(self, tasks: &mut Vec<GatherTask>, queries: &Vec<String>, count: usize, max: usize)
        requires
            count <= queries@.len(),
        ensures
            text::views(final(tasks)@) == text::views(old(tasks)@) + self.tasks(
                text::views(queries@).take(count as int),
                max as nat,
            ),
    {
        let ghost before = text::views(tasks@);
        let ghost asked = text::views(queries@);
        assert(text::views(tasks@) =~= before + self.tasks(asked.take(0), max as nat));
        for i in 0..count
            invariant
                count <= queries@.len(),
                asked == text::views(queries@),
                text::views(tasks@) == before + self.tasks(asked.take(i as int), max as nat),
        {
            let query = queries[i].clone();
            let task = match self {
                Library::Web => GatherTask::Web { query, max },
                Library::Arxiv => GatherTask::ArxivSearch { query, max },
                Library::Pubmed => GatherTask::PubmedSearch { query, max },
                Library::Scopus => GatherTask::ScopusSearch { query, max },
            };
            let ghost so_far = tasks@;
            tasks.push(task);
            proof {
                assert(task@ == self.task(asked[i as int], max as nat));
                assert(text::views(tasks@) =~= text::views(so_far).push(task@));
                assert(text::views(tasks@) =~= before + self.tasks(asked.take(i + 1), max as nat));
            }
        }
    }
}

/// Everything that is asked for a topic: the papers it names, then web pages for each query,
/// then papers for the first queries.
pub open spec fn tasks_for(
    arxiv_ids: Seq<Seq<char>>,
    pubmed_ids: Seq<Seq<char>>,
    plan: PlanView,
    topic: Seq<char>,
    with_scopus: bool,
) -> Seq<TaskView> {
    let queries = queries_of(plan, topic);
    let few = paper_queries(queries);
    arxiv_ids.map_values(|id: Seq<char>| TaskView::ArxivById(id)) + pubmed_ids.map_values(
        |id: Seq<char>| TaskView::PubmedById(id),
    ) + Library::Web.tasks(queries, plan::per_query(plan.web_per_query)) + Library::Arxiv.tasks(
        few,
        PAPERS_PER_QUERY as nat,
    ) + Library::Pubmed.tasks(few, PAPERS_PER_QUERY as nat) + (if with_scopus {
        Library::Scopus.tasks(few, PAPERS_PER_QUERY as nat)
    } else {
        Seq::empty()
    })
}

fn id_tasks(arxiv_ids: &Vec<String>, pubmed_ids: &Vec<String>) -> (r: Vec<GatherTask>)
    ensures
        text::views(r@) == text::views(arxiv_ids@).map_values(
            |id: Seq<char>| TaskView::ArxivById(id),
        ) + text::views(pubmed_ids@).map_values(|id: Seq<char>| TaskView::PubmedById(id)),
{
    let ghost first = text::views(arxiv_ids@).map_values(|id: Seq<char>| TaskView::ArxivById(id));
    let ghost second = text::views(pubmed_ids@).map_values(
        |id: Seq<char>| TaskView::PubmedById(id),
    );
    let mut tasks: Vec<GatherTask> = Vec::new();
    assert(text::views(tasks@) =~= first.take(0));
    for i in 0..arxiv_ids.len()
        invariant
            first == text::views(arxiv_ids@).map_values(|id: Seq<char>| TaskView::ArxivById(id)),
            text::views(tasks@) == first.take(i as int),
    {
        let ghost so_far = tasks@;
        let task = GatherTask::ArxivById(arxiv_ids[i].clone());
        tasks.push(task);
        proof {
            assert(first[i as int] == task@);
            assert(text::views(tasks@) =~= text::views(so_far).push(task@));
            assert(first.take(i + 1) =~= first.take(i as int).push(first[i as int]));
        }
    }
    assert(first.take(first.len() as int) =~= first);
    assert(first =~= first + second.take(0));
    for i in 0..pubmed_ids.len()
        invariant
            second == text::views(pubmed_ids@).map_values(
                |id: Seq<char>| TaskView::PubmedById(id),
            ),
            text::views(tasks@) == first + second.take(i as int),
    {
        let ghost so_far = tasks@;
        let task = GatherTask::PubmedById(pubmed_ids[i].clone());
        tasks.push(task);
        proof {
            assert(second[i as int] == task@);
            assert(text::views(tasks@) =~= text::views(so_far).push(task@));
            assert(first + second.take(i + 1) =~= (first + second.take(i as int)).push(
                second[i as int],
            ));
        }
    }
    assert(second.take(second.len() as int) =~= second);
    tasks
}

/// Everything that is asked for a topic that names these papers.
pub fn gather_tasks(
    arxiv_ids: &Vec<String>,
    pubmed_ids: &Vec<String>,
    plan: &Plan,
    topic: &str,
    with_scopus: bool,
) -> (r: Vec<GatherTask>)
    ensures
        text::views(r@) == tasks_for(
            text::views(arxiv_ids@),
            text::views(pubmed_ids@),
            plan@,
            topic@,
            with_scopus,
        ),
{
    let queries = if plan.queries.len() == 0 {
        let mut one: Vec<String> = Vec::new();
        one.push(topic.to_owned());
        assert(text::views(one@) =~= seq![topic@]);
        one
    } else {
        text::copy_texts(&plan.queries)
    };
    let few: usize = if queries.len() > PAPER_QUERIES {
        PAPER_QUERIES
    } else {
        queries.len()
    };
    let ghost asked = text::views(queries@);
    proof {
        assert(asked.take(asked.len() as int) =~= asked);
        assert(asked.take(few as int) =~= paper_queries(asked));
    }
    let mut tasks = id_tasks(arxiv_ids, pubmed_ids);
    Library::Web.ask(
        &mut tasks,
        &queries,
        queries.len(),
        plan::results_per_query(plan.web_per_query),
    );
    Library::Arxiv.ask(&mut tasks, &queries, few, PAPERS_PER_QUERY);
    Library::Pubmed.ask(&mut tasks, &queries, few, PAPERS_PER_QUERY);
    if with_scopus {
        Library::Scopus.ask(&mut tasks, &queries, few, PAPERS_PER_QUERY);
    } else {
        assert(text::views(tasks@) + Seq::<TaskView>::empty() =~= text::views(tasks@));
    }
    tasks
}

/// Everything that is asked for a topic.
pub fn plan_gathering(plan: &Plan, topic: &str, with_scopus: bool) -> (r: Vec<GatherTask>)
    ensures
        text::views(r@) == tasks_for(
            ids_in(ARXIV_ID@, topic@),
            ids_in(PUBMED_ID@, topic@),
            plan@,
            topic@,
            with_scopus,
        ),
{
    let arxiv_ids = extract_arxiv_ids(topic);
    let pubmed_ids = extract_pubmed_ids(topic);
    gather_tasks(&arxiv_ids, &pubmed_ids, plan, topic, with_scopus)
}

// ── what is kept ────────────────────────────────────────────────────

/// Something with an address.
pub trait Located: View + Sized {
    /// Its address.
    spec fn place(item: Self::V) -> Seq<char>;

    /// Its address.
    fn address(&self) -> (r: &str)
        ensures
            r@ == Self::place(self@),
    ;

    /// A copy of it.
    fn copy(&self) -> (r: Self)
        ensures
            r@ == self@,
    ;
}

impl Located for SearchResult {
    open spec fn place(item: SearchResultView) -> Seq<char> {
        item.url
    }

    fn address(&self) -> (r: &str) {
        self.url.as_str()
    }

    fn copy(&self) -> (r: Self) {
        self.clone()
    }
}

impl Located for ArxivPaper {
    open spec fn place(item: ArxivPaperView) -> Seq<char> {
        item.url
    }

    fn address(&self) -> (r: &str) {
        self.url.as_str()
    }

    fn copy(&self) -> (r: Self) {
        self.clone()
    }
}

impl Located for PubmedPaper {
    open spec fn place(item: PubmedPaperView) -> Seq<char> {
        item.url
    }

    fn address(&self) -> (r: &str) {
        self.url.as_str()
    }

    fn copy(&self) -> (r: Self) {
        self.clone()
    }
}

impl Located for ScopusPaper {
    open spec fn place(item: ScopusPaperView) -> Seq<char> {
        item.url
    }

    fn address(&self) -> (r: &str) {
        self.url.as_str()
    }

    fn copy(&self) -> (r: Self) {
        self.clone()
    }
}

/// The known addresses with one more.
pub open spec fn noted(seen: Seq<Seq<char>>, url: Seq<char>) -> Seq<Seq<char>> {
    if seen.contains(url) {
        seen
    } else {
        seen.push(url)
    }
}

/// The known addresses once some items were looked at.
pub open spec fn all_noted<T: Located>(seen: Seq<Seq<char>>, items: Seq<T::V>) -> Seq<Seq<char>>
    decreases items.len(),
{
    if items.len() == 0 {
        seen
    } else {
        noted(all_noted::<T>(seen, items.drop_last()), T::place(items.last()))
    }
}

/// The items whose address was not known, nor that of an item before them.
pub open spec fn unseen<T: Located>(seen: Seq<Seq<char>>, items: Seq<T::V>) -> Seq<T::V>
    decreases items.len(),
{
    if items.len() == 0 {
        items
    } else {
        let rest = items.drop_last();
        if all_noted::<T>(seen, rest).contains(T::place(items.last())) {
            unseen::<T>(seen, rest)
        } else {
            unseen::<T>(seen, rest).push(items.last())
        }
    }
}

fn note(seen: &mut Vec<String>, url: &str) -> (new: bool)
    ensures
        text::views(final(seen)@) == noted(text::views(old(seen)@), url@),
        new == !text::views(old(seen)@).contains(url@),
{
    if text::listed(seen, url) {
        false
    } else {
        let ghost before = seen@;
        let copy = url.to_owned();
        seen.push(copy);
        assert(text::views(seen@) =~= text::views(before).push(copy@));
        true
    }
}

fn take_unseen<T: Located>(kept: &mut Vec<T>, seen: &mut Vec<String>, items: &Vec<T>)
    ensures
        text::views(final(kept)@) == text::views(old(kept)@) + unseen::<T>(
            text::views(old(seen)@),
            text::views(items@),
        ),
        text::views(final(seen)@) == all_noted::<T>(text::views(old(seen)@), text::views(items@)),
{
    let ghost all = text::views(items@);
    let ghost had = text::views(kept@);
    let ghost knew = text::views(seen@);
    assert(all.take(0) =~= Seq::<T::V>::empty());
    assert(had + Seq::<T::V>::empty() =~= had);
    for i in 0..items.len()
        invariant
            all == text::views(items@),
            text::views(kept@) == had + unseen::<T>(knew, all.take(i as int)),
            text::views(seen@) == all_noted::<T>(knew, all.take(i as int)),
    {
        proof {
            assert(all.take(i + 1).drop_last() == all.take(i as int));
            assert(all.take(i + 1).last() == items@[i as int]@);
        }
        if note(seen, items[i].address()) {
            let ghost before = kept@;
            let copy = items[i].copy();
            kept.push(copy);
            proof {
                assert(text::views(kept@) =~= text::views(before).push(copy@));
                assert(had + unseen::<T>(knew, all.take(i as int)).push(copy@) =~= (had + unseen::<
                    T,
                >(knew, all.take(i as int))).push(copy@));
            }
        }
    }
    assert(all.take(all.len() as int) == all);
}

/// What is kept of a search has no known address and none twice; every address that was
/// offered is known afterwards, and none is forgotten.
pub proof fn unseen_items_are_new<T: Located>(seen: Seq<Seq<char>>, items: Seq<T::V>)
    ensures
        ({
            let new = unseen::<T>(seen, items);
            let known = all_noted::<T>(seen, items);
            &&& forall|i: int|
                0 <= i < new.len() ==> !seen.contains(T::place(#[trigger] new[i]))
                    && known.contains(T::place(new[i]))
            &&& forall|i: int, j: int|
                0 <= i < j < new.len() ==> T::place(#[trigger] new[i]) != T::place(
                    #[trigger] new[j],
                )
            &&& forall|i: int| 0 <= i < items.len() ==> known.contains(T::place(#[trigger] items[i]))
            &&& forall|url: Seq<char>| #[trigger] seen.contains(url) ==> known.contains(url)
        }),
    decreases items.len(),
{
    if items.len() > 0 {
        let rest = items.drop_last();
        unseen_items_are_new::<T>(seen, rest);
        let before = unseen::<T>(seen, rest);
        let knew = all_noted::<T>(seen, rest);
        let new = unseen::<T>(seen, items);
        let known = all_noted::<T>(seen, items);
        let url = T::place(items.last());
        assert forall|other: Seq<char>| knew.contains(other) implies #[trigger] known.contains(
            other,
        ) by {
            let k = choose|k: int| 0 <= k < knew.len() && knew[k] == other;
            assert(known[k] == other);
        }
        assert(known.contains(url)) by {
            if !knew.contains(url) {
                assert(known[knew.len() as int] == url);
            }
        }
        assert forall|i: int| 0 <= i < items.len() implies known.contains(
            T::place(#[trigger] items[i]),
        ) by {
            if i < rest.len() {
                assert(rest[i] == items[i]);
            }
        }
        assert forall|i: int| 0 <= i < new.len() implies !seen.contains(T::place(#[trigger] new[i]))
            && known.contains(T::place(new[i])) by {
            if i < before.len() {
                assert(new[i] == before[i]);
            }
        }
        assert forall|i: int, j: int| 0 <= i < j < new.len() implies T::place(#[trigger] new[i])
            != T::place(#[trigger] new[j]) by {
            assert(new[i] == before[i]);
            if j < before.len() {
                assert(new[j] == before[j]);
            } else {
                assert(knew.contains(T::place(before[i])));
            }
        }
    }
}

/// The warning of a search without web pages.
pub const NO_WEB_RESULTS: &'static str =
    "0 web results for this topic — all keyless backends (DDG/Bing/Brave) returned empty or were gated. Retry the run if the topic is current-events/news.";

/// Everything that was found for a topic.
#[derive(Debug)]
pub struct Gathered {
    pub web: Vec<SearchResult>,
    pub arxiv: Vec<ArxivPaper>,
    pub pubmed: Vec<PubmedPaper>,
    pub scopus: Vec<ScopusPaper>,
}

/// What was found, as its view.
pub struct GatheredView {
    pub web: Seq<SearchResultView>,
    pub arxiv: Seq<ArxivPaperView>,
    pub pubmed: Seq<PubmedPaperView>,
    pub scopus: Seq<ScopusPaperView>,
}

impl View for Gathered {
    type V = GatheredView;

    open spec fn view(&self) -> GatheredView {
        GatheredView {
            web: text::views(self.web@),
            arxiv: text::views(self.arxiv@),
            pubmed: text::views(self.pubmed@),
            scopus: text::views(self.scopus@),
        }
    }
}

/// Nothing found.
pub open spec fn nothing() -> GatheredView {
    GatheredView {
        web: Seq::empty(),
        arxiv: Seq::empty(),
        pubmed: Seq::empty(),
        scopus: Seq::empty(),
    }
}

impl Gathered {
    /// Nothing found.
    pub fn empty() -> (r: Gathered)
        ensures
            r@ == nothing(),
    {
        let r = Gathered {
            web: Vec::new(),
            arxiv: Vec::new(),
            pubmed: Vec::new(),
            scopus: Vec::new(),
        };
        assert(r@.web =~= nothing().web);
        assert(r@.arxiv =~= nothing().arxiv);
        assert(r@.pubmed =~= nothing().pubmed);
        assert(r@.scopus =~= nothing().scopus);
        r
    }

    /// What the log warns of: that no web page was found.
    pub fn warning(&self) -> (r: Option<String>)
        ensures
            text::option_view(r) == if self@.web.len() == 0 {
                Some(NO_WEB_RESULTS@)
            } else {
                None
            },
    {
        if self.web.len() == 0 {
            Some(NO_WEB_RESULTS.to_owned())
        } else {
            None
        }
    }
}

/// The answer to a request. A request that failed has no answer.
#[derive(Debug)]
pub enum Find {
    /// The paper of arXiv that the topic names.
    ArxivNamed(ArxivPaper),
    /// The paper of PubMed that the topic names.
    PubmedNamed(PubmedPaper),
    Web(Vec<SearchResult>),
    Arxiv(Vec<ArxivPaper>),
    Pubmed(Vec<PubmedPaper>),
    Scopus(Vec<ScopusPaper>),
}

/// An answer, as its view.
pub enum FindView {
    ArxivNamed(ArxivPaperView),
    PubmedNamed(PubmedPaperView),
    Web(Seq<SearchResultView>),
    Arxiv(Seq<ArxivPaperView>),
    Pubmed(Seq<PubmedPaperView>),
    Scopus(Seq<ScopusPaperView>),
}

impl View for Find {
    type V = FindView;

    open spec fn view(&self) -> FindView {
        match *self {
            Find::ArxivNamed(paper) => FindView::ArxivNamed(paper@),
            Find::PubmedNamed(paper) => FindView::PubmedNamed(paper@),
            Find::Web(found) => FindView::Web(text::views(found@)),
            Find::Arxiv(found) => FindView::Arxiv(text::views(found@)),
            Find::Pubmed(found) => FindView::Pubmed(text::views(found@)),
            Find::Scopus(found) => FindView::Scopus(text::views(found@)),
        }
    }
}

/// What was found so far, and the addresses that are known.
#[derive(Debug)]
pub struct Haul {
    pub found: Gathered,
    pub seen: Vec<String>,
}

/// What was found so far, as its view.
pub struct HaulView {
    pub found: GatheredView,
    pub seen: Seq<Seq<char>>,
}

impl View for Haul {
    type V = HaulView;

    open spec fn view(&self) -> HaulView {
        HaulView { found: self.found@, seen: text::views(self.seen@) }
    }
}

/// What was found once an answer came in. A paper that the topic names is always kept; of
/// a search only what is new is.
pub open spec fn kept(state: HaulView, find: FindView) -> HaulView {
    let found = state.found;
    match find {
        FindView::ArxivNamed(paper) => HaulView {
            found: GatheredView { arxiv: found.arxiv.push(paper), ..found },
            seen: noted(state.seen, paper.url),
        },
        FindView::PubmedNamed(paper) => HaulView {
            found: GatheredView { pubmed: found.pubmed.push(paper), ..found },
            seen: noted(state.seen, paper.url),
        },
        FindView::Web(items) => HaulView {
            found: GatheredView {
                web: found.web + unseen::<SearchResult>(state.seen, items),
                ..found
            },
            seen: all_noted::<SearchResult>(state.seen, items),
        },
        FindView::Arxiv(items) => HaulView {
            found: GatheredView {
                arxiv: found.arxiv + unseen::<ArxivPaper>(state.seen, items),
                ..found
            },
            seen: all_noted::<ArxivPaper>(state.seen, items),
        },
        FindView::Pubmed(items) => HaulView {
            found: GatheredView {
                pubmed: found.pubmed + unseen::<PubmedPaper>(state.seen, items),
                ..found
            },
            seen: all_noted::<PubmedPaper>(state.seen, items),
        },
        FindView::Scopus(items) => HaulView {
            found: GatheredView {
                scopus: found.scopus + unseen::<ScopusPaper>(state.seen, items),
                ..found
            },
            seen: all_noted::<ScopusPaper>(state.seen, items),
        },
    }
}

impl Haul {
    /// Nothing found yet.
    pub fn new() -> (r: Haul)
        ensures
            r@ == (HaulView { found: nothing(), seen: Seq::empty() }),
    {
        let r = Haul { found: Gathered::empty(), seen: Vec::new() };
        assert(r@.seen =~= Seq::<Seq<char>>::empty());
        r
    }

    /// Take in an answer.
    pub fn keep(&mut self, find: Find)
        ensures
            final(self)@ == kept(old(self)@, find@),
    {
        match find {
            Find::ArxivNamed(paper) => {
                note(&mut self.seen, paper.url.as_str());
                let ghost before = self.found.arxiv@;
                self.found.arxiv.push(paper);
                assert(text::views(self.found.arxiv@) =~= text::views(before).push(paper@));
            },
            Find::PubmedNamed(paper) => {
                note(&mut self.seen, paper.url.as_str());
                let ghost before = self.found.pubmed@;
                self.found.pubmed.push(paper);
                assert(text::views(self.found.pubmed@) =~= text::views(before).push(paper@));
            },
            Find::Web(items) => take_unseen(&mut self.found.web, &mut self.seen, &items),
            Find::Arxiv(items) => take_unseen(&mut self.found.arxiv, &mut self.seen, &items),
            Find::Pubmed(items) => take_unseen(&mut self.found.pubmed, &mut self.seen, &items),
            Find::Scopus(items) => take_unseen(&mut self.found.scopus, &mut self.seen, &items),
        }
    }
}

/// What was found once all these answers came in.
pub open spec fn all_kept(finds: Seq<FindView>) -> HaulView
    decreases finds.len(),
{
    if finds.len() == 0 {
        HaulView { found: nothing(), seen: Seq::empty() }
    } else {
        kept(all_kept(finds.drop_last()), finds.last())
    }
}

/// Every address in a list is known, and none stands there twice.
pub open spec fn is_unique<T: Located>(items: Seq<T::V>, seen: Seq<Seq<char>>) -> bool {
    &&& forall|i: int| 0 <= i < items.len() ==> seen.contains(T::place(#[trigger] items[i]))
    &&& forall|i: int, j: int|
        0 <= i < j < items.len() ==> T::place(#[trigger] items[i]) != T::place(#[trigger] items[j])
}

proof fn unseen_keeps_unique<T: Located>(
    items: Seq<T::V>,
    seen: Seq<Seq<char>>,
    offered: Seq<T::V>,
)
    requires
        is_unique::<T>(items, seen),
    ensures
        is_unique::<T>(items + unseen::<T>(seen, offered), all_noted::<T>(seen, offered)),
{
    unseen_items_are_new::<T>(seen, offered);
    let new = unseen::<T>(seen, offered);
    let all = items + new;
    let known = all_noted::<T>(seen, offered);
    assert forall|i: int| 0 <= i < all.len() implies known.contains(T::place(#[trigger] all[i])) by {
        if i < items.len() {
            assert(seen.contains(T::place(items[i])));
        } else {
            assert(known.contains(T::place(new[i - items.len()])));
        }
    }
    assert forall|i: int, j: int| 0 <= i < j < all.len() implies T::place(#[trigger] all[i])
        != T::place(#[trigger] all[j]) by {
        if i < items.len() {
            assert(seen.contains(T::place(items[i])));
        }
        if j >= items.len() {
            assert(!seen.contains(T::place(new[j - items.len()])));
        }
    }
}

proof fn more_seen_keeps_unique<T: Located>(
    items: Seq<T::V>,
    seen: Seq<Seq<char>>,
    known: Seq<Seq<char>>,
)
    requires
        is_unique::<T>(items, seen),
        forall|url: Seq<char>| #[trigger] seen.contains(url) ==> known.contains(url),
    ensures
        is_unique::<T>(items, known),
{
    assert forall|i: int| 0 <= i < items.len() implies known.contains(
        T::place(#[trigger] items[i]),
    ) by {
        assert(seen.contains(T::place(items[i])));
    }
}

proof fn noted_keeps(seen: Seq<Seq<char>>, url: Seq<char>)
    ensures
        forall|other: Seq<char>| #[trigger] seen.contains(other) ==> noted(seen, url).contains(other),
{
    assert forall|other: Seq<char>| #[trigger] seen.contains(other) implies noted(
        seen,
        url,
    ).contains(other) by {
        let k = choose|k: int| 0 <= k < seen.len() && seen[k] == other;
        assert(noted(seen, url)[k] == other);
    }
}

/// However many answers come in, and in whatever order, no web page is kept twice, and no
/// paper of Scopus.
pub proof fn gathered_pages_are_unique(finds: Seq<FindView>)
    ensures
        is_unique::<SearchResult>(all_kept(finds).found.web, all_kept(finds).seen),
        is_unique::<ScopusPaper>(all_kept(finds).found.scopus, all_kept(finds).seen),
    decreases finds.len(),
{
    if finds.len() > 0 {
        gathered_pages_are_unique(finds.drop_last());
        let before = all_kept(finds.drop_last());
        let after = all_kept(finds);
        match finds.last() {
            FindView::ArxivNamed(paper) => noted_keeps(before.seen, paper.url),
            FindView::PubmedNamed(paper) => noted_keeps(before.seen, paper.url),
            FindView::Web(items) => {
                unseen_items_are_new::<SearchResult>(before.seen, items);
                unseen_keeps_unique::<SearchResult>(before.found.web, before.seen, items);
            },
            FindView::Arxiv(items) => unseen_items_are_new::<ArxivPaper>(before.seen, items),
            FindView::Pubmed(items) => unseen_items_are_new::<PubmedPaper>(before.seen, items),
            FindView::Scopus(items) => {
                unseen_items_are_new::<ScopusPaper>(before.seen, items);
                unseen_keeps_unique::<ScopusPaper>(before.found.scopus, before.seen, items);
            },
        }
        if !(finds.last() is Web) {
            more_seen_keeps_unique::<SearchResult>(before.found.web, before.seen, after.seen);
        }
        if !(finds.last() is Scopus) {
            more_seen_keeps_unique::<ScopusPaper>(before.found.scopus, before.seen, after.seen);
        }
    }
}

/// The addresses of some items.
pub open spec fn places<T: Located>(items: Seq<T::V>) -> Seq<Seq<char>> {
    items.map_values(|item: T::V| T::place(item))
}

/// The addresses of everything that was found, list after list.
pub open spec fn addresses(found: GatheredView) -> Seq<Seq<char>> {
    places::<SearchResult>(found.web) + places::<ArxivPaper>(found.arxiv) + places::<PubmedPaper>(
        found.pubmed,
    ) + places::<ScopusPaper>(found.scopus)
}

/// Each paper that the topic names was not known yet when it came in.
pub open spec fn named_papers_are_new(finds: Seq<FindView>) -> bool {
    forall|k: int|
        0 <= k < finds.len() ==> match #[trigger] finds[k] {
            FindView::ArxivNamed(paper) => !all_kept(finds.take(k)).seen.contains(paper.url),
            FindView::PubmedNamed(paper) => !all_kept(finds.take(k)).seen.contains(paper.url),
            _ => true,
        }
}

/// Every address is known, and none stands there twice.
spec fn all_known_once(urls: Seq<Seq<char>>, seen: Seq<Seq<char>>) -> bool {
    &&& urls.no_duplicates()
    &&& forall|i: int| 0 <= i < urls.len() ==> seen.contains(#[trigger] urls[i])
}

/// New addresses may come in anywhere.
proof fn new_addresses_fit_in(
    front: Seq<Seq<char>>,
    new: Seq<Seq<char>>,
    back: Seq<Seq<char>>,
    seen: Seq<Seq<char>>,
    known: Seq<Seq<char>>,
)
    requires
        all_known_once(front + back, seen),
        new.no_duplicates(),
        forall|i: int|
            0 <= i < new.len() ==> !seen.contains(#[trigger] new[i]) && known.contains(new[i]),
        forall|url: Seq<char>| #[trigger] seen.contains(url) ==> known.contains(url),
    ensures
        all_known_once(front + new + back, known),
{
    let old = front + back;
    let all = front + new + back;
    let a = front.len() as int;
    let b = a + new.len();
    assert forall|i: int| 0 <= i < all.len() implies known.contains(#[trigger] all[i]) by {
        if i < a {
            assert(old[i] == all[i]);
        } else if i < b {
            assert(new[i - a] == all[i]);
        } else {
            assert(old[i - new.len()] == all[i]);
        }
    }
    assert forall|i: int, j: int|
        0 <= i < all.len() && 0 <= j < all.len() && i != j implies all[i] != all[j] by {
        let i_new = a <= i < b;
        let j_new = a <= j < b;
        let i_old = if i < a { i } else { i - new.len() };
        let j_old = if j < a { j } else { j - new.len() };
        if i_new && j_new {
            assert(new[i - a] != new[j - a]);
        } else if i_new {
            assert(!seen.contains(new[i - a]));
            assert(seen.contains(old[j_old]));
        } else if j_new {
            assert(!seen.contains(new[j - a]));
            assert(seen.contains(old[i_old]));
        } else {
            assert(old[i_old] != old[j_old]);
        }
    }
}

proof fn unseen_places_are_new<T: Located>(seen: Seq<Seq<char>>, items: Seq<T::V>)
    ensures
        ({
            let new = places::<T>(unseen::<T>(seen, items));
            let known = all_noted::<T>(seen, items);
            &&& new.no_duplicates()
            &&& forall|i: int|
                0 <= i < new.len() ==> !seen.contains(#[trigger] new[i]) && known.contains(new[i])
            &&& forall|url: Seq<char>| #[trigger] seen.contains(url) ==> known.contains(url)
        }),
{
    unseen_items_are_new::<T>(seen, items);
    let kept = unseen::<T>(seen, items);
    let new = places::<T>(kept);
    assert forall|i: int, j: int|
        0 <= i < new.len() && 0 <= j < new.len() && i != j implies new[i] != new[j] by {
        assert(new[i] == T::place(kept[i]));
        assert(new[j] == T::place(kept[j]));
    }
}

proof fn named_place_is_new(seen: Seq<Seq<char>>, url: Seq<char>)
    requires
        !seen.contains(url),
    ensures
        ({
            let new = seq![url];
            &&& new.no_duplicates()
            &&& forall|i: int|
                0 <= i < new.len() ==> !seen.contains(#[trigger] new[i]) && noted(
                    seen,
                    url,
                ).contains(new[i])
        }),
{
    assert(noted(seen, url)[seen.len() as int] == url);
}

/// No address is gathered twice: not in one of the lists and not in two of them, however many
/// answers come in, as long as no paper that the topic names was known before.
pub proof fn no_address_is_gathered_twice(finds: Seq<FindView>)
    requires
        named_papers_are_new(finds),
    ensures
        addresses(all_kept(finds).found).no_duplicates(),
        forall|i: int|
            0 <= i < addresses(all_kept(finds).found).len() ==> all_kept(finds).seen.contains(
                #[trigger] addresses(all_kept(finds).found)[i],
            ),
    decreases finds.len(),
{
    if finds.len() > 0 {
        let rest = finds.drop_last();
        assert forall|k: int| 0 <= k < rest.len() implies match #[trigger] rest[k] {
            FindView::ArxivNamed(paper) => !all_kept(rest.take(k)).seen.contains(paper.url),
            FindView::PubmedNamed(paper) => !all_kept(rest.take(k)).seen.contains(paper.url),
            _ => true,
        } by {
            assert(rest[k] == finds[k]);
            assert(rest.take(k) =~= finds.take(k));
        }
        no_address_is_gathered_twice(rest);
        assert(finds.take(finds.len() - 1) =~= rest);
        assert(finds[finds.len() - 1] == finds.last());
        let before = all_kept(rest);
        let after = all_kept(finds);
        let seen = before.seen;
        let web = places::<SearchResult>(before.found.web);
        let arxiv = places::<ArxivPaper>(before.found.arxiv);
        let pubmed = places::<PubmedPaper>(before.found.pubmed);
        let scopus = places::<ScopusPaper>(before.found.scopus);
        assert(all_known_once(addresses(before.found), seen));
        let nothing_behind = Seq::<Seq<char>>::empty();
        match finds.last() {
            FindView::ArxivNamed(paper) => {
                let new = seq![paper.url];
                named_place_is_new(seen, paper.url);
                noted_keeps(seen, paper.url);
                assert(web + arxiv + (pubmed + scopus) =~= addresses(before.found));
                new_addresses_fit_in(web + arxiv, new, pubmed + scopus, seen, after.seen);
                assert(places::<ArxivPaper>(after.found.arxiv) =~= arxiv + new);
                assert(web + arxiv + new + (pubmed + scopus) =~= addresses(after.found));
            },
            FindView::PubmedNamed(paper) => {
                let new = seq![paper.url];
                named_place_is_new(seen, paper.url);
                noted_keeps(seen, paper.url);
                assert(web + arxiv + pubmed + scopus =~= addresses(before.found));
                new_addresses_fit_in(web + arxiv + pubmed, new, scopus, seen, after.seen);
                assert(places::<PubmedPaper>(after.found.pubmed) =~= pubmed + new);
                assert(web + arxiv + pubmed + new + scopus =~= addresses(after.found));
            },
            FindView::Web(items) => {
                let new = places::<SearchResult>(unseen::<SearchResult>(seen, items));
                unseen_places_are_new::<SearchResult>(seen, items);
                assert(web + (arxiv + pubmed + scopus) =~= addresses(before.found));
                new_addresses_fit_in(web, new, arxiv + pubmed + scopus, seen, after.seen);
                assert(places::<SearchResult>(after.found.web) =~= web + new);
                assert(web + new + (arxiv + pubmed + scopus) =~= addresses(after.found));
            },
            FindView::Arxiv(items) => {
                let new = places::<ArxivPaper>(unseen::<ArxivPaper>(seen, items));
                unseen_places_are_new::<ArxivPaper>(seen, items);
                assert(web + arxiv + (pubmed + scopus) =~= addresses(before.found));
                new_addresses_fit_in(web + arxiv, new, pubmed + scopus, seen, after.seen);
                assert(places::<ArxivPaper>(after.found.arxiv) =~= arxiv + new);
                assert(web + arxiv + new + (pubmed + scopus) =~= addresses(after.found));
            },
            FindView::Pubmed(items) => {
                let new = places::<PubmedPaper>(unseen::<PubmedPaper>(seen, items));
                unseen_places_are_new::<PubmedPaper>(seen, items);
                assert(web + arxiv + pubmed + scopus =~= addresses(before.found));
                new_addresses_fit_in(web + arxiv + pubmed, new, scopus, seen, after.seen);
                assert(places::<PubmedPaper>(after.found.pubmed) =~= pubmed + new);
                assert(web + arxiv + pubmed + new + scopus =~= addresses(after.found));
            },
            FindView::Scopus(items) => {
                let new = places::<ScopusPaper>(unseen::<ScopusPaper>(seen, items));
                unseen_places_are_new::<ScopusPaper>(seen, items);
                assert(addresses(before.found) + nothing_behind =~= addresses(before.found));
                new_addresses_fit_in(addresses(before.found), new, nothing_behind, seen, after.seen);
                assert(places::<ScopusPaper>(after.found.scopus) =~= scopus + new);
                assert(addresses(before.found) + new + nothing_behind =~= addresses(after.found));
            },
        }
    }
}

// ── nothing is left out ─────────────────────────────────────────────

/// Every identifier that was matched is listed, and nothing else is.
pub proof fn groups_are_complete(rows: Seq<Seq<Option<Seq<char>>>>)
    ensures
        forall|i: int|
            0 <= i < rows.len() && (#[trigger] rows[i]).len() > 1 && rows[i][1] is Some
                ==> distinct_groups(rows).contains(rows[i][1]->0),
        forall|k: int|
            0 <= k < distinct_groups(rows).len() ==> exists|i: int|
                0 <= i < rows.len() && (#[trigger] rows[i]).len() > 1 && rows[i][1] == Some(
                    #[trigger] distinct_groups(rows)[k],
                ),
    decreases rows.len(),
{
    if rows.len() > 0 {
        let rest = rows.drop_last();
        groups_are_complete(rest);
        let before = distinct_groups(rest);
        let after = distinct_groups(rows);
        assert forall|i: int|
            0 <= i < rows.len() && (#[trigger] rows[i]).len() > 1 && rows[i][1] is Some implies after.contains(
            rows[i][1]->0,
        ) by {
            let id = rows[i][1]->0;
            if i < rest.len() {
                assert(rest[i] == rows[i]);
                let k = choose|k: int| 0 <= k < before.len() && before[k] == id;
                assert(after[k] == id);
            } else if !before.contains(id) {
                assert(after[before.len() as int] == id);
            }
        }
        assert forall|k: int| 0 <= k < after.len() implies exists|i: int|
            0 <= i < rows.len() && (#[trigger] rows[i]).len() > 1 && rows[i][1] == Some(
                #[trigger] after[k],
            ) by {
            if k < before.len() {
                let i = choose|i: int|
                    0 <= i < rest.len() && (#[trigger] rest[i]).len() > 1 && rest[i][1] == Some(
                        before[k],
                    );
                assert(rows[i] == rest[i]);
            } else {
                assert(rows[rows.len() - 1][1] == Some(after[k]));
            }
        }
    }
}

/// Every query goes to the web, for as many results as the plan says, and the first two go to
/// each library of papers for four; to Scopus only where it can be asked. Every paper that
/// the topic names is asked for. Nothing else is asked. A plan without queries has the topic
/// for its query.
pub proof fn every_query_is_asked(
    arxiv_ids: Seq<Seq<char>>,
    pubmed_ids: Seq<Seq<char>>,
    plan: PlanView,
    topic: Seq<char>,
    with_scopus: bool,
    queries: Seq<Seq<char>>,
)
    requires
        queries == if plan.queries.len() > 0 {
            plan.queries
        } else {
            seq![topic]
        },
    ensures
        ({
            let tasks = tasks_for(arxiv_ids, pubmed_ids, plan, topic, with_scopus);
            let few = if queries.len() < 2 {
                queries.len() as int
            } else {
                2
            };
            let per_query = if plan.web_per_query > 0 {
                plan.web_per_query
            } else {
                6
            };
            &&& forall|i: int|
                0 <= i < arxiv_ids.len() ==> tasks.contains(
                    TaskView::ArxivById(#[trigger] arxiv_ids[i]),
                )
            &&& forall|i: int|
                0 <= i < pubmed_ids.len() ==> tasks.contains(
                    TaskView::PubmedById(#[trigger] pubmed_ids[i]),
                )
            &&& forall|i: int|
                0 <= i < queries.len() ==> tasks.contains(
                    TaskView::Web { query: #[trigger] queries[i], max: per_query },
                )
            &&& forall|i: int|
                0 <= i < few ==> tasks.contains(
                    TaskView::ArxivSearch { query: #[trigger] queries[i], max: 4 },
                ) && tasks.contains(TaskView::PubmedSearch { query: queries[i], max: 4 }) && (
                with_scopus ==> tasks.contains(TaskView::ScopusSearch { query: queries[i], max: 4 }))
            &&& tasks.len() == arxiv_ids.len() + pubmed_ids.len() + queries.len() + few + few + (
            if with_scopus {
                few
            } else {
                0
            })
        }),
{
    let tasks = tasks_for(arxiv_ids, pubmed_ids, plan, topic, with_scopus);
    assert(queries == queries_of(plan, topic));
    let few = paper_queries(queries);
    let a = arxiv_ids.len() as int;
    let b = a + pubmed_ids.len();
    let c = b + queries.len();
    let d = c + few.len();
    let e = d + few.len();
    let per_query = plan::per_query(plan.web_per_query);
    plan::queries_collect_what_is_planned(plan.web_per_query);
    assert forall|i: int| 0 <= i < arxiv_ids.len() implies tasks.contains(
        TaskView::ArxivById(#[trigger] arxiv_ids[i]),
    ) by {
        assert(tasks[i] == TaskView::ArxivById(arxiv_ids[i]));
    }
    assert forall|i: int| 0 <= i < pubmed_ids.len() implies tasks.contains(
        TaskView::PubmedById(#[trigger] pubmed_ids[i]),
    ) by {
        assert(tasks[a + i] == TaskView::PubmedById(pubmed_ids[i]));
    }
    assert forall|i: int| 0 <= i < queries.len() implies tasks.contains(
        TaskView::Web { query: #[trigger] queries[i], max: per_query },
    ) by {
        assert(tasks[b + i] == (TaskView::Web { query: queries[i], max: per_query }));
    }
    assert forall|i: int| 0 <= i < few.len() implies tasks.contains(
        TaskView::ArxivSearch { query: #[trigger] queries[i], max: 4 },
    ) && tasks.contains(TaskView::PubmedSearch { query: queries[i], max: 4 }) && (with_scopus
        ==> tasks.contains(TaskView::ScopusSearch { query: queries[i], max: 4 })) by {
        assert(few[i] == queries[i]);
        assert(tasks[c + i] == (TaskView::ArxivSearch { query: queries[i], max: 4 }));
        assert(tasks[d + i] == (TaskView::PubmedSearch { query: queries[i], max: 4 }));
        if with_scopus {
            assert(tasks[e + i] == (TaskView::ScopusSearch { query: queries[i], max: 4 }));
        }
    }
}

/// What is kept of a search is what was offered: the items as they are, in their order, and of
/// each address that was not known the first item that has it.
pub proof fn new_items_are_kept_as_they_are<T: Located>(seen: Seq<Seq<char>>, items: Seq<T::V>)
    ensures
        forall|k: int|
            0 <= k < unseen::<T>(seen, items).len() ==> items.contains(
                #[trigger] unseen::<T>(seen, items)[k],
            ),
        forall|i: int|
            0 <= i < items.len() && !seen.contains(T::place(#[trigger] items[i])) && (forall|j: int|
                0 <= j < i ==> T::place(#[trigger] items[j]) != T::place(items[i])) ==> unseen::<T>(
                seen,
                items,
            ).contains(items[i]),
        forall|url: Seq<char>| #[trigger]
            all_noted::<T>(seen, items).contains(url) ==> seen.contains(url) || exists|i: int|
                0 <= i < items.len() && T::place(#[trigger] items[i]) == url,
    decreases items.len(),
{
    if items.len() > 0 {
        let rest = items.drop_last();
        new_items_are_kept_as_they_are::<T>(seen, rest);
        let before = unseen::<T>(seen, rest);
        let after = unseen::<T>(seen, items);
        let knew = all_noted::<T>(seen, rest);
        let known = all_noted::<T>(seen, items);
        let last = items.last();
        assert forall|k: int| 0 <= k < after.len() implies items.contains(#[trigger] after[k]) by {
            if k < before.len() {
                let i = choose|i: int| 0 <= i < rest.len() && rest[i] == before[k];
                assert(items[i] == after[k]);
            } else {
                assert(items[items.len() - 1] == after[k]);
            }
        }
        assert forall|url: Seq<char>| #[trigger] known.contains(url) implies seen.contains(url)
            || exists|i: int| 0 <= i < items.len() && T::place(#[trigger] items[i]) == url by {
            let k = choose|k: int| 0 <= k < known.len() && known[k] == url;
            if k < knew.len() {
                assert(knew[k] == url);
                assert(knew.contains(url));
                if !seen.contains(url) {
                    let i = choose|i: int|
                        0 <= i < rest.len() && T::place(#[trigger] rest[i]) == url;
                    assert(items[i] == rest[i]);
                }
            } else {
                assert(T::place(items[items.len() - 1]) == url);
            }
        }
        assert forall|i: int|
            0 <= i < items.len() && !seen.contains(T::place(#[trigger] items[i])) && (forall|j: int|
                0 <= j < i ==> T::place(#[trigger] items[j]) != T::place(
                    items[i],
                )) implies after.contains(items[i]) by {
            if i < rest.len() {
                assert(rest[i] == items[i]);
                assert forall|j: int| 0 <= j < i implies T::place(#[trigger] rest[j]) != T::place(
                    rest[i],
                ) by {
                    assert(rest[j] == items[j]);
                }
                let k = choose|k: int| 0 <= k < before.len() && before[k] == items[i];
                assert(after[k] == items[i]);
            } else {
                if knew.contains(T::place(last)) {
                    let j = choose|j: int|
                        0 <= j < rest.len() && T::place(#[trigger] rest[j]) == T::place(last);
                    assert(items[j] == rest[j]);
                }
                assert(after[before.len() as int] == last);
            }
        }
    }
}

/// Whatever comes in, what was kept before stays, in its order, and each answer goes to its
/// own list: papers of arXiv to those of arXiv, and so on.
pub proof fn what_is_kept_stays(state: HaulView, find: FindView)
    ensures
        ({
            let next = kept(state, find);
            &&& state.found.web.is_prefix_of(next.found.web)
            &&& state.found.arxiv.is_prefix_of(next.found.arxiv)
            &&& state.found.pubmed.is_prefix_of(next.found.pubmed)
            &&& state.found.scopus.is_prefix_of(next.found.scopus)
            &&& !(find is Web) ==> next.found.web == state.found.web
            &&& !(find is Arxiv || find is ArxivNamed) ==> next.found.arxiv == state.found.arxiv
            &&& !(find is Pubmed || find is PubmedNamed) ==> next.found.pubmed
                == state.found.pubmed
            &&& !(find is Scopus) ==> next.found.scopus == state.found.scopus
            &&& find matches FindView::ArxivNamed(paper) ==> next.found.arxiv
                == state.found.arxiv.push(paper)
            &&& find matches FindView::PubmedNamed(paper) ==> next.found.pubmed
                == state.found.pubmed.push(paper)
        }),
{
}

/// No address that was offered is lost: everything that any answer held is gathered, in one
/// list or another, under its address.
pub proof fn no_address_is_lost(finds: Seq<FindView>)
    ensures
        forall|url: Seq<char>| #[trigger]
            all_kept(finds).seen.contains(url) ==> addresses(all_kept(finds).found).contains(url),
    decreases finds.len(),
{
    if finds.len() > 0 {
        let rest = finds.drop_last();
        no_address_is_lost(rest);
        let before = all_kept(rest);
        let after = all_kept(finds);
        old_addresses_stay(before, finds.last());
        assert forall|url: Seq<char>| #[trigger] after.seen.contains(url) implies addresses(
            after.found,
        ).contains(url) by {
            if !before.seen.contains(url) {
                match finds.last() {
                    FindView::ArxivNamed(paper) => {
                        let k = choose|k: int| 0 <= k < after.seen.len() && after.seen[k] == url;
                        if k < before.seen.len() {
                            assert(before.seen[k] == url);
                        }
                        let at = before.found.arxiv.len() as int;
                        assert(after.found.arxiv[at].url == url);
                        arxiv_place_is_listed(after.found, at);
                    },
                    FindView::PubmedNamed(paper) => {
                        let k = choose|k: int| 0 <= k < after.seen.len() && after.seen[k] == url;
                        if k < before.seen.len() {
                            assert(before.seen[k] == url);
                        }
                        let at = before.found.pubmed.len() as int;
                        assert(after.found.pubmed[at].url == url);
                        pubmed_place_is_listed(after.found, at);
                    },
                    FindView::Web(items) => {
                        let k = noted_means_kept::<SearchResult>(before.seen, items, url);
                        let at = before.found.web.len() + k;
                        assert(after.found.web[at] == unseen::<SearchResult>(before.seen, items)[k]);
                        web_place_is_listed(after.found, at);
                    },
                    FindView::Arxiv(items) => {
                        let k = noted_means_kept::<ArxivPaper>(before.seen, items, url);
                        let at = before.found.arxiv.len() + k;
                        assert(after.found.arxiv[at] == unseen::<ArxivPaper>(before.seen, items)[k]);
                        arxiv_place_is_listed(after.found, at);
                    },
                    FindView::Pubmed(items) => {
                        let k = noted_means_kept::<PubmedPaper>(before.seen, items, url);
                        let at = before.found.pubmed.len() + k;
                        assert(after.found.pubmed[at] == unseen::<PubmedPaper>(
                            before.seen,
                            items,
                        )[k]);
                        pubmed_place_is_listed(after.found, at);
                    },
                    FindView::Scopus(items) => {
                        let k = noted_means_kept::<ScopusPaper>(before.seen, items, url);
                        let at = before.found.scopus.len() + k;
                        assert(after.found.scopus[at] == unseen::<ScopusPaper>(
                            before.seen,
                            items,
                        )[k]);
                        scopus_place_is_listed(after.found, at);
                    },
                }
            }
        }
    }
}

proof fn noted_means_kept<T: Located>(
    seen: Seq<Seq<char>>,
    items: Seq<T::V>,
    url: Seq<char>,
) -> (k: int)
    requires
        all_noted::<T>(seen, items).contains(url),
        !seen.contains(url),
    ensures
        0 <= k < unseen::<T>(seen, items).len(),
        T::place(unseen::<T>(seen, items)[k]) == url,
    decreases items.len(),
{
    let known = all_noted::<T>(seen, items);
    let new = unseen::<T>(seen, items);
    if items.len() == 0 {
        0
    } else {
        let rest = items.drop_last();
        let knew = all_noted::<T>(seen, rest);
        if knew.contains(url) {
            let k = noted_means_kept::<T>(seen, rest, url);
            assert(new[k] == unseen::<T>(seen, rest)[k]);
            k
        } else {
            let at = choose|at: int| 0 <= at < known.len() && known[at] == url;
            if at < knew.len() {
                assert(knew[at] == url);
            }
            assert(T::place(items.last()) == url);
            new.len() - 1
        }
    }
}

proof fn web_place_is_listed(found: GatheredView, k: int)
    requires
        0 <= k < found.web.len(),
    ensures
        addresses(found).contains(found.web[k].url),
{
    assert(addresses(found)[k] == found.web[k].url);
}

proof fn arxiv_place_is_listed(found: GatheredView, k: int)
    requires
        0 <= k < found.arxiv.len(),
    ensures
        addresses(found).contains(found.arxiv[k].url),
{
    assert(addresses(found)[found.web.len() + k] == found.arxiv[k].url);
}

proof fn pubmed_place_is_listed(found: GatheredView, k: int)
    requires
        0 <= k < found.pubmed.len(),
    ensures
        addresses(found).contains(found.pubmed[k].url),
{
    assert(addresses(found)[found.web.len() + found.arxiv.len() + k] == found.pubmed[k].url);
}

proof fn scopus_place_is_listed(found: GatheredView, k: int)
    requires
        0 <= k < found.scopus.len(),
    ensures
        addresses(found).contains(found.scopus[k].url),
{
    assert(addresses(found)[found.web.len() + found.arxiv.len() + found.pubmed.len() + k]
        == found.scopus[k].url);
}

proof fn old_addresses_stay(state: HaulView, find: FindView)
    ensures
        forall|url: Seq<char>| #[trigger]
            addresses(state.found).contains(url) ==> addresses(kept(state, find).found).contains(
                url,
            ),
{
    let before = state.found;
    let after = kept(state, find).found;
    what_is_kept_stays(state, find);
    let a = before.web.len() as int;
    let b = a + before.arxiv.len();
    let c = b + before.pubmed.len();
    assert forall|url: Seq<char>| #[trigger] addresses(before).contains(url) implies addresses(
        after,
    ).contains(url) by {
        let k = choose|k: int| 0 <= k < addresses(before).len() && addresses(before)[k] == url;
        if k < a {
            assert(before.web[k] == after.web[k]);
            web_place_is_listed(after, k);
        } else if k < b {
            assert(before.arxiv[k - a] == after.arxiv[k - a]);
            arxiv_place_is_listed(after, k - a);
        } else if k < c {
            assert(before.pubmed[k - b] == after.pubmed[k - b]);
            pubmed_place_is_listed(after, k - b);
        } else {
            assert(before.scopus[k - c] == after.scopus[k - c]);
            scopus_place_is_listed(after, k - c);
        }
    }
}

} // verus!
