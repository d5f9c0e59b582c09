//! The research plan: asking for it, accepting it, writing it down.

use vstd::prelude::*;

use crate::llm::{Prompt, PromptView};
use crate::text;

verus! {

/// A research plan.
#[derive(Debug)]
pub struct Plan {
    pub key_questions: Vec<String>,
    pub evidence_needed: Vec<String>,
    pub scale: String,
    pub queries: Vec<String>,
    /// The most web results to collect per query. The planner sets it from the topic: broad
    /// or current topics warrant more coverage, narrow ones less.
    pub web_per_query: usize,
    /// How many sources to download in full. The configured limit caps it.
    pub download_budget: usize,
}

/// A plan with its texts as sequences of characters.
pub struct PlanView {
    pub key_questions: Seq<Seq<char>>,
    pub evidence_needed: Seq<Seq<char>>,
    pub scale: Seq<char>,
    pub queries: Seq<Seq<char>>,
    pub web_per_query: nat,
    pub download_budget: nat,
}

impl View for Plan {
    type V = PlanView;

    open spec fn view(&self) -> PlanView {
        PlanView {
            key_questions: text::views(self.key_questions@),
            evidence_needed: text::views(self.evidence_needed@),
            scale: self.scale@,
            queries: text::views(self.queries@),
            web_per_query: self.web_per_query as nat,
            download_budget: self.download_budget as nat,
        }
    }
}

impl Clone for Plan {
    fn clone(&self) -> (copy: Self)
        ensures
            copy@ == self@,
    {
        Plan {
            key_questions: text::copy_texts(&self.key_questions),
            evidence_needed: text::copy_texts(&self.evidence_needed),
            scale: self.scale.clone(),
            queries: text::copy_texts(&self.queries),
            web_per_query: self.web_per_query,
            download_budget: self.download_budget,
        }
    }
}

/// A plan as it is written down: plans may leave the two limits out.
#[derive(Debug)]
pub struct PlanFields {
    pub key_questions: Vec<String>,
    pub evidence_needed: Vec<String>,
    pub scale: String,
    pub queries: Vec<String>,
    pub web_per_query: Option<usize>,
    pub download_budget: Option<usize>,
}

/// The limit of web results per query of a plan that has none.
pub fn default_web_per_query() -> (r: usize)
    ensures
        r == 6,
{
    6
}

/// The download budget of a plan that has none.
pub fn default_download_budget() -> (r: usize)
    ensures
        r == 8,
{
    8
}

/// The value, or else the other.
pub open spec fn value_or(value: Option<usize>, other: nat) -> nat {
    match value {
        Some(value) => value as nat,
        None => other,
    }
}

impl PlanFields {
    /// The plan that is meant: what is left out has its default.
    pub open spec fn meant(self) -> PlanView {
        PlanView {
            key_questions: text::views(self.key_questions@),
            evidence_needed: text::views(self.evidence_needed@),
            scale: self.scale@,
            queries: text::views(self.queries@),
            web_per_query: value_or(self.web_per_query, 6),
            download_budget: value_or(self.download_budget, 8),
        }
    }

    /// The plan that is meant: what is left out has its default.
    pub fn into_plan(self) -> (r: Plan)
        ensures
            r@ == self.meant(),
    {
        let web_per_query: usize = match self.web_per_query {
            Some(value) => value,
            None => default_web_per_query(),
        };
        let download_budget: usize = match self.download_budget {
            Some(value) => value,
            None => default_download_budget(),
        };
        Plan {
            key_questions: self.key_questions,
            evidence_needed: self.evidence_needed,
            scale: self.scale,
            queries: self.queries,
            web_per_query,
            download_budget,
        }
    }
}

// ── limits ──────────────────────────────────────────────────────────

/// How many sources a run downloads in full: no more than the configured limit, and no more
/// than the plan's budget, when that is one.
pub open spec fn download_limit(max_sources: nat, budget: nat) -> nat {
    if budget == 0 || max_sources < budget {
        max_sources
    } else {
        budget
    }
}

/// How many sources a run downloads in full: no more than the configured limit, and no more
/// than the plan's budget, when that is one.
pub fn effective_max_sources(max_sources: usize, download_budget: usize) -> (r: usize)
    ensures
        r == download_limit(max_sources as nat, download_budget as nat),
{
    if download_budget == 0 || max_sources < download_budget {
        max_sources
    } else {
        download_budget
    }
}

/// The configured limit is never exceeded, nor is the plan's budget.
pub proof fn downloads_are_capped_twice(max_sources: nat, budget: nat)
    ensures
        download_limit(max_sources, budget) <= max_sources,
        budget > 0 ==> download_limit(max_sources, budget) <= budget,
        download_limit(max_sources, budget) == max_sources || download_limit(max_sources, budget)
            == budget,
        budget == 0 ==> download_limit(max_sources, budget) == max_sources,
{
}

/// The most web results to collect per query.
pub open spec fn per_query(web_per_query: nat) -> nat {
    if web_per_query > 0 {
        web_per_query
    } else {
        6
    }
}

/// The most web results to collect per query.
pub fn results_per_query(web_per_query: usize) -> (r: usize)
    ensures
        r == per_query(web_per_query as nat),
{
    if web_per_query > 0 {
        web_per_query
    } else {
        default_web_per_query()
    }
}

// ── asking ──────────────────────────────────────────────────────────

/// What the planner is told.
pub const PLANNER: &'static str = "You are a research planner. Produce a JSON plan for a web research task.\n\
     Respond with a single JSON object:\n\
     {\n\
       \"key_questions\": [\"...\"],\n\
       \"evidence_needed\": [\"...\"],\n\
       \"scale\": \"direct\" | \"survey\",\n\
       \"queries\": [\"...\"],\n\
       \"web_per_query\": <int>,\n\
       \"download_budget\": <int>\n\
     }\n\
     Rules:\n\
     - 3 to 6 search queries, distinct angles: definition/history, mechanism/how-it-works, current usage/comparison.\n\
     - scale: \"direct\" for narrow explainers (3-10 tool calls), \"survey\" for broad multi-faceted or current-events/news topics.\n\
     - web_per_query: how many web results to collect per query, based on topic urgency/scope.\n\
       Use 6-8 for narrow topics or quick fact checks.\n\
       Use 10-15 for broad surveys.\n\
       Use 15-20 for fast-moving/current-events or news-heavy topics where coverage matters and\n\
       individual sources are thin (the web query may otherwise return sparse results).\n\
     - download_budget: how many sources to download in full for this run (subject to a user-set hard cap).\n\
       Use ~6 for narrow fact checks.\n\
       Use 10-15 for broad surveys.\n\
       Use up to 20 for news/current-events where breadth of sources is valued over depth of any one.\n\
     - key_questions: 2-5.\n\
     - No markdown, no code fences, no prose. Only the JSON object.";

/// The prompt for a plan.
pub open spec fn plan_prompt_for(topic: Seq<char>) -> PromptView {
    PromptView {
        system: PLANNER@,
        user: "Research topic: "@ + topic + "\nProduce the research plan JSON."@,
        json: true,
    }
}

/// The prompt for a plan.
pub fn plan_prompt(topic: &str) -> (r: Prompt)
    ensures
        r.says(plan_prompt_for(topic@)),
{
    let mut user = "Research topic: ".to_owned();
    user.append(topic);
    user.append("\nProduce the research plan JSON.");
    Prompt::new(PLANNER, user.as_str(), true)
}

/// How often a plan is asked for.
pub const PLAN_ATTEMPTS: u32 = 3;

/// What becomes of a reply to the prompt for a plan.
#[derive(Debug, Clone, Copy, PartialEq, Eq, Structural)]
pub enum PlanVerdict {
    /// The plan is taken.
    Accept,
    /// It could not be read: it is asked for again.
    Unreadable,
    /// It holds no query: it is asked for again.
    NoQueries,
}

/// What becomes of a reply to the prompt for a plan, once it is read.
pub open spec fn verdict(plan: Option<PlanView>) -> PlanVerdict {
    match plan {
        Some(plan) => if plan.queries.len() > 0 {
            PlanVerdict::Accept
        } else {
            PlanVerdict::NoQueries
        },
        None => PlanVerdict::Unreadable,
    }
}

/// Where the search for a plan stands.
#[derive(Debug)]
pub enum Planning {
    /// A plan is to be asked for; so many replies were refused.
    Asking { refused: u32 },
    /// A plan was accepted.
    Planned { plan: Plan },
    /// Every attempt is used up.
    GivenUp,
}

/// Where the search for a plan stands, with the plan as its view.
pub enum PlanningView {
    Asking { refused: nat },
    Planned { plan: PlanView },
    GivenUp,
}

impl View for Planning {
    type V = PlanningView;

    open spec fn view(&self) -> PlanningView {
        match *self {
            Planning::Asking { refused } => PlanningView::Asking { refused: refused as nat },
            Planning::Planned { plan } => PlanningView::Planned { plan: plan@ },
            Planning::GivenUp => PlanningView::GivenUp,
        }
    }
}

/// Where the search for a plan stands after a reply; `plan` is what it was read as.
pub open spec fn after_reply(state: PlanningView, plan: Option<PlanView>) -> PlanningView {
    match state {
        PlanningView::Asking { refused } => if verdict(plan) == PlanVerdict::Accept {
            PlanningView::Planned { plan: plan->0 }
        } else if refused + 1 < PLAN_ATTEMPTS {
            PlanningView::Asking { refused: refused + 1 }
        } else {
            PlanningView::GivenUp
        },
        _ => state,
    }
}

/// What becomes of a reply to the prompt for a plan, once it is read.
pub fn judge(plan: &Option<Plan>) -> (r: PlanVerdict)
    ensures
        r == verdict(text::option_view(*plan)),
{
    match plan {
        Some(plan) => if plan.queries.len() > 0 {
            PlanVerdict::Accept
        } else {
            PlanVerdict::NoQueries
        },
        None => PlanVerdict::Unreadable,
    }
}

impl Planning {
    /// The search for a plan at its start.
    pub fn start() -> (r: Planning)
        ensures
            r@ == (PlanningView::Asking { refused: 0 }),
    {
        Planning::Asking { refused: 0 }
    }

    /// Where the search stands after a reply; `plan` is what it was read as.
    pub fn replied(self, plan: Option<Plan>) -> (r: Planning)
        ensures
            r@ == after_reply(self@, text::option_view(plan)),
    {
        match self {
            Planning::Asking { refused } => {
                let verdict = judge(&plan);
                match plan {
                    Some(plan) if verdict == PlanVerdict::Accept => Planning::Planned { plan },
                    _ => if refused < PLAN_ATTEMPTS - 1 {
                        Planning::Asking { refused: refused + 1 }
                    } else {
                        Planning::GivenUp
                    },
                }
            },
            other => other,
        }
    }
}

/// What is said when every attempt at a plan is used up.
pub const NO_PLAN: &'static str = "Could not produce a valid plan after 3 attempts";

/// An accepted plan has a query to search for.
pub proof fn accepted_plans_have_queries(state: PlanningView, plan: Option<PlanView>)
    requires
        state is Asking,
    ensures
        after_reply(state, plan) matches PlanningView::Planned { plan: accepted } ==> plan == Some(
            accepted,
        ) && accepted.queries.len() > 0,
{
}

// ── writing down ────────────────────────────────────────────────────

/// A list of bullets, one to a line.
pub open spec fn bullets(items: Seq<Seq<char>>) -> Seq<char>
    decreases items.len(),
{
    if items.len() == 0 {
        Seq::empty()
    } else {
        bullets(items.drop_last()) + "- "@ + items.last() + "\n"@
    }
}

/// Append a list of bullets, one to a line.
pub fn append_bullets(s: &mut String, items: &Vec<String>)
    ensures
        final(s)@ == old(s)@ + bullets(text::views(items@)),
{
    let ghost all = text::views(items@);
    let ghost before = s@;
    assert(all.take(0) =~= Seq::<Seq<char>>::empty());
    assert(before + Seq::<char>::empty() =~= before);
    for i in 0..items.len()
        invariant
            all == text::views(items@),
            s@ == before + bullets(all.take(i as int)),
    {
        proof {
            assert(all.take(i + 1).drop_last() == all.take(i as int));
            assert(all.take(i + 1).last() == items@[i as int]@);
            assert(before + (bullets(all.take(i as int)) + "- "@ + items@[i as int]@ + "\n"@) =~= before
                + bullets(all.take(i as int)) + "- "@ + items@[i as int]@ + "\n"@);
        }
        s.append("- ");
        s.append(items[i].as_str());
        s.append("\n");
    }
    assert(all.take(all.len() as int) == all);
}

/// The plan as a document.
pub open spec fn plan_document(plan: PlanView, topic: Seq<char>, slug: Seq<char>) -> Seq<char> {
    "# Research Plan: "@ + topic + "\n\n"@ + "- **Slug:** "@ + slug + "\n"@ + "- **Scale:** "@
        + plan.scale + "\n\n"@ + "## Key Questions\n\n"@ + bullets(plan.key_questions)
        + "\n## Evidence Needed\n\n"@ + bullets(plan.evidence_needed) + "\n## Search Queries\n\n"@
        + bullets(plan.queries)
}

/// The plan as a document.
pub fn format_plan(plan: &Plan, topic: &str, slug: &str) -> (r: String)
    ensures
        r@ == plan_document(plan@, topic@, slug@),
{
    let mut s = "# Research Plan: ".to_owned();
    s.append(topic);
    s.append("\n\n");
    s.append("- **Slug:** ");
    s.append(slug);
    s.append("\n");
    s.append("- **Scale:** ");
    s.append(plan.scale.as_str());
    s.append("\n\n");
    s.append("## Key Questions\n\n");
    append_bullets(&mut s, &plan.key_questions);
    s.append("\n## Evidence Needed\n\n");
    append_bullets(&mut s, &plan.evidence_needed);
    s.append("\n## Search Queries\n\n");
    append_bullets(&mut s, &plan.queries);
    s
}

// ── laws ────────────────────────────────────────────────────────────

/// A plan as it is written down is taken over as it is; the two limits are 6 and 8 where they
/// are left out.
pub proof fn plans_are_taken_over(fields: PlanFields)
    ensures
        ({
            let plan = fields.meant();
            &&& plan.queries == text::views(fields.queries@)
            &&& plan.key_questions == text::views(fields.key_questions@)
            &&& plan.evidence_needed == text::views(fields.evidence_needed@)
            &&& plan.scale == fields.scale@
            &&& fields.web_per_query matches Some(n) ==> plan.web_per_query == n
            &&& fields.web_per_query is None ==> plan.web_per_query == 6
            &&& fields.download_budget matches Some(n) ==> plan.download_budget == n
            &&& fields.download_budget is None ==> plan.download_budget == 8
        }),
{
}

/// A query collects as many web results as the plan says, and six where it says none.
pub proof fn queries_collect_what_is_planned(web_per_query: nat)
    ensures
        web_per_query > 0 ==> per_query(web_per_query) == web_per_query,
        web_per_query == 0 ==> per_query(web_per_query) == 6,
{
}

/// The planner is told the topic, and asked for JSON.
pub proof fn planners_hear_the_topic(topic: Seq<char>)
    ensures
        plan_prompt_for(topic).system == PLANNER@,
        plan_prompt_for(topic).json,
        text::contains(plan_prompt_for(topic).user, "Research topic: "@ + topic + "\n"@),
{
    reveal_strlit("\n");
    reveal_strlit("\nProduce the research plan JSON.");
    let end = "\nProduce the research plan JSON."@;
    let part = "Research topic: "@ + topic + "\n"@;
    assert(end =~= "\n"@ + end.skip(1));
    assert(plan_prompt_for(topic).user =~= Seq::<char>::empty() + part + end.skip(1));
    text::holds_its_middle(Seq::empty(), part, end.skip(1));
}

/// A plan with a query is taken whenever it comes, and nothing is asked for after that; any
/// other reply is asked for again, until the third one was refused.
pub proof fn plans_are_asked_for_three_times(refused: nat, plan: Option<PlanView>)
    ensures
        ({
            let asking = PlanningView::Asking { refused };
            let next = after_reply(asking, plan);
            let usable = plan matches Some(found) && found.queries.len() > 0;
            &&& usable ==> next == (PlanningView::Planned { plan: plan->0 }) && after_reply(
                next,
                None,
            ) == next
            &&& !usable && refused < 2 ==> next == (PlanningView::Asking { refused: refused + 1 })
            &&& !usable && refused >= 2 ==> next == PlanningView::GivenUp
        }),
{
}

/// A list of bullets has a line for each of its items.
pub proof fn bullets_hold_each(items: Seq<Seq<char>>, i: int)
    requires
        0 <= i < items.len(),
    ensures
        text::contains(bullets(items), "- "@ + items[i] + "\n"@),
    decreases items.len(),
{
    let rest = bullets(items.drop_last());
    let last = "- "@ + items.last() + "\n"@;
    let nothing = Seq::<char>::empty();
    if i == items.len() - 1 {
        assert(bullets(items) =~= rest + last + nothing);
        text::holds_its_middle(rest, last, nothing);
    } else {
        bullets_hold_each(items.drop_last(), i);
        assert(items.drop_last()[i] == items[i]);
        assert(bullets(items) =~= nothing + rest + last);
        text::holds_within(nothing, rest, last, "- "@ + items[i] + "\n"@);
    }
}

/// The plan's document gives the topic, the slug and the scale, and under their own headings
/// the questions, what is needed, and the queries.
pub proof fn plan_documents_are_complete(plan: PlanView, topic: Seq<char>, slug: Seq<char>)
    ensures
        ({
            let document = plan_document(plan, topic, slug);
            &&& text::contains(document, "# Research Plan: "@ + topic + "\n\n"@)
            &&& text::contains(document, "- **Slug:** "@ + slug + "\n"@)
            &&& text::contains(document, "- **Scale:** "@ + plan.scale + "\n\n"@)
            &&& text::contains(document, "## Key Questions\n\n"@ + bullets(plan.key_questions))
            &&& text::contains(
                document,
                "\n## Evidence Needed\n\n"@ + bullets(plan.evidence_needed),
            )
            &&& text::contains(document, "\n## Search Queries\n\n"@ + bullets(plan.queries))
        }),
{
    let document = plan_document(plan, topic, slug);
    let nothing = Seq::<char>::empty();
    let a = "# Research Plan: "@ + topic + "\n\n"@;
    let b = "- **Slug:** "@ + slug + "\n"@;
    let c = "- **Scale:** "@ + plan.scale + "\n\n"@;
    let d = "## Key Questions\n\n"@ + bullets(plan.key_questions);
    let e = "\n## Evidence Needed\n\n"@ + bullets(plan.evidence_needed);
    let f = "\n## Search Queries\n\n"@ + bullets(plan.queries);
    assert(document =~= a + b + c + d + e + f);
    assert(document =~= nothing + a + (b + c + d + e + f));
    text::holds_its_middle(nothing, a, b + c + d + e + f);
    assert(document =~= a + b + (c + d + e + f));
    text::holds_its_middle(a, b, c + d + e + f);
    assert(document =~= a + b + c + (d + e + f));
    text::holds_its_middle(a + b, c, d + e + f);
    assert(document =~= a + b + c + d + (e + f));
    text::holds_its_middle(a + b + c, d, e + f);
    text::holds_its_middle(a + b + c + d, e, f);
    assert(document =~= a + b + c + d + e + f + nothing);
    text::holds_its_middle(a + b + c + d + e, f, nothing);
}

/// A reply that holds no plan and a plan without queries are told apart; a plan with queries
/// is accepted.
pub proof fn verdicts_say_what_is_wrong(plan: PlanView)
    ensures
        verdict(None) == PlanVerdict::Unreadable,
        plan.queries.len() == 0 ==> verdict(Some(plan)) == PlanVerdict::NoQueries,
        plan.queries.len() > 0 ==> verdict(Some(plan)) == PlanVerdict::Accept,
{
}

} // verus!
