//! The debate: agents with distinct beliefs argue over a cited draft.
//!
//! In each round every agent writes an argument from its belief, then reads the others'
//! arguments and updates its belief. After the rounds a moderator names what the agents
//! agree and disagree on, and the most confident agents answer for the open points.
//!
//! Positions and confidences are measures: numbers that this module carries and compares,
//! and never computes.

use vstd::prelude::*;

use crate::fence;
use crate::json;
use crate::json::{Entry, MemberView};
use crate::llm::{Prompt, PromptView};
use crate::number;
use crate::text;
use crate::words;
use crate::workflow::evidence;
use crate::workflow::evidence::{EvidenceItem, EvidenceView};

verus! {

/// How many rounds a debate has.
pub const DEFAULT_ROUNDS: usize = 2;

/// How many agents debate.
pub const DEFAULT_AGENT_COUNT: usize = 5;

/// How many agents are interviewed.
pub const INTERVIEWS: usize = 2;

// ── data ────────────────────────────────────────────────────────────

/// A number: its bits as a single-precision one, and its notation with two decimals.
#[derive(Debug)]
pub struct Measure {
    pub bits: u32,
    pub text: String,
}

/// A measure with its notation as a sequence of characters.
pub struct MeasureView {
    pub bits: u32,
    pub text: Seq<char>,
}

impl View for Measure {
    type V = MeasureView;

    open spec fn view(&self) -> MeasureView {
        MeasureView { bits: self.bits, text: self.text@ }
    }
}

impl Clone for Measure {
    fn clone(&self) -> (copy: Self)
        ensures
            copy == *self,
    {
        Measure { bits: self.bits, text: self.text.clone() }
    }
}

impl Measure {
    /// The measure with these bits and this notation.
    pub fn new(bits: u32, text: &str) -> (r: Measure)
        ensures
            r@ == (MeasureView { bits, text: text@ }),
    {
        Measure { bits, text: text.to_owned() }
    }
}

/// A participant.
#[derive(Debug)]
pub struct DebateAgent {
    pub id: String,
    pub name: String,
    /// What the agent stands for.
    pub stance: String,
    /// From -1 (strongly against) to +1 (strongly for).
    pub position: Measure,
    /// From 0 to 1. High confidence resists change.
    pub confidence: Measure,
}

/// A participant with its texts as sequences of characters.
pub struct AgentView {
    pub id: Seq<char>,
    pub name: Seq<char>,
    pub stance: Seq<char>,
    pub position: MeasureView,
    pub confidence: MeasureView,
}

impl View for DebateAgent {
    type V = AgentView;

    open spec fn view(&self) -> AgentView {
        AgentView {
            id: self.id@,
            name: self.name@,
            stance: self.stance@,
            position: self.position@,
            confidence: self.confidence@,
        }
    }
}

impl Clone for DebateAgent {
    fn clone(&self) -> (copy: Self)
        ensures
            copy == *self,
    {
        DebateAgent {
            id: self.id.clone(),
            name: self.name.clone(),
            stance: self.stance.clone(),
            position: self.position.clone(),
            confidence: self.confidence.clone(),
        }
    }
}

/// What an agent said in a round.
#[derive(Debug)]
pub struct DebateArgument {
    pub agent: String,
    pub round: usize,
    pub text: String,
}

/// An argument with its texts as sequences of characters.
pub struct ArgumentView {
    pub agent: Seq<char>,
    pub round: nat,
    pub text: Seq<char>,
}

impl View for DebateArgument {
    type V = ArgumentView;

    open spec fn view(&self) -> ArgumentView {
        ArgumentView { agent: self.agent@, round: self.round as nat, text: self.text@ }
    }
}

impl Clone for DebateArgument {
    fn clone(&self) -> (copy: Self)
        ensures
            copy == *self,
    {
        DebateArgument { agent: self.agent.clone(), round: self.round, text: self.text.clone() }
    }
}

/// Where an agent stands.
#[derive(Debug)]
pub struct AgentPosition {
    pub agent: String,
    pub position: Measure,
    pub confidence: Measure,
}

/// Where an agent stands, as its view.
pub struct PositionView {
    pub agent: Seq<char>,
    pub position: MeasureView,
    pub confidence: MeasureView,
}

impl View for AgentPosition {
    type V = PositionView;

    open spec fn view(&self) -> PositionView {
        PositionView {
            agent: self.agent@,
            position: self.position@,
            confidence: self.confidence@,
        }
    }
}

/// What the debate came to.
#[derive(Debug)]
pub struct ConsensusSummary {
    /// Where each agent stands at the end.
    pub final_positions: Vec<AgentPosition>,
    /// The mean position.
    pub mean_position: Measure,
    /// The distance between the outermost positions; less is more agreement.
    pub spread: Measure,
    /// How much the spread shrank from the first round to the last.
    pub convergence: Measure,
    /// What the agents agree on.
    pub consensus_points: Vec<String>,
    /// What they disagree on.
    pub dissensus_points: Vec<String>,
    /// The outcome in words, for the review.
    pub summary: String,
}

/// What the debate came to, as its view.
pub struct ConsensusView {
    pub final_positions: Seq<PositionView>,
    pub mean_position: MeasureView,
    pub spread: MeasureView,
    pub convergence: MeasureView,
    pub consensus_points: Seq<Seq<char>>,
    pub dissensus_points: Seq<Seq<char>>,
    pub summary: Seq<char>,
}

impl View for ConsensusSummary {
    type V = ConsensusView;

    open spec fn view(&self) -> ConsensusView {
        ConsensusView {
            final_positions: text::views(self.final_positions@),
            mean_position: self.mean_position@,
            spread: self.spread@,
            convergence: self.convergence@,
            consensus_points: text::views(self.consensus_points@),
            dissensus_points: text::views(self.dissensus_points@),
            summary: self.summary@,
        }
    }
}

/// An agent's answer to a question that the debate left open.
#[derive(Debug)]
pub struct InterviewAnswer {
    pub agent: String,
    pub question: String,
    pub answer: String,
}

/// An answer with its texts as sequences of characters.
pub struct AnswerView {
    pub agent: Seq<char>,
    pub question: Seq<char>,
    pub answer: Seq<char>,
}

impl View for InterviewAnswer {
    type V = AnswerView;

    open spec fn view(&self) -> AnswerView {
        AnswerView { agent: self.agent@, question: self.question@, answer: self.answer@ }
    }
}

/// A debate from its start to its end.
#[derive(Debug)]
pub struct DebateResult {
    pub agents: Vec<DebateAgent>,
    pub rounds: Vec<Vec<DebateArgument>>,
    pub consensus: ConsensusSummary,
    pub interviews: Vec<InterviewAnswer>,
}

/// A debate as its view.
pub struct DebateView {
    pub agents: Seq<AgentView>,
    pub rounds: Seq<Seq<ArgumentView>>,
    pub consensus: ConsensusView,
    pub interviews: Seq<AnswerView>,
}

/// The view of the arguments of some rounds.
pub open spec fn round_views(rounds: Seq<Vec<DebateArgument>>) -> Seq<Seq<ArgumentView>> {
    rounds.map_values(|round: Vec<DebateArgument>| text::views(round@))
}

impl View for DebateResult {
    type V = DebateView;

    open spec fn view(&self) -> DebateView {
        DebateView {
            agents: text::views(self.agents@),
            rounds: round_views(self.rounds@),
            consensus: self.consensus@,
            interviews: text::views(self.interviews@),
        }
    }
}

// ── participants ────────────────────────────────────────────────────

/// The agents at the start: beliefs across the spectrum.
pub open spec fn lineup() -> Seq<AgentView> {
    seq![
        AgentView {
            id: "A1"@,
            name: "The Skeptic"@,
            stance: "skeptical, demands strong evidence for every claim"@,
            position: MeasureView { bits: 0xbf19999a, text: "-0.60"@ },
            confidence: MeasureView { bits: 0x3f19999a, text: "0.60"@ },
        },
        AgentView {
            id: "A2"@,
            name: "The Advocate"@,
            stance: "charitable to the draft's thesis, looks for what's right"@,
            position: MeasureView { bits: 0x3f19999a, text: "0.60"@ },
            confidence: MeasureView { bits: 0x3f000000, text: "0.50"@ },
        },
        AgentView {
            id: "A3"@,
            name: "The Methodologist"@,
            stance: "focuses on methodology, source quality, and citation rigor"@,
            position: MeasureView { bits: 0x3dcccccd, text: "0.10"@ },
            confidence: MeasureView { bits: 0x3f333333, text: "0.70"@ },
        },
        AgentView {
            id: "A4"@,
            name: "The Practitioner"@,
            stance: "grounds every claim in practical applicability and real-world context"@,
            position: MeasureView { bits: 0x3e4ccccd, text: "0.20"@ },
            confidence: MeasureView { bits: 0x3f000000, text: "0.50"@ },
        },
        AgentView {
            id: "A5"@,
            name: "The Ethicist"@,
            stance: "weighs risks, biases, and the broader implications of the conclusions"@,
            position: MeasureView { bits: 0xbe4ccccd, text: "-0.20"@ },
            confidence: MeasureView { bits: 0x3f000000, text: "0.50"@ },
        },
    ]
}

fn agent(
    id: &str,
    name: &str,
    stance: &str,
    position: Measure,
    confidence: Measure,
) -> (r: DebateAgent)
    ensures
        r@ == (AgentView {
            id: id@,
            name: name@,
            stance: stance@,
            position: position@,
            confidence: confidence@,
        }),
{
    DebateAgent {
        id: id.to_owned(),
        name: name.to_owned(),
        stance: stance.to_owned(),
        position,
        confidence,
    }
}

/// The agents at the start: beliefs across the spectrum.
pub fn initial_agents() -> (r: Vec<DebateAgent>)
    ensures
        text::views(r@) == lineup(),
{
    let mut r: Vec<DebateAgent> = Vec::new();
    r.push(
        agent(
            "A1",
            "The Skeptic",
            "skeptical, demands strong evidence for every claim",
            Measure::new(0xbf19999a, "-0.60"),
            Measure::new(0x3f19999a, "0.60"),
        ),
    );
    r.push(
        agent(
            "A2",
            "The Advocate",
            "charitable to the draft's thesis, looks for what's right",
            Measure::new(0x3f19999a, "0.60"),
            Measure::new(0x3f000000, "0.50"),
        ),
    );
    r.push(
        agent(
            "A3",
            "The Methodologist",
            "focuses on methodology, source quality, and citation rigor",
            Measure::new(0x3dcccccd, "0.10"),
            Measure::new(0x3f333333, "0.70"),
        ),
    );
    r.push(
        agent(
            "A4",
            "The Practitioner",
            "grounds every claim in practical applicability and real-world context",
            Measure::new(0x3e4ccccd, "0.20"),
            Measure::new(0x3f000000, "0.50"),
        ),
    );
    r.push(
        agent(
            "A5",
            "The Ethicist",
            "weighs risks, biases, and the broader implications of the conclusions",
            Measure::new(0xbe4ccccd, "-0.20"),
            Measure::new(0x3f000000, "0.50"),
        ),
    );
    assert(text::views(r@) =~= lineup());
    r
}

// ── what the agents see ─────────────────────────────────────────────

/// The section under a heading, up to the next one.
pub open spec fn section(draft: Seq<char>, heading: Seq<char>) -> Option<Seq<char>> {
    match text::first(draft, heading) {
        Some(from) => match text::first_from(draft, "\n## "@, from) {
            Some(to) => Some(draft.subrange(from, to)),
            None => Some(draft.skip(from)),
        },
        None => None,
    }
}

fn section_of(draft: &Vec<char>, heading: &str) -> (r: Option<String>)
    ensures
        text::option_view(r) == section(draft@, heading@),
{
    let wanted = text::chars_of(heading);
    let next = text::chars_of("\n## ");
    proof {
        text::first_from_is_first(draft@, heading@, 0);
    }
    match text::find_from(draft, &wanted, 0) {
        Some(from) => {
            proof {
                text::first_from_is_first(draft@, "\n## "@, from as int);
            }
            match text::find_from(draft, &next, from) {
                Some(to) => Some(text::text_of(draft, from, to)),
                None => {
                    assert(draft@.skip(from as int) =~= draft@.subrange(
                        from as int,
                        draft@.len() as int,
                    ));
                    Some(text::text_of(draft, from, draft.len()))
                },
            }
        },
        None => None,
    }
}

/// A section with an empty line behind it.
pub open spec fn spaced(section: Option<Seq<char>>) -> Seq<char> {
    match section {
        Some(text) => text + "\n\n"@,
        None => Seq::empty(),
    }
}

/// From a heading on to the end.
pub open spec fn rest_from(draft: Seq<char>, heading: Seq<char>) -> Seq<char> {
    match text::first(draft, heading) {
        Some(from) => draft.skip(from),
        None => Seq::empty(),
    }
}

/// The parts of a draft that a debate needs.
pub open spec fn gist(draft: Seq<char>) -> Seq<char> {
    spaced(section(draft, "## Executive Summary"@)) + spaced(section(draft, "## Open Questions"@))
        + rest_from(draft, "## Sources"@)
}

/// The most that agents see of a draft.
pub const DRAFT_CAP: usize = 6000;

/// The start of a draft that agents see where it has none of the sections.
pub const DRAFT_HEAD: usize = 2000;

/// A draft condensed for debate: its summary, its open questions and its sources; its head
/// where it has none of these. The result is bounded.
pub open spec fn condensed(draft: Seq<char>) -> Seq<char> {
    let parts = gist(draft);
    words::cut(
        if words::trim(parts).len() == 0 {
            parts + words::cut(draft, DRAFT_HEAD as nat)
        } else {
            parts
        },
        DRAFT_CAP as nat,
    )
}

/// A draft condensed for debate: its summary, its open questions and its sources; its head
/// where it has none of these. The result is bounded.
pub fn condense_draft(cited_draft: &str) -> (r: String)
    ensures
        r@ == condensed(cited_draft@),
{
    let draft = text::chars_of(cited_draft);
    let mut out = String::new();
    match section_of(&draft, "## Executive Summary") {
        Some(part) => {
            out.append(part.as_str());
            out.append("\n\n");
        },
        None => {},
    }
    assert(out@ =~= spaced(section(draft@, "## Executive Summary"@)));
    let ghost first = out@;
    match section_of(&draft, "## Open Questions") {
        Some(part) => {
            out.append(part.as_str());
            out.append("\n\n");
        },
        None => {},
    }
    assert(out@ =~= first + spaced(section(draft@, "## Open Questions"@)));
    let ghost second = out@;
    let wanted = text::chars_of("## Sources");
    proof {
        text::first_from_is_first(draft@, "## Sources"@, 0);
    }
    match text::find_from(&draft, &wanted, 0) {
        Some(from) => {
            out.append(text::text_of(&draft, from, draft.len()).as_str());
            assert(draft@.skip(from as int) =~= draft@.subrange(from as int, draft@.len() as int));
        },
        None => {},
    }
    assert(out@ =~= second + rest_from(draft@, "## Sources"@));
    let trimmed = words::trimmed(out.as_str());
    if text::blank(trimmed.as_str()) {
        out.append(words::shortened(cited_draft, DRAFT_HEAD).as_str());
    }
    words::shortened(out.as_str(), DRAFT_CAP)
}

/// However long a draft is, agents see a bounded part of it.
pub proof fn condensed_drafts_are_bounded(draft: Seq<char>)
    ensures
        condensed(draft).len() <= DRAFT_CAP,
{
}

/// The list of sources, one to a line.
pub open spec fn source_list(items: Seq<EvidenceView>) -> Seq<char>
    decreases items.len(),
{
    if items.len() == 0 {
        Seq::empty()
    } else {
        source_list(items.drop_last()) + evidence::source_line(items.last()) + "\n"@
    }
}

/// The list of sources, one to a line.
pub fn build_source_list(evidence: &[EvidenceItem]) -> (r: String)
    ensures
        r@ == source_list(text::views(evidence@)),
{
    let ghost all = text::views(evidence@);
    let mut s = String::new();
    assert(all.take(0) =~= Seq::<EvidenceView>::empty());
    for i in 0..evidence.len()
        invariant
            all == text::views(evidence@),
            s@ == source_list(all.take(i as int)),
    {
        assert(all.take(i + 1).drop_last() == all.take(i as int));
        assert(all.take(i + 1).last() == evidence@[i as int]@);
        s.append(evidence::source_line_of(&evidence[i]).as_str());
        s.append("\n");
    }
    assert(all.take(all.len() as int) == all);
    s
}

// ── prompts ─────────────────────────────────────────────────────────

/// What an agent is told before it argues.
pub const ARGUER: &'static str = "You are a research debate participant. You are critiquing a research brief \
     before it is finalized. You examine BOTH the content claims AND the references \
     that support them.\n\
     Rules:\n\
     - Argue from your stated stance and current belief. Do not abandon your position lightly.\n\
     - Focus on: unsupported claims, weak or missing citations, single-source critical claims,\n\
       logical gaps, overstatement, and reference quality.\n\
     - Be specific: name the claim or citation you challenge, and say what evidence would change your mind.\n\
     - Keep it under 150 words. No pleasantries.\n\
     - Write in the same language as the topic (if the topic is Hungarian, write in Hungarian).\n\
     - Output only your argument.";

/// An agent's belief in words.
pub open spec fn belief(agent: AgentView) -> Seq<char> {
    "# YOUR CURRENT BELIEFS AND STANCE\n- Stance: "@ + agent.stance
        + "\n- Position on the topic: "@ + agent.position.text
        + " (-1 strongly against, +1 strongly for)\n- Confidence: "@ + agent.confidence.text
}

fn belief_of(agent: &DebateAgent) -> (r: String)
    ensures
        r@ == belief(agent@),
{
    let mut s = "# YOUR CURRENT BELIEFS AND STANCE\n- Stance: ".to_owned();
    s.append(agent.stance.as_str());
    s.append("\n- Position on the topic: ");
    s.append(agent.position.text.as_str());
    s.append(" (-1 strongly against, +1 strongly for)\n- Confidence: ");
    s.append(agent.confidence.text.as_str());
    s
}

/// The prompt for an agent's argument.
pub open spec fn argument_prompt_for(
    agent: AgentView,
    topic: Seq<char>,
    draft: Seq<char>,
    sources: Seq<char>,
) -> PromptView {
    PromptView {
        system: ARGUER@,
        user: "Topic: "@ + topic + "\n\nSources available:\n"@ + sources
            + "\n\nCited draft under debate:\n\n"@ + draft + "\n\n"@ + belief(agent)
            + "\n\nWrite your argument."@,
        json: false,
    }
}

/// The prompt for an agent's argument.
pub fn argument_prompt(agent: &DebateAgent, topic: &str, draft: &str, sources: &str) -> (r: Prompt)
    ensures
        r.says(argument_prompt_for(agent@, topic@, draft@, sources@)),
{
    let mut user = "Topic: ".to_owned();
    user.append(topic);
    user.append("\n\nSources available:\n");
    user.append(sources);
    user.append("\n\nCited draft under debate:\n\n");
    user.append(draft);
    user.append("\n\n");
    user.append(belief_of(agent).as_str());
    user.append("\n\nWrite your argument.");
    Prompt::new(ARGUER, user.as_str(), false)
}

/// What an agent is told before it updates its belief.
pub const UPDATER: &'static str = "You are a research debate participant. You have just read your colleagues' arguments.\n\
     Update your belief:\n\
     - If an argument is strong (specific, evidence-backed, addresses your concerns), move toward it.\n\
     - If an argument is weak (vague, unsupported, already refuted), ignore it.\n\
     - High-confidence positions resist change; low-confidence ones are more movable.\n\
     - Your position stays within -1.0 (strongly against) to +1.0 (strongly for).\n\
     - Write the reason in the same language as the arguments (if they are Hungarian, write in Hungarian).\n\
     Respond with a single JSON object:\n\
     {\"position\": <number -1..1>, \"confidence\": <number 0..1>, \"reason\": \"<one sentence>\"}\n\
     No markdown, only the JSON object.";

/// An argument as another agent reads it.
pub open spec fn quoted(argument: ArgumentView) -> Seq<char> {
    "["@ + argument.agent + "]: "@ + argument.text
}

/// The arguments of all agents but one, as that one reads them.
pub open spec fn others(arguments: Seq<ArgumentView>, id: Seq<char>) -> Seq<Seq<char>> {
    arguments.filter(|argument: ArgumentView| argument.agent != id).map_values(
        |argument: ArgumentView| quoted(argument),
    )
}

fn others_of(arguments: &Vec<DebateArgument>, id: &str) -> (r: Vec<String>)
    ensures
        text::views(r@) == others(text::views(arguments@), id@),
{
    let ghost all = text::views(arguments@);
    let ghost keep = |argument: ArgumentView| argument.agent != id@;
    let ghost quote = |argument: ArgumentView| quoted(argument);
    let mut out: Vec<String> = Vec::new();
    proof {
        reveal(Seq::filter);
        assert(all.take(0) =~= Seq::<ArgumentView>::empty());
        assert(text::views(out@) =~= all.take(0).filter(keep).map_values(quote));
    }
    for i in 0..arguments.len()
        invariant
            all == text::views(arguments@),
            keep == (|argument: ArgumentView| argument.agent != id@),
            quote == (|argument: ArgumentView| quoted(argument)),
            text::views(out@) == all.take(i as int).filter(keep).map_values(quote),
    {
        proof {
            reveal(Seq::filter);
            assert(all.take(i + 1).drop_last() == all.take(i as int));
            assert(all[i as int] == arguments@[i as int]@);
        }
        if !text::same(arguments[i].agent.as_str(), id) {
            let mut line = "[".to_owned();
            line.append(arguments[i].agent.as_str());
            line.append("]: ");
            line.append(arguments[i].text.as_str());
            let ghost before = out@;
            let ghost kept = all.take(i as int).filter(keep);
            out.push(line);
            assert(text::views(out@) =~= text::views(before).push(line@));
            assert(kept.push(all[i as int]).map_values(quote) =~= kept.map_values(quote).push(
                line@,
            ));
        }
    }
    assert(all.take(all.len() as int) == all);
    out
}

/// The prompt for an agent's new belief, after it has read the others' arguments.
pub open spec fn update_prompt_for(agent: AgentView, arguments: Seq<ArgumentView>) -> PromptView {
    PromptView {
        system: UPDATER@,
        user: "Your current belief: position "@ + agent.position.text + ", confidence "@
            + agent.confidence.text + "\n\nArguments you read:\n"@ + words::joined(
            others(arguments, agent.id),
            "\n\n"@,
        ) + "\n\nOutput your updated belief JSON."@,
        json: true,
    }
}

/// The prompt for an agent's new belief, after it has read the others' arguments.
pub fn update_prompt(agent: &DebateAgent, arguments: &Vec<DebateArgument>) -> (r: Prompt)
    ensures
        r.says(update_prompt_for(agent@, text::views(arguments@))),
{
    let mut user = "Your current belief: position ".to_owned();
    user.append(agent.position.text.as_str());
    user.append(", confidence ");
    user.append(agent.confidence.text.as_str());
    user.append("\n\nArguments you read:\n");
    let read = others_of(arguments, agent.id.as_str());
    user.append(words::join(&read, "\n\n").as_str());
    user.append("\n\nOutput your updated belief JSON.");
    Prompt::new(UPDATER, user.as_str(), true)
}

/// What the moderator is told.
pub const MODERATOR: &'static str = "You are a debate moderator. Based on the final agent positions and the full debate transcript,\n\
     identify:\n\
     1. consensus_points: claims or issues where the agents converged (agreement). 2-4 items.\n\
     2. dissensus_points: claims or issues where agents still disagree. 2-4 items.\n\
     Write the points in the same language as the topic (if the topic is Hungarian, write in Hungarian).\n\
     Respond with a single JSON object:\n\
     {\"consensus_points\": [\"...\"], \"dissensus_points\": [\"...\"]}\n\
     No markdown, only the JSON object.";

/// Where an agent stands, in words.
pub open spec fn standing(position: PositionView) -> Seq<char> {
    position.agent + ": position "@ + position.position.text + ", confidence "@
        + position.confidence.text
}

/// Where the agents stand, in words.
pub open spec fn standings(positions: Seq<PositionView>) -> Seq<Seq<char>> {
    positions.map_values(|position: PositionView| standing(position))
}

fn standings_of(positions: &Vec<AgentPosition>) -> (r: Vec<String>)
    ensures
        text::views(r@) == standings(text::views(positions@)),
{
    let ghost wanted = standings(text::views(positions@));
    let mut out: Vec<String> = Vec::new();
    for i in 0..positions.len()
        invariant
            wanted == standings(text::views(positions@)),
            text::views(out@) == wanted.take(i as int),
    {
        let mut line = positions[i].agent.clone();
        line.append(": position ");
        line.append(positions[i].position.text.as_str());
        line.append(", confidence ");
        line.append(positions[i].confidence.text.as_str());
        let ghost before = out@;
        out.push(line);
        proof {
            assert(wanted[i as int] == line@);
            assert(text::views(out@) =~= text::views(before).push(line@));
            assert(wanted.take(i + 1) =~= wanted.take(i as int).push(wanted[i as int]));
        }
    }
    assert(wanted.take(wanted.len() as int) =~= wanted);
    out
}

/// A line of the transcript.
pub open spec fn recorded(argument: ArgumentView) -> Seq<char> {
    "[R"@ + number::decimal(argument.round) + " "@ + argument.agent + "]: "@ + argument.text
}

/// The lines of one round.
pub open spec fn round_lines(round: Seq<ArgumentView>) -> Seq<Seq<char>> {
    round.map_values(|argument: ArgumentView| recorded(argument))
}

/// The lines of the transcript.
pub open spec fn transcript(rounds: Seq<Seq<ArgumentView>>) -> Seq<Seq<char>>
    decreases rounds.len(),
{
    if rounds.len() == 0 {
        Seq::empty()
    } else {
        transcript(rounds.drop_last()) + round_lines(rounds.last())
    }
}

fn record(lines: &mut Vec<String>, round: &Vec<DebateArgument>)
    ensures
        text::views(final(lines)@) == text::views(old(lines)@) + round_lines(text::views(round@)),
{
    let ghost before = text::views(lines@);
    let ghost wanted = round_lines(text::views(round@));
    assert(before + wanted.take(0) =~= before);
    for i in 0..round.len()
        invariant
            wanted == round_lines(text::views(round@)),
            text::views(lines@) == before + wanted.take(i as int),
    {
        let mut line = "[R".to_owned();
        line.append(number::decimal_of(round[i].round as u128).as_str());
        line.append(" ");
        line.append(round[i].agent.as_str());
        line.append("]: ");
        line.append(round[i].text.as_str());
        let ghost so_far = lines@;
        lines.push(line);
        proof {
            assert(wanted[i as int] == line@);
            assert(text::views(lines@) =~= text::views(so_far).push(line@));
            assert(before + wanted.take(i + 1) =~= (before + wanted.take(i as int)).push(
                wanted[i as int],
            ));
        }
    }
    assert(wanted.take(wanted.len() as int) =~= wanted);
}

fn transcript_of(rounds: &Vec<Vec<DebateArgument>>) -> (r: Vec<String>)
    ensures
        text::views(r@) == transcript(round_views(rounds@)),
{
    let ghost all = round_views(rounds@);
    let mut lines: Vec<String> = Vec::new();
    assert(all.take(0) =~= Seq::<Seq<ArgumentView>>::empty());
    assert(text::views(lines@) =~= Seq::<Seq<char>>::empty());
    for i in 0..rounds.len()
        invariant
            all == round_views(rounds@),
            text::views(lines@) == transcript(all.take(i as int)),
    {
        assert(all.take(i + 1).drop_last() == all.take(i as int));
        assert(all.take(i + 1).last() == text::views(rounds@[i as int]@));
        record(&mut lines, &rounds[i]);
    }
    assert(all.take(all.len() as int) == all);
    lines
}

/// The prompt for what the agents agree and disagree on.
pub open spec fn moderator_prompt_for(
    topic: Seq<char>,
    positions: Seq<PositionView>,
    rounds: Seq<Seq<ArgumentView>>,
) -> PromptView {
    PromptView {
        system: MODERATOR@,
        user: "Topic: "@ + topic + "\n\nFinal positions:\n"@ + words::joined(
            standings(positions),
            "\n"@,
        ) + "\n\nDebate transcript:\n"@ + words::joined(transcript(rounds), "\n"@)
            + "\n\nOutput the consensus JSON."@,
        json: true,
    }
}

/// The prompt for what the agents agree and disagree on.
pub fn moderator_prompt(
    topic: &str,
    positions: &Vec<AgentPosition>,
    rounds: &Vec<Vec<DebateArgument>>,
) -> (r: Prompt)
    ensures
        r.says(moderator_prompt_for(topic@, text::views(positions@), round_views(rounds@))),
{
    let mut user = "Topic: ".to_owned();
    user.append(topic);
    user.append("\n\nFinal positions:\n");
    user.append(words::join(&standings_of(positions), "\n").as_str());
    user.append("\n\nDebate transcript:\n");
    user.append(words::join(&transcript_of(rounds), "\n").as_str());
    user.append("\n\nOutput the consensus JSON.");
    Prompt::new(MODERATOR, user.as_str(), true)
}

/// What an agent is told before an interview.
pub const INTERVIEWEE: &'static str = "You are a research debate participant. The debate is over and a point is still open.\n\
     The moderator asks you a follow-up question about it.\n\
     Rules:\n\
     - Answer from your stated stance and current belief.\n\
     - Say what evidence would settle the point.\n\
     - Keep it under 150 words. No pleasantries.\n\
     - Write in the same language as the topic (if the topic is Hungarian, write in Hungarian).\n\
     - Output only your answer.";

/// The prompt for an agent's answer to an open point.
pub open spec fn interview_prompt_for(
    agent: AgentView,
    topic: Seq<char>,
    question: Seq<char>,
) -> PromptView {
    PromptView {
        system: INTERVIEWEE@,
        user: "Topic: "@ + topic + "\n\n"@ + belief(agent) + "\n\nOpen point:\n"@ + question
            + "\n\nWrite your answer."@,
        json: false,
    }
}

/// The prompt for an agent's answer to an open point.
pub fn interview_prompt(agent: &DebateAgent, topic: &str, question: &str) -> (r: Prompt)
    ensures
        r.says(interview_prompt_for(agent@, topic@, question@)),
{
    let mut user = "Topic: ".to_owned();
    user.append(topic);
    user.append("\n\n");
    user.append(belief_of(agent).as_str());
    user.append("\n\nOpen point:\n");
    user.append(question);
    user.append("\n\nWrite your answer.");
    Prompt::new(INTERVIEWEE, user.as_str(), false)
}

// ── replies ─────────────────────────────────────────────────────────

/// The members of the JSON object in a reply, which may be fenced.
pub open spec fn reply_members(raw: Seq<char>) -> Option<Seq<(Seq<char>, MemberView)>> {
    match json::json_members(words::trim(raw)) {
        Some(members) => Some(members),
        None => json::json_members(fence::unfenced(raw)),
    }
}

fn members_of(raw: &str) -> (r: Option<Vec<Entry>>)
    ensures
        match r {
            Some(entries) => reply_members(raw@) == Some(text::views(entries@)),
            None => reply_members(raw@) is None,
        },
{
    match json::read_json(words::trimmed(raw).as_str()) {
        Ok(entries) => Some(entries),
        Err(_) => match json::read_json(fence::unfence(raw).as_str()) {
            Ok(entries) => Some(entries),
            Err(_) => None,
        },
    }
}

/// What an agent's reply says of its belief, in JSON notation; what it leaves out stays.
#[derive(Debug)]
pub struct Belief {
    pub position: Option<String>,
    pub confidence: Option<String>,
}

/// A belief with its numbers as sequences of characters.
pub struct BeliefView {
    pub position: Option<Seq<char>>,
    pub confidence: Option<Seq<char>>,
}

impl View for Belief {
    type V = BeliefView;

    open spec fn view(&self) -> BeliefView {
        BeliefView {
            position: text::option_view(self.position),
            confidence: text::option_view(self.confidence),
        }
    }
}

/// The belief in the members of a reply.
pub open spec fn belief_in(members: Seq<(Seq<char>, MemberView)>) -> BeliefView {
    BeliefView {
        position: json::number_at(members, "position"@),
        confidence: json::number_at(members, "confidence"@),
    }
}

/// The belief in the members of a reply.
pub fn belief_from(entries: &Vec<Entry>) -> (r: Belief)
    ensures
        r@ == belief_in(text::views(entries@)),
{
    Belief {
        position: json::number(entries, "position"),
        confidence: json::number(entries, "confidence"),
    }
}

/// The belief in a reply.
pub fn read_belief(raw: &str) -> (r: Result<Belief, String>)
    ensures
        match reply_members(raw@) {
            Some(members) => r matches Ok(belief) && belief@ == belief_in(members),
            None => r matches Err(message) && message@ == "parse belief update JSON"@,
        },
{
    match members_of(raw) {
        Some(entries) => Ok(belief_from(&entries)),
        None => Err("parse belief update JSON".to_owned()),
    }
}

/// What the agents agree and disagree on.
#[derive(Debug)]
pub struct Agreement {
    pub consensus_points: Vec<String>,
    pub dissensus_points: Vec<String>,
}

/// What the agents agree and disagree on, as its view.
pub struct AgreementView {
    pub consensus_points: Seq<Seq<char>>,
    pub dissensus_points: Seq<Seq<char>>,
}

impl View for Agreement {
    type V = AgreementView;

    open spec fn view(&self) -> AgreementView {
        AgreementView {
            consensus_points: text::views(self.consensus_points@),
            dissensus_points: text::views(self.dissensus_points@),
        }
    }
}

/// The points in the members of the moderator's reply.
pub open spec fn points_in(members: Seq<(Seq<char>, MemberView)>) -> AgreementView {
    AgreementView {
        consensus_points: json::strings_at(members, "consensus_points"@),
        dissensus_points: json::strings_at(members, "dissensus_points"@),
    }
}

/// The points in the members of the moderator's reply.
pub fn points_from(entries: &Vec<Entry>) -> (r: Agreement)
    ensures
        r@ == points_in(text::views(entries@)),
{
    Agreement {
        consensus_points: json::strings(entries, "consensus_points"),
        dissensus_points: json::strings(entries, "dissensus_points"),
    }
}

/// The points in the moderator's reply.
pub fn read_agreement(raw: &str) -> (r: Result<Agreement, String>)
    ensures
        match reply_members(raw@) {
            Some(members) => r matches Ok(points) && points@ == points_in(members),
            None => r matches Err(message) && message@ == "parse consensus JSON"@,
        },
{
    match members_of(raw) {
        Some(entries) => Ok(points_from(&entries)),
        None => Err("parse consensus JSON".to_owned()),
    }
}

// ── the outcome ─────────────────────────────────────────────────────

/// Where an agent stands.
pub open spec fn position_of(agent: AgentView) -> PositionView {
    PositionView { agent: agent.name, position: agent.position, confidence: agent.confidence }
}

/// Where the agents stand.
pub open spec fn positions_of(agents: Seq<AgentView>) -> Seq<PositionView> {
    agents.map_values(|agent: AgentView| position_of(agent))
}

/// Where the agents stand.
pub fn final_positions(agents: &Vec<DebateAgent>) -> (r: Vec<AgentPosition>)
    ensures
        text::views(r@) == positions_of(text::views(agents@)),
{
    let ghost wanted = positions_of(text::views(agents@));
    let mut out: Vec<AgentPosition> = Vec::new();
    for i in 0..agents.len()
        invariant
            wanted == positions_of(text::views(agents@)),
            text::views(out@) == wanted.take(i as int),
    {
        let position = AgentPosition {
            agent: agents[i].name.clone(),
            position: agents[i].position.clone(),
            confidence: agents[i].confidence.clone(),
        };
        let ghost before = out@;
        out.push(position);
        proof {
            assert(wanted[i as int] == position@);
            assert(text::views(out@) =~= text::views(before).push(position@));
            assert(wanted.take(i + 1) =~= wanted.take(i as int).push(wanted[i as int]));
        }
    }
    assert(wanted.take(wanted.len() as int) =~= wanted);
    out
}

/// The list of positions in a summary.
pub open spec fn position_lines(positions: Seq<PositionView>) -> Seq<char>
    decreases positions.len(),
{
    if positions.len() == 0 {
        Seq::empty()
    } else {
        position_lines(positions.drop_last()) + "  - "@ + positions.last().agent + ": "@
            + positions.last().position.text + " (conf "@ + positions.last().confidence.text
            + ")\n"@
    }
}

/// The outcome in words. `near` is the number of agents close to the mean.
pub open spec fn summary_of(
    positions: Seq<PositionView>,
    mean: MeasureView,
    spread: MeasureView,
    convergence: MeasureView,
    near: nat,
) -> Seq<char> {
    "Debate concluded: mean position "@ + mean.text + ", spread "@ + spread.text
        + ", convergence "@ + convergence.text + " "@ + "("@ + number::decimal(near) + " of "@
        + number::decimal(positions.len()) + " agents are within 0.3 of the mean).\n"@
        + "Final positions:\n"@ + position_lines(positions)
}

/// The outcome in words. `near` is the number of agents within 0.3 of the mean.
pub fn build_summary(
    positions: &Vec<AgentPosition>,
    mean: &Measure,
    spread: &Measure,
    convergence: &Measure,
    near: usize,
) -> (r: String)
    ensures
        r@ == summary_of(text::views(positions@), mean@, spread@, convergence@, near as nat),
{
    let ghost all = text::views(positions@);
    let mut s = "Debate concluded: mean position ".to_owned();
    s.append(mean.text.as_str());
    s.append(", spread ");
    s.append(spread.text.as_str());
    s.append(", convergence ");
    s.append(convergence.text.as_str());
    s.append(" ");
    s.append("(");
    s.append(number::decimal_of(near as u128).as_str());
    s.append(" of ");
    s.append(number::decimal_of(positions.len() as u128).as_str());
    s.append(" agents are within 0.3 of the mean).\n");
    s.append("Final positions:\n");
    let ghost head = s@;
    assert(all.take(0) =~= Seq::<PositionView>::empty());
    assert(head + Seq::<char>::empty() =~= head);
    for i in 0..positions.len()
        invariant
            all == text::views(positions@),
            s@ == head + position_lines(all.take(i as int)),
    {
        let ghost before = s@;
        s.append("  - ");
        s.append(positions[i].agent.as_str());
        s.append(": ");
        s.append(positions[i].position.text.as_str());
        s.append(" (conf ");
        s.append(positions[i].confidence.text.as_str());
        s.append(")\n");
        proof {
            assert(all.take(i + 1).drop_last() == all.take(i as int));
            assert(all.take(i + 1).last() == positions@[i as int]@);
            assert(s@ =~= head + position_lines(all.take(i + 1)));
        }
    }
    assert(all.take(all.len() as int) == all);
    s
}

/// What a measure is compared by: bits of numbers that are not negative are ordered as the
/// numbers are; negative numbers count as zero.
pub open spec fn weight(measure: MeasureView) -> nat {
    if measure.bits >= 0x8000_0000 {
        0
    } else {
        measure.bits as nat
    }
}

/// The position of the most confident agent, that at `except` left out; of several it is the
/// first.
pub open spec fn top(agents: Seq<AgentView>, except: Option<int>) -> Option<int>
    decreases agents.len(),
{
    if agents.len() == 0 {
        None
    } else {
        let last = agents.len() - 1;
        match top(agents.drop_last(), except) {
            None => if except == Some(last) {
                None
            } else {
                Some(last)
            },
            Some(best) => if except != Some(last) && weight(agents[best].confidence) < weight(
                agents[last].confidence,
            ) {
                Some(last)
            } else {
                Some(best)
            },
        }
    }
}

fn weigh(measure: &Measure) -> (r: u32)
    ensures
        r == weight(measure@),
{
    if measure.bits >= 0x8000_0000 {
        0
    } else {
        measure.bits
    }
}

/// A position as an integer.
pub open spec fn place(i: Option<usize>) -> Option<int> {
    match i {
        Some(i) => Some(i as int),
        None => None,
    }
}

/// The position of the most confident agent, that at `except` left out; of several it is the
/// first.
pub fn most_confident(agents: &Vec<DebateAgent>, except: Option<usize>) -> (r: Option<usize>)
    ensures
        place(r) == top(text::views(agents@), place(except)),
        r matches Some(i) ==> i < agents@.len(),
{
    let ghost all = text::views(agents@);
    let mut best: Option<usize> = None;
    assert(all.take(0) =~= Seq::<AgentView>::empty());
    for i in 0..agents.len()
        invariant
            all == text::views(agents@),
            place(best) == top(all.take(i as int), place(except)),
            best matches Some(b) ==> b < i,
    {
        proof {
            assert(all.take(i + 1).drop_last() == all.take(i as int));
            assert(all.take(i + 1)[i as int] == agents@[i as int]@);
        }
        let left_out = match except {
            Some(e) => e == i,
            None => false,
        };
        best = match best {
            Some(b) => {
                assert(all.take(i + 1)[b as int] == agents@[b as int]@);
                if !left_out && weigh(&agents[b].confidence) < weigh(&agents[i].confidence) {
                    Some(i)
                } else {
                    Some(b)
                }
            },
            None => if left_out {
                None
            } else {
                Some(i)
            },
        };
    }
    assert(all.take(all.len() as int) == all);
    best
}

/// No agent but the one left out is more confident than the one that is found, and those
/// before it are less so. One is found unless none is left.
pub proof fn top_is_most_confident(agents: Seq<AgentView>, except: Option<int>)
    ensures
        match top(agents, except) {
            Some(i) => {
                &&& 0 <= i < agents.len()
                &&& except != Some(i)
                &&& forall|j: int|
                    0 <= j < agents.len() && except != Some(j) ==> weight(
                        (#[trigger] agents[j]).confidence,
                    ) <= weight(agents[i].confidence)
                &&& forall|j: int|
                    0 <= j < i && except != Some(j) ==> weight((#[trigger] agents[j]).confidence)
                        < weight(agents[i].confidence)
            },
            None => forall|j: int| 0 <= j < agents.len() ==> except == Some(j),
        },
    decreases agents.len(),
{
    if agents.len() > 0 {
        top_is_most_confident(agents.drop_last(), except);
        let rest = agents.drop_last();
        assert forall|j: int| 0 <= j < rest.len() implies #[trigger] agents[j] == rest[j] by {}
    }
}

// ── the course of a debate ──────────────────────────────────────────

/// Where a debate stands.
#[derive(Debug, Clone, Copy, PartialEq, Eq, Structural)]
pub enum DebatePoint {
    /// The agent at this position is to argue.
    Argue(usize),
    /// The agent at this position is to update its belief.
    Update(usize),
    /// The round is over: its spread is to be measured.
    Measure,
    /// The rounds are over: the outcome is to be measured.
    Conclude,
    /// The moderator is to name what is agreed on.
    Moderate,
    /// The interview with this number is to be held.
    Interview(usize),
    /// The debate is over.
    Done,
}

/// A debate under way.
#[derive(Debug)]
pub struct Debate {
    pub topic: String,
    /// The draft as the agents see it.
    pub draft: String,
    /// The list of sources.
    pub sources: String,
    /// How many rounds there are.
    pub total: usize,
    /// The number of the round under way, from 1 on.
    pub round: usize,
    pub agents: Vec<DebateAgent>,
    /// The arguments of the rounds that are over.
    pub rounds: Vec<Vec<DebateArgument>>,
    /// The arguments of the round under way.
    pub current: Vec<DebateArgument>,
    /// What the debate came to, once it is measured.
    pub outcome: Option<ConsensusSummary>,
    pub interviews: Vec<InterviewAnswer>,
    pub point: DebatePoint,
}

/// A debate under way, as its view.
pub struct CourseView {
    pub topic: Seq<char>,
    pub draft: Seq<char>,
    pub sources: Seq<char>,
    pub total: nat,
    pub round: nat,
    pub agents: Seq<AgentView>,
    pub rounds: Seq<Seq<ArgumentView>>,
    pub current: Seq<ArgumentView>,
    pub outcome: Option<ConsensusView>,
    pub interviews: Seq<AnswerView>,
    pub point: DebatePoint,
}

impl View for Debate {
    type V = CourseView;

    open spec fn view(&self) -> CourseView {
        CourseView {
            topic: self.topic@,
            draft: self.draft@,
            sources: self.sources@,
            total: self.total as nat,
            round: self.round as nat,
            agents: text::views(self.agents@),
            rounds: round_views(self.rounds@),
            current: text::views(self.current@),
            outcome: text::option_view(self.outcome),
            interviews: text::views(self.interviews@),
            point: self.point,
        }
    }
}

/// A debate at its start.
pub open spec fn opening(
    topic: Seq<char>,
    cited_draft: Seq<char>,
    items: Seq<EvidenceView>,
    rounds: nat,
) -> CourseView {
    CourseView {
        topic,
        draft: condensed(cited_draft),
        sources: source_list(items),
        total: rounds,
        round: 1,
        agents: lineup(),
        rounds: Seq::empty(),
        current: Seq::empty(),
        outcome: None,
        interviews: Seq::empty(),
        point: if rounds == 0 {
            DebatePoint::Conclude
        } else {
            DebatePoint::Argue(0)
        },
    }
}

/// What happened in a debate.
#[derive(Debug)]
pub enum DebateEvent {
    /// The agent that was asked said this.
    Said(String),
    /// The agent that was asked believes this now.
    Believed { position: Measure, confidence: Measure },
    /// The spread of the round was measured.
    Measured,
    /// The outcome was measured. `near` agents are within 0.3 of the mean.
    Concluded { mean: Measure, spread: Measure, convergence: Measure, near: usize },
    /// The moderator named the points.
    Agreed(Agreement),
}

/// What happened in a debate, as its view.
pub enum DebateEventView {
    Said(Seq<char>),
    Believed { position: MeasureView, confidence: MeasureView },
    Measured,
    Concluded { mean: MeasureView, spread: MeasureView, convergence: MeasureView, near: nat },
    Agreed(AgreementView),
}

impl View for DebateEvent {
    type V = DebateEventView;

    open spec fn view(&self) -> DebateEventView {
        match *self {
            DebateEvent::Said(text) => DebateEventView::Said(text@),
            DebateEvent::Believed { position, confidence } => DebateEventView::Believed {
                position: position@,
                confidence: confidence@,
            },
            DebateEvent::Measured => DebateEventView::Measured,
            DebateEvent::Concluded { mean, spread, convergence, near } => DebateEventView::Concluded {
                mean: mean@,
                spread: spread@,
                convergence: convergence@,
                near: near as nat,
            },
            DebateEvent::Agreed(points) => DebateEventView::Agreed(points@),
        }
    }
}

/// The agent that is interviewed in the k-th place: the most confident one, then the next.
pub open spec fn interviewee(agents: Seq<AgentView>, k: int) -> Option<int> {
    if k == 0 {
        top(agents, None)
    } else {
        match top(agents, None) {
            Some(first) => top(agents, Some(first)),
            None => None,
        }
    }
}

/// The point that the k-th interview is about.
pub open spec fn question(points: Seq<Seq<char>>, k: int) -> Seq<char> {
    points[k % points.len() as int]
}

/// The interview with number `k` takes place: there is an open point and an agent to ask.
pub open spec fn is_held(state: CourseView, k: int) -> bool {
    &&& k < INTERVIEWS
    &&& state.outcome matches Some(outcome) && outcome.dissensus_points.len() > 0
    &&& interviewee(state.agents, k) is Some
}

/// The interview with number `k`, or the end when it does not take place.
pub open spec fn interview_or_end(state: CourseView, k: int) -> DebatePoint {
    if is_held(state, k) {
        DebatePoint::Interview(k as usize)
    } else {
        DebatePoint::Done
    }
}

/// The debate after an agent argued.
pub open spec fn argued(state: CourseView, i: int, text: Seq<char>) -> CourseView {
    CourseView {
        current: state.current.push(
            ArgumentView { agent: state.agents[i].id, round: state.round, text },
        ),
        point: if i + 1 < state.agents.len() {
            DebatePoint::Argue((i + 1) as usize)
        } else {
            DebatePoint::Update(0)
        },
        ..state
    }
}

/// The debate after an agent updated its belief.
pub open spec fn updated(
    state: CourseView,
    i: int,
    position: MeasureView,
    confidence: MeasureView,
) -> CourseView {
    CourseView {
        agents: state.agents.update(i, AgentView { position, confidence, ..state.agents[i] }),
        point: if i + 1 < state.agents.len() {
            DebatePoint::Update((i + 1) as usize)
        } else {
            DebatePoint::Measure
        },
        ..state
    }
}

/// The debate after a round.
pub open spec fn round_over(state: CourseView) -> CourseView {
    CourseView {
        rounds: state.rounds.push(state.current),
        current: Seq::empty(),
        round: if state.round < state.total {
            state.round + 1
        } else {
            state.round
        },
        point: if state.round < state.total {
            DebatePoint::Argue(0)
        } else {
            DebatePoint::Conclude
        },
        ..state
    }
}

/// The debate after its outcome was measured.
pub open spec fn concluded(
    state: CourseView,
    mean: MeasureView,
    spread: MeasureView,
    convergence: MeasureView,
    near: nat,
) -> CourseView {
    let positions = positions_of(state.agents);
    CourseView {
        outcome: Some(
            ConsensusView {
                final_positions: positions,
                mean_position: mean,
                spread,
                convergence,
                consensus_points: Seq::empty(),
                dissensus_points: Seq::empty(),
                summary: summary_of(positions, mean, spread, convergence, near),
            },
        ),
        point: DebatePoint::Moderate,
        ..state
    }
}

/// The debate after the moderator spoke.
pub open spec fn moderated(state: CourseView, points: AgreementView) -> CourseView {
    match state.outcome {
        Some(outcome) => {
            let next = CourseView {
                outcome: Some(
                    ConsensusView {
                        consensus_points: points.consensus_points,
                        dissensus_points: points.dissensus_points,
                        ..outcome
                    },
                ),
                ..state
            };
            CourseView { point: interview_or_end(next, 0), ..next }
        },
        None => state,
    }
}

/// The debate after an interview.
pub open spec fn interviewed(state: CourseView, k: int, answer: Seq<char>) -> CourseView {
    let outcome = state.outcome->0;
    let next = CourseView {
        interviews: state.interviews.push(
            AnswerView {
                agent: state.agents[interviewee(state.agents, k)->0].name,
                question: question(outcome.dissensus_points, k),
                answer,
            },
        ),
        ..state
    };
    CourseView { point: interview_or_end(next, k + 1), ..next }
}

/// The debate after an event. One that does not fit changes nothing.
pub open spec fn debate_step(state: CourseView, event: DebateEventView) -> CourseView {
    match (state.point, event) {
        (DebatePoint::Argue(i), DebateEventView::Said(text)) => if i < state.agents.len() {
            argued(state, i as int, text)
        } else {
            state
        },
        (DebatePoint::Update(i), DebateEventView::Believed { position, confidence }) => if i
            < state.agents.len() {
            updated(state, i as int, position, confidence)
        } else {
            state
        },
        (DebatePoint::Measure, DebateEventView::Measured) => round_over(state),
        (
            DebatePoint::Conclude,
            DebateEventView::Concluded { mean, spread, convergence, near },
        ) => concluded(state, mean, spread, convergence, near),
        (DebatePoint::Moderate, DebateEventView::Agreed(points)) => moderated(state, points),
        (DebatePoint::Interview(k), DebateEventView::Said(answer)) => if is_held(state, k as int) {
            interviewed(state, k as int, answer)
        } else {
            state
        },
        _ => state,
    }
}

/// What a debate needs next.
#[derive(Debug)]
pub enum DebateAction {
    /// An argument.
    Argue(Prompt),
    /// A new belief.
    Update(Prompt),
    /// The spread of the round.
    Measure,
    /// The outcome.
    Conclude,
    /// The points that are agreed on or not.
    Moderate(Prompt),
    /// An answer.
    Interview(Prompt),
    /// Nothing more.
    Finish,
}

/// What a debate needs next, as its view.
pub enum DebateActionView {
    Argue(PromptView),
    Update(PromptView),
    Measure,
    Conclude,
    Moderate(PromptView),
    Interview(PromptView),
    Finish,
}

impl DebateAction {
    /// The action is the one described.
    pub open spec fn is(self, view: DebateActionView) -> bool {
        match (self, view) {
            (DebateAction::Argue(prompt), DebateActionView::Argue(said)) => prompt.says(said),
            (DebateAction::Update(prompt), DebateActionView::Update(said)) => prompt.says(said),
            (DebateAction::Measure, DebateActionView::Measure) => true,
            (DebateAction::Conclude, DebateActionView::Conclude) => true,
            (DebateAction::Moderate(prompt), DebateActionView::Moderate(said)) => prompt.says(said),
            (DebateAction::Interview(prompt), DebateActionView::Interview(said)) => prompt.says(
                said,
            ),
            (DebateAction::Finish, DebateActionView::Finish) => true,
            _ => false,
        }
    }
}

/// What a debate needs next.
pub open spec fn debate_needs(state: CourseView) -> DebateActionView {
    match state.point {
        DebatePoint::Argue(i) => if i < state.agents.len() {
            DebateActionView::Argue(
                argument_prompt_for(
                    state.agents[i as int],
                    state.topic,
                    state.draft,
                    state.sources,
                ),
            )
        } else {
            DebateActionView::Finish
        },
        DebatePoint::Update(i) => if i < state.agents.len() {
            DebateActionView::Update(update_prompt_for(state.agents[i as int], state.current))
        } else {
            DebateActionView::Finish
        },
        DebatePoint::Measure => DebateActionView::Measure,
        DebatePoint::Conclude => DebateActionView::Conclude,
        DebatePoint::Moderate => DebateActionView::Moderate(
            moderator_prompt_for(state.topic, positions_of(state.agents), state.rounds),
        ),
        DebatePoint::Interview(k) => if is_held(state, k as int) {
            DebateActionView::Interview(
                interview_prompt_for(
                    state.agents[interviewee(state.agents, k as int)->0],
                    state.topic,
                    question((state.outcome->0).dissensus_points, k as int),
                ),
            )
        } else {
            DebateActionView::Finish
        },
        DebatePoint::Done => DebateActionView::Finish,
    }
}

/// The agent to ask and the question, when the interview takes place.
fn interview(
    agents: &Vec<DebateAgent>,
    outcome: &Option<ConsensusSummary>,
    k: usize,
) -> (r: Option<(usize, String)>)
    ensures
        ({
            let all = text::views(agents@);
            let held = k < INTERVIEWS && (outcome matches Some(found)
                && found.dissensus_points@.len() > 0) && interviewee(all, k as int) is Some;
            match r {
                Some(found) => {
                    &&& held
                    &&& found.0 < agents@.len()
                    &&& interviewee(all, k as int) == Some(found.0 as int)
                    &&& found.1@ == question(
                        text::views((outcome->0).dissensus_points@),
                        k as int,
                    )
                },
                None => !held,
            }
        }),
{
    if k >= INTERVIEWS {
        return None;
    }
    let first = most_confident(agents, None);
    let who = if k == 0 {
        first
    } else {
        match first {
            Some(first) => most_confident(agents, Some(first)),
            None => None,
        }
    };
    match (who, outcome) {
        (Some(who), Some(outcome)) => if outcome.dissensus_points.len() > 0 {
            let points: usize = outcome.dissensus_points.len();
            let at: usize = k % points;
            Some((who, outcome.dissensus_points[at].clone()))
        } else {
            None
        },
        _ => None,
    }
}

impl Debate {
    /// A debate on a cited draft, at its start.
    pub fn open(topic: &str, cited_draft: &str, items: &[EvidenceItem], rounds: usize) -> (r: Debate)
        ensures
            r@ == opening(topic@, cited_draft@, text::views(items@), rounds as nat),
    {
        let r = Debate {
            topic: topic.to_owned(),
            draft: condense_draft(cited_draft),
            sources: build_source_list(items),
            total: rounds,
            round: 1,
            agents: initial_agents(),
            rounds: Vec::new(),
            current: Vec::new(),
            outcome: None,
            interviews: Vec::new(),
            point: if rounds == 0 {
                DebatePoint::Conclude
            } else {
                DebatePoint::Argue(0)
            },
        };
        assert(r@.rounds =~= Seq::<Seq<ArgumentView>>::empty());
        assert(r@.current =~= Seq::<ArgumentView>::empty());
        assert(r@.interviews =~= Seq::<AnswerView>::empty());
        r
    }

    /// What the debate needs next.
    pub fn needs(&self) -> (r: DebateAction)
        ensures
            r.is(debate_needs(self@)),
    {
        match self.point {
            DebatePoint::Argue(i) => if i < self.agents.len() {
                assert(self@.agents[i as int] == self.agents@[i as int]@);
                DebateAction::Argue(
                    argument_prompt(
                        &self.agents[i],
                        self.topic.as_str(),
                        self.draft.as_str(),
                        self.sources.as_str(),
                    ),
                )
            } else {
                DebateAction::Finish
            },
            DebatePoint::Update(i) => if i < self.agents.len() {
                assert(self@.agents[i as int] == self.agents@[i as int]@);
                DebateAction::Update(update_prompt(&self.agents[i], &self.current))
            } else {
                DebateAction::Finish
            },
            DebatePoint::Measure => DebateAction::Measure,
            DebatePoint::Conclude => DebateAction::Conclude,
            DebatePoint::Moderate => {
                let positions = final_positions(&self.agents);
                DebateAction::Moderate(
                    moderator_prompt(self.topic.as_str(), &positions, &self.rounds),
                )
            },
            DebatePoint::Interview(k) => match interview(&self.agents, &self.outcome, k) {
                Some(found) => {
                    assert(self@.agents[found.0 as int] == self.agents@[found.0 as int]@);
                    DebateAction::Interview(
                        interview_prompt(
                            &self.agents[found.0],
                            self.topic.as_str(),
                            found.1.as_str(),
                        ),
                    )
                },
                None => DebateAction::Finish,
            },
            DebatePoint::Done => DebateAction::Finish,
        }
    }

    fn argue(&mut self, i: usize, text: String)
        requires
            i < old(self)@.agents.len(),
        ensures
            final(self)@ == argued(old(self)@, i as int, text@),
    {
        let ghost before = self@;
        let count: usize = self.agents.len();
        assert(self@.agents[i as int] == self.agents@[i as int]@);
        let argument = DebateArgument { agent: self.agents[i].id.clone(), round: self.round, text };
        self.current.push(argument);
        assert(self@.current =~= before.current.push(argument@));
        self.point = if i + 1 < count {
            DebatePoint::Argue(i + 1)
        } else {
            DebatePoint::Update(0)
        };
    }

    fn update(&mut self, i: usize, position: Measure, confidence: Measure)
        requires
            i < old(self)@.agents.len(),
        ensures
            final(self)@ == updated(old(self)@, i as int, position@, confidence@),
    {
        let ghost before = self@;
        let count: usize = self.agents.len();
        assert(self@.agents[i as int] == self.agents@[i as int]@);
        let next = DebateAgent {
            id: self.agents[i].id.clone(),
            name: self.agents[i].name.clone(),
            stance: self.agents[i].stance.clone(),
            position,
            confidence,
        };
        self.agents[i] = next;
        assert(self@.agents =~= before.agents.update(i as int, next@));
        self.point = if i + 1 < count {
            DebatePoint::Update(i + 1)
        } else {
            DebatePoint::Measure
        };
    }

    fn end_round(&mut self)
        ensures
            final(self)@ == round_over(old(self)@),
    {
        let ghost before = self@;
        let mut over: Vec<DebateArgument> = Vec::new();
        std::mem::swap(&mut over, &mut self.current);
        self.rounds.push(over);
        proof {
            assert(self@.rounds =~= before.rounds.push(before.current));
            assert(self@.current =~= Seq::<ArgumentView>::empty());
        }
        if self.round < self.total {
            self.round = self.round + 1;
            self.point = DebatePoint::Argue(0);
        } else {
            self.point = DebatePoint::Conclude;
        }
    }

    fn conclude(&mut self, mean: Measure, spread: Measure, convergence: Measure, near: usize)
        ensures
            final(self)@ == concluded(old(self)@, mean@, spread@, convergence@, near as nat),
    {
        let positions = final_positions(&self.agents);
        let summary = build_summary(&positions, &mean, &spread, &convergence, near);
        let outcome = ConsensusSummary {
            final_positions: positions,
            mean_position: mean,
            spread,
            convergence,
            consensus_points: Vec::new(),
            dissensus_points: Vec::new(),
            summary,
        };
        assert(outcome@.consensus_points =~= Seq::<Seq<char>>::empty());
        assert(outcome@.dissensus_points =~= Seq::<Seq<char>>::empty());
        self.outcome = Some(outcome);
        self.point = DebatePoint::Moderate;
    }

    fn moderate(&mut self, points: Agreement)
        ensures
            final(self)@ == moderated(old(self)@, points@),
    {
        let mut held: Option<ConsensusSummary> = None;
        std::mem::swap(&mut held, &mut self.outcome);
        if let Some(outcome) = held {
            self.outcome = Some(
                ConsensusSummary {
                    consensus_points: points.consensus_points,
                    dissensus_points: points.dissensus_points,
                    ..outcome
                },
            );
            self.point = if interview(&self.agents, &self.outcome, 0).is_some() {
                DebatePoint::Interview(0)
            } else {
                DebatePoint::Done
            };
        }
    }

    fn hold_interview(&mut self, k: usize, answer: String)
        ensures
            final(self)@ == if is_held(old(self)@, k as int) {
                interviewed(old(self)@, k as int, answer@)
            } else {
                old(self)@
            },
    {
        let ghost before = self@;
        if let Some(found) = interview(&self.agents, &self.outcome, k) {
            assert(self@.agents[found.0 as int] == self.agents@[found.0 as int]@);
            let entry = InterviewAnswer {
                agent: self.agents[found.0].name.clone(),
                question: found.1,
                answer,
            };
            self.interviews.push(entry);
            assert(self@.interviews =~= before.interviews.push(entry@));
            self.point = if interview(&self.agents, &self.outcome, k + 1).is_some() {
                DebatePoint::Interview(k + 1)
            } else {
                DebatePoint::Done
            };
        }
    }

    /// Take in what happened. An event that does not fit changes nothing.
    pub fn step(&mut self, event: DebateEvent)
        ensures
            final(self)@ == debate_step(old(self)@, event@),
    {
        match (self.point, event) {
            (DebatePoint::Argue(i), DebateEvent::Said(text)) => {
                if i < self.agents.len() {
                    self.argue(i, text);
                }
            },
            (DebatePoint::Update(i), DebateEvent::Believed { position, confidence }) => {
                if i < self.agents.len() {
                    self.update(i, position, confidence);
                }
            },
            (DebatePoint::Measure, DebateEvent::Measured) => self.end_round(),
            (
                DebatePoint::Conclude,
                DebateEvent::Concluded { mean, spread, convergence, near },
            ) => self.conclude(mean, spread, convergence, near),
            (DebatePoint::Moderate, DebateEvent::Agreed(points)) => self.moderate(points),
            (DebatePoint::Interview(k), DebateEvent::Said(answer)) => self.hold_interview(k, answer),
            _ => {},
        }
    }

    /// The debate from its start to its end, once its outcome is there.
    pub fn finish(self) -> (r: Option<DebateResult>)
        ensures
            match self@.outcome {
                Some(outcome) => r matches Some(result) && result@ == (DebateView {
                    agents: self@.agents,
                    rounds: self@.rounds,
                    consensus: outcome,
                    interviews: self@.interviews,
                }),
                None => r is None,
            },
    {
        match self.outcome {
            Some(consensus) => Some(
                DebateResult {
                    agents: self.agents,
                    rounds: self.rounds,
                    consensus,
                    interviews: self.interviews,
                },
            ),
            None => None,
        }
    }
}

// ── laws ────────────────────────────────────────────────────────────

/// Who the agents are does not change.
pub open spec fn same_agents(agents: Seq<AgentView>) -> bool {
    &&& agents.len() == DEFAULT_AGENT_COUNT
    &&& forall|i: int|
        0 <= i < agents.len() ==> (#[trigger] agents[i]).id == lineup()[i].id && agents[i].name
            == lineup()[i].name && agents[i].stance == lineup()[i].stance
}

/// The arguments of round `n` so far are those of the first agents, in their order.
pub open spec fn is_round(arguments: Seq<ArgumentView>, n: nat) -> bool {
    forall|i: int|
        0 <= i < arguments.len() ==> (#[trigger] arguments[i]).agent == lineup()[i].id
            && arguments[i].round == n
}

/// In every round that is over each agent argued once.
pub open spec fn full_rounds(rounds: Seq<Seq<ArgumentView>>) -> bool {
    forall|r: int|
        0 <= r < rounds.len() ==> (#[trigger] rounds[r]).len() == DEFAULT_AGENT_COUNT && is_round(
            rounds[r],
            (r + 1) as nat,
        )
}

/// A debate that goes its course.
pub open spec fn in_course(state: CourseView) -> bool {
    &&& same_agents(state.agents)
    &&& full_rounds(state.rounds)
    &&& is_round(state.current, state.round)
    &&& match state.point {
        DebatePoint::Argue(i) => state.current.len() == i < DEFAULT_AGENT_COUNT,
        DebatePoint::Update(i) => i < DEFAULT_AGENT_COUNT && state.current.len()
            == DEFAULT_AGENT_COUNT,
        DebatePoint::Measure => state.current.len() == DEFAULT_AGENT_COUNT,
        _ => state.current.len() == 0,
    }
    &&& match state.point {
        DebatePoint::Argue(_) | DebatePoint::Update(_) | DebatePoint::Measure => 1 <= state.round
            <= state.total && state.rounds.len() + 1 == state.round,
        _ => state.rounds.len() == state.total,
    }
    &&& match state.point {
        DebatePoint::Moderate => state.outcome is Some && state.interviews.len() == 0,
        DebatePoint::Interview(k) => is_held(state, k as int) && state.interviews.len() == k,
        DebatePoint::Done => state.outcome is Some && state.interviews.len() <= INTERVIEWS,
        _ => state.interviews.len() == 0,
    }
}

/// A debate starts on its course, whatever it is about and however many rounds it has.
pub proof fn debates_start_in_course(
    topic: Seq<char>,
    cited_draft: Seq<char>,
    items: Seq<EvidenceView>,
    rounds: nat,
)
    ensures
        in_course(opening(topic, cited_draft, items, rounds)),
{
}

/// Whatever happens, a debate stays on its course: in every round each of the agents argues
/// once and in order, before any of them updates its belief; the agents stay who they are; it
/// ends when all rounds are over, with an outcome and at most so many interviews.
pub proof fn debates_stay_in_course(state: CourseView, event: DebateEventView)
    requires
        in_course(state),
    ensures
        in_course(debate_step(state, event)),
{
    let next = debate_step(state, event);
    match (state.point, event) {
        (DebatePoint::Measure, DebateEventView::Measured) => {
            assert(full_rounds(next.rounds));
        },
        (DebatePoint::Update(i), DebateEventView::Believed { position, confidence }) => {
            assert(same_agents(next.agents));
        },
        (DebatePoint::Moderate, DebateEventView::Agreed(points)) => {
            assert(in_course(next));
        },
        (DebatePoint::Interview(k), DebateEventView::Said(answer)) => {
            assert(in_course(next));
        },
        _ => {},
    }
}

/// The event is what the point waits for.
pub open spec fn answers(point: DebatePoint, event: DebateEventView) -> bool {
    match point {
        DebatePoint::Argue(_) | DebatePoint::Interview(_) => event is Said,
        DebatePoint::Update(_) => event is Believed,
        DebatePoint::Measure => event is Measured,
        DebatePoint::Conclude => event is Concluded,
        DebatePoint::Moderate => event is Agreed,
        DebatePoint::Done => false,
    }
}

/// How many events a debate waits for at most.
pub open spec fn events_left(state: CourseView) -> int {
    let agents = DEFAULT_AGENT_COUNT as int;
    let end = INTERVIEWS + 2;
    let later = (state.total - state.round) * (2 * DEFAULT_AGENT_COUNT + 1);
    match state.point {
        DebatePoint::Argue(i) => later + (agents - i) + agents + 1 + end,
        DebatePoint::Update(i) => later + (agents - i) + 1 + end,
        DebatePoint::Measure => later + 1 + end,
        DebatePoint::Conclude => end,
        DebatePoint::Moderate => end - 1,
        DebatePoint::Interview(k) => INTERVIEWS - k,
        DebatePoint::Done => 0,
    }
}

/// Every debate ends: each event that it waits for brings it nearer to its end, no other
/// changes it, and it waits for none only once it is over.
pub proof fn debates_end(state: CourseView, event: DebateEventView)
    requires
        in_course(state),
    ensures
        events_left(state) >= 0,
        events_left(state) == 0 <==> state.point == DebatePoint::Done,
        answers(state.point, event) ==> events_left(debate_step(state, event)) < events_left(state),
        !answers(state.point, event) ==> debate_step(state, event) == state,
{
}

/// An interview is held only on a point that the agents disagree on, and by one of them; the
/// second is held by another agent than the first.
pub proof fn interviews_are_on_open_points(state: CourseView, k: int, answer: Seq<char>)
    requires
        is_held(state, k),
        k >= 0,
    ensures
        ({
            let entry = interviewed(state, k, answer).interviews.last();
            &&& (state.outcome->0).dissensus_points.contains(entry.question)
            &&& entry.answer == answer
            &&& exists|i: int|
                0 <= i < state.agents.len() && (#[trigger] state.agents[i]).name == entry.agent
        }),
        k > 0 ==> interviewee(state.agents, k) != interviewee(state.agents, 0),
{
    let points = (state.outcome->0).dissensus_points;
    let at = k % points.len() as int;
    assert(0 <= at < points.len());
    assert(points[at] == question(points, k));
    top_is_most_confident(state.agents, None);
    if let Some(first) = top(state.agents, None) {
        top_is_most_confident(state.agents, Some(first));
    }
    let who = interviewee(state.agents, k)->0;
    assert(state.agents[who].name == interviewed(state, k, answer).interviews.last().agent);
}

/// Where nothing is left open, no one is interviewed.
pub proof fn no_open_point_no_interview(state: CourseView, points: AgreementView)
    requires
        state.outcome is Some,
        points.dissensus_points.len() == 0,
    ensures
        moderated(state, points).point == DebatePoint::Done,
        moderated(state, points).interviews == state.interviews,
{
}

// ── what is said is what is read ────────────────────────────────────

/// What an agent says is recorded as it was said, under the agent's name and the number of
/// the round, behind what was said before it; nothing else of the debate changes but the
/// place where it stands.
pub proof fn arguments_are_recorded(state: CourseView, i: usize, text: Seq<char>)
    requires
        state.point == DebatePoint::Argue(i),
        i < state.agents.len(),
    ensures
        ({
            let next = debate_step(state, DebateEventView::Said(text));
            &&& next.current.len() == state.current.len() + 1
            &&& next.current.drop_last() == state.current
            &&& next.current.last().text == text
            &&& next.current.last().agent == state.agents[i as int].id
            &&& next.current.last().round == state.round
            &&& next.agents == state.agents
            &&& next.rounds == state.rounds
            &&& next.round == state.round
            &&& next.topic == state.topic && next.draft == state.draft && next.sources
                == state.sources && next.total == state.total
            &&& next.outcome == state.outcome && next.interviews == state.interviews
        }),
{
    let next = debate_step(state, DebateEventView::Said(text));
    assert(next.current.drop_last() =~= state.current);
}

/// The debate after several events.
pub open spec fn all_stepped(state: CourseView, events: Seq<DebateEventView>) -> CourseView
    decreases events.len(),
{
    if events.len() == 0 {
        state
    } else {
        debate_step(all_stepped(state, events.drop_last()), events.last())
    }
}

/// The events of agents that say these things one after the other.
pub open spec fn sayings(texts: Seq<Seq<char>>) -> Seq<DebateEventView> {
    texts.map_values(|text: Seq<char>| DebateEventView::Said(text))
}

/// The events of agents that come to these beliefs one after the other.
pub open spec fn believings(beliefs: Seq<(MeasureView, MeasureView)>) -> Seq<DebateEventView> {
    beliefs.map_values(
        |belief: (MeasureView, MeasureView)|
            DebateEventView::Believed { position: belief.0, confidence: belief.1 },
    )
}

/// While the agents argue, what each of them said stands under its name, in their order.
pub proof fn agents_argue_in_turn(state: CourseView, texts: Seq<Seq<char>>)
    requires
        in_course(state),
        state.point == DebatePoint::Argue(0),
        texts.len() <= DEFAULT_AGENT_COUNT,
    ensures
        ({
            let after = all_stepped(state, sayings(texts));
            &&& in_course(after)
            &&& after.point == if texts.len() < DEFAULT_AGENT_COUNT {
                DebatePoint::Argue(texts.len() as usize)
            } else {
                DebatePoint::Update(0)
            }
            &&& after.current.len() == texts.len()
            &&& forall|i: int|
                0 <= i < texts.len() ==> (#[trigger] after.current[i]).text == texts[i]
                    && after.current[i].agent == state.agents[i].id && after.current[i].round
                    == state.round
            &&& after.agents == state.agents
            &&& after.rounds == state.rounds
            &&& after.round == state.round
            &&& after.total == state.total
        }),
    decreases texts.len(),
{
    let events = sayings(texts);
    if texts.len() > 0 {
        let earlier = texts.drop_last();
        agents_argue_in_turn(state, earlier);
        assert(events.drop_last() =~= sayings(earlier));
        let before = all_stepped(state, sayings(earlier));
        let k = earlier.len() as usize;
        assert(before.point == DebatePoint::Argue(k));
        arguments_are_recorded(before, k, texts.last());
        debates_stay_in_course(before, DebateEventView::Said(texts.last()));
        let after = all_stepped(state, events);
        assert(after == debate_step(before, DebateEventView::Said(texts.last())));
        assert forall|i: int| 0 <= i < texts.len() implies (#[trigger] after.current[i]).text
            == texts[i] && after.current[i].agent == state.agents[i].id && after.current[i].round
            == state.round by {
            if i < earlier.len() {
                assert(after.current[i] == after.current.drop_last()[i]);
                assert(earlier[i] == texts[i]);
            } else {
                assert(after.current[i] == after.current.last());
            }
        }
    }
}

/// An agent that has read the arguments holds the belief it came to from then on, and stays
/// who it was; no other agent changes, and nothing that was said.
pub proof fn beliefs_are_recorded(
    state: CourseView,
    i: usize,
    position: MeasureView,
    confidence: MeasureView,
)
    requires
        state.point == DebatePoint::Update(i),
        i < state.agents.len(),
    ensures
        ({
            let next = debate_step(state, DebateEventView::Believed { position, confidence });
            &&& next.agents.len() == state.agents.len()
            &&& next.agents[i as int].position == position
            &&& next.agents[i as int].confidence == confidence
            &&& next.agents[i as int].id == state.agents[i as int].id
            &&& next.agents[i as int].name == state.agents[i as int].name
            &&& next.agents[i as int].stance == state.agents[i as int].stance
            &&& forall|j: int|
                0 <= j < state.agents.len() && j != i ==> #[trigger] next.agents[j]
                    == state.agents[j]
            &&& next.current == state.current
            &&& next.rounds == state.rounds
            &&& next.round == state.round && next.total == state.total
            &&& next.topic == state.topic && next.draft == state.draft && next.sources
                == state.sources
            &&& next.outcome == state.outcome && next.interviews == state.interviews
        }),
{
}

/// While the agents update their beliefs, each holds what it came to.
pub proof fn agents_update_in_turn(
    state: CourseView,
    beliefs: Seq<(MeasureView, MeasureView)>,
)
    requires
        in_course(state),
        state.point == DebatePoint::Update(0),
        beliefs.len() <= DEFAULT_AGENT_COUNT,
    ensures
        ({
            let after = all_stepped(state, believings(beliefs));
            &&& in_course(after)
            &&& after.point == if beliefs.len() < DEFAULT_AGENT_COUNT {
                DebatePoint::Update(beliefs.len() as usize)
            } else {
                DebatePoint::Measure
            }
            &&& forall|i: int|
                0 <= i < beliefs.len() ==> (#[trigger] after.agents[i]).position == beliefs[i].0
                    && after.agents[i].confidence == beliefs[i].1
            &&& forall|i: int|
                beliefs.len() <= i < DEFAULT_AGENT_COUNT ==> #[trigger] after.agents[i]
                    == state.agents[i]
            &&& after.current == state.current
            &&& after.rounds == state.rounds
            &&& after.round == state.round
            &&& after.total == state.total
        }),
    decreases beliefs.len(),
{
    let events = believings(beliefs);
    if beliefs.len() > 0 {
        let earlier = beliefs.drop_last();
        agents_update_in_turn(state, earlier);
        assert(events.drop_last() =~= believings(earlier));
        let before = all_stepped(state, believings(earlier));
        let k = earlier.len() as usize;
        let event = DebateEventView::Believed {
            position: beliefs.last().0,
            confidence: beliefs.last().1,
        };
        assert(before.point == DebatePoint::Update(k));
        beliefs_are_recorded(before, k, beliefs.last().0, beliefs.last().1);
        debates_stay_in_course(before, event);
        let after = all_stepped(state, events);
        assert(after == debate_step(before, event));
        assert forall|i: int| 0 <= i < beliefs.len() implies (#[trigger] after.agents[i]).position
            == beliefs[i].0 && after.agents[i].confidence == beliefs[i].1 by {
            if i < earlier.len() {
                assert(after.agents[i] == before.agents[i]);
                assert(earlier[i] == beliefs[i]);
            }
        }
    }
}

/// A round that is over is kept as it was held: behind the earlier rounds stands one more, in
/// which the i-th argument is what the i-th agent said in it, and each agent believes what it
/// came to in it. After the last round the outcome is measured; after any other the next one
/// begins.
pub proof fn rounds_are_kept(
    state: CourseView,
    texts: Seq<Seq<char>>,
    beliefs: Seq<(MeasureView, MeasureView)>,
)
    requires
        in_course(state),
        state.point == DebatePoint::Argue(0),
        texts.len() == DEFAULT_AGENT_COUNT,
        beliefs.len() == DEFAULT_AGENT_COUNT,
    ensures
        ({
            let argued = all_stepped(state, sayings(texts));
            let updated = all_stepped(argued, believings(beliefs));
            let after = debate_step(updated, DebateEventView::Measured);
            &&& in_course(after)
            &&& after.rounds.drop_last() == state.rounds
            &&& after.rounds.len() == state.rounds.len() + 1
            &&& after.rounds.last().len() == DEFAULT_AGENT_COUNT
            &&& forall|i: int|
                0 <= i < DEFAULT_AGENT_COUNT ==> (#[trigger] after.rounds.last()[i]).text
                    == texts[i] && after.rounds.last()[i].agent == state.agents[i].id
                    && after.rounds.last()[i].round == state.round
            &&& forall|i: int|
                0 <= i < DEFAULT_AGENT_COUNT ==> (#[trigger] after.agents[i]).position
                    == beliefs[i].0 && after.agents[i].confidence == beliefs[i].1
            &&& state.round < state.total ==> after.point == DebatePoint::Argue(0) && after.round
                == state.round + 1
            &&& state.round == state.total ==> after.point == DebatePoint::Conclude
            &&& after.current.len() == 0
        }),
{
    agents_argue_in_turn(state, texts);
    let argued = all_stepped(state, sayings(texts));
    agents_update_in_turn(argued, beliefs);
    let updated = all_stepped(argued, believings(beliefs));
    debates_stay_in_course(updated, DebateEventView::Measured);
    let after = debate_step(updated, DebateEventView::Measured);
    assert(after.rounds.drop_last() =~= state.rounds);
    assert forall|i: int| 0 <= i < DEFAULT_AGENT_COUNT implies (
    #[trigger] after.rounds.last()[i]).text == texts[i] && after.rounds.last()[i].agent
        == state.agents[i].id && after.rounds.last()[i].round == state.round by {
        assert(after.rounds.last()[i] == argued.current[i]);
    }
}

/// Every round once over, and every interview once held, stays as it is to the end, and so
/// does what the debate is about.
pub proof fn nothing_said_is_lost(state: CourseView, event: DebateEventView)
    ensures
        ({
            let next = debate_step(state, event);
            &&& state.rounds.is_prefix_of(next.rounds)
            &&& state.interviews.is_prefix_of(next.interviews)
            &&& next.rounds == state.rounds ==> state.current.is_prefix_of(next.current)
                || next.rounds.len() > state.rounds.len() || event is Measured
            &&& next.rounds != state.rounds ==> next.rounds == state.rounds.push(state.current)
            &&& next.topic == state.topic
            &&& next.draft == state.draft
            &&& next.sources == state.sources
            &&& next.total == state.total
        }),
{
    let next = debate_step(state, event);
    assert(state.rounds.is_prefix_of(next.rounds));
    assert(state.interviews.is_prefix_of(next.interviews));
    assert(state.current.is_prefix_of(state.current));
}

/// Every agent reads what every other agent said, under that agent's name.
pub proof fn agents_read_each_other(agent: AgentView, arguments: Seq<ArgumentView>, j: int)
    requires
        0 <= j < arguments.len(),
        arguments[j].agent != agent.id,
    ensures
        text::contains(
            update_prompt_for(agent, arguments).user,
            "["@ + arguments[j].agent + "]: "@ + arguments[j].text,
        ),
{
    let keep = |argument: ArgumentView| argument.agent != agent.id;
    let read = others(arguments, agent.id);
    arguments.lemma_filter_contains(keep, j);
    let kept = arguments.filter(keep);
    let k = choose|k: int| 0 <= k < kept.len() && kept[k] == arguments[j];
    assert(read[k] == quoted(arguments[j]));
    words::joined_holds_each(read, "\n\n"@, k);
    let front = "Your current belief: position "@ + agent.position.text + ", confidence "@
        + agent.confidence.text + "\n\nArguments you read:\n"@;
    text::holds_within(
        front,
        words::joined(read, "\n\n"@),
        "\n\nOutput your updated belief JSON."@,
        read[k],
    );
}

/// What an agent itself said makes no difference to what it reads: with its own arguments
/// left out its prompt is the same.
pub proof fn agents_do_not_read_themselves(agent: AgentView, arguments: Seq<ArgumentView>)
    ensures
        update_prompt_for(agent, arguments) == update_prompt_for(
            agent,
            arguments.filter(|argument: ArgumentView| argument.agent != agent.id),
        ),
{
    let keep = |argument: ArgumentView| argument.agent != agent.id;
    filtering_twice(arguments, keep);
}

proof fn filtering_twice(arguments: Seq<ArgumentView>, keep: spec_fn(ArgumentView) -> bool)
    ensures
        arguments.filter(keep).filter(keep) == arguments.filter(keep),
    decreases arguments.len(),
{
    reveal(Seq::filter);
    if arguments.len() > 0 {
        let rest = arguments.drop_last();
        filtering_twice(rest, keep);
        if keep(arguments.last()) {
            let kept = rest.filter(keep);
            assert(kept.push(arguments.last()).drop_last() =~= kept);
        }
    }
}

/// An agent that is to update its belief is told the belief it holds.
pub proof fn agents_are_told_their_belief(agent: AgentView, arguments: Seq<ArgumentView>)
    ensures
        ({
            let prompt = update_prompt_for(agent, arguments);
            &&& text::contains(
                prompt.user,
                "position "@ + agent.position.text + ", confidence "@ + agent.confidence.text,
            )
            &&& prompt.system == UPDATER@
            &&& prompt.json
        }),
{
    let belief = "position "@ + agent.position.text + ", confidence "@ + agent.confidence.text;
    let back = "\n\nArguments you read:\n"@ + words::joined(
        others(arguments, agent.id),
        "\n\n"@,
    ) + "\n\nOutput your updated belief JSON."@;
    reveal_strlit("Your current belief: position ");
    reveal_strlit("Your current belief: ");
    reveal_strlit("position ");
    assert("Your current belief: position "@ =~= "Your current belief: "@ + "position "@);
    text::holds_its_middle("Your current belief: "@, belief, back);
    assert("Your current belief: "@ + belief + back =~= update_prompt_for(agent, arguments).user);
}

/// An agent that is to argue sees the topic, the sources, the draft, its stance and the belief
/// it holds.
pub proof fn arguers_see_the_draft(
    agent: AgentView,
    topic: Seq<char>,
    draft: Seq<char>,
    sources: Seq<char>,
)
    ensures
        ({
            let prompt = argument_prompt_for(agent, topic, draft, sources);
            &&& prompt.system == ARGUER@
            &&& !prompt.json
            &&& text::contains(
                prompt.user,
                "Topic: "@ + topic + "\n\nSources available:\n"@ + sources,
            )
            &&& text::contains(prompt.user, "\n\nCited draft under debate:\n\n"@ + draft + "\n\n"@)
            &&& text::contains(prompt.user, stance_and_belief(agent))
        }),
{
    let user = argument_prompt_for(agent, topic, draft, sources).user;
    let nothing = Seq::<char>::empty();
    let first = "Topic: "@ + topic + "\n\nSources available:\n"@ + sources;
    let second = "\n\nCited draft under debate:\n\n"@ + draft + "\n\n"@;
    let end = "\n\nWrite your argument."@;
    let third = stance_and_belief(agent);
    assert(user =~= nothing + first + (second + third + end));
    text::holds_its_middle(nothing, first, second + third + end);
    assert(user =~= first + second + (third + end));
    text::holds_its_middle(first, second, third + end);
    assert(user =~= first + second + third + end);
    text::holds_its_middle(first + second, third, end);
}

/// What an agent is told of itself: its stance, its position and its confidence, each in its
/// place.
pub open spec fn stance_and_belief(agent: AgentView) -> Seq<char> {
    "# YOUR CURRENT BELIEFS AND STANCE\n- Stance: "@ + agent.stance
        + "\n- Position on the topic: "@ + agent.position.text
        + " (-1 strongly against, +1 strongly for)\n- Confidence: "@ + agent.confidence.text
}

/// The moderator reads the topic, where each agent stands, and every argument of every round
/// under the number of the round and the agent's name.
pub proof fn moderators_read_everything(
    topic: Seq<char>,
    positions: Seq<PositionView>,
    rounds: Seq<Seq<ArgumentView>>,
    p: int,
    r: int,
    i: int,
)
    requires
        0 <= p < positions.len(),
        0 <= r < rounds.len(),
        0 <= i < rounds[r].len(),
    ensures
        ({
            let prompt = moderator_prompt_for(topic, positions, rounds);
            let position = positions[p];
            let argument = rounds[r][i];
            &&& prompt.system == MODERATOR@
            &&& prompt.json
            &&& text::contains(prompt.user, "Topic: "@ + topic + "\n\nFinal positions:\n"@)
            &&& text::contains(
                prompt.user,
                position.agent + ": position "@ + position.position.text + ", confidence "@
                    + position.confidence.text,
            )
            &&& text::contains(
                prompt.user,
                "[R"@ + number::decimal(argument.round) + " "@ + argument.agent + "]: "@
                    + argument.text,
            )
        }),
{
    let user = moderator_prompt_for(topic, positions, rounds).user;
    let nothing = Seq::<char>::empty();
    let first = "Topic: "@ + topic + "\n\nFinal positions:\n"@;
    let stand = words::joined(standings(positions), "\n"@);
    let lines = words::joined(transcript(rounds), "\n"@);
    let middle = "\n\nDebate transcript:\n"@;
    let end = "\n\nOutput the consensus JSON."@;
    assert(user =~= nothing + first + (stand + middle + lines + end));
    text::holds_its_middle(nothing, first, stand + middle + lines + end);
    words::joined_holds_each(standings(positions), "\n"@, p);
    assert(user =~= first + stand + (middle + lines + end));
    text::holds_within(first, stand, middle + lines + end, standings(positions)[p]);
    let k = transcripts_hold_each(rounds, r, i);
    words::joined_holds_each(transcript(rounds), "\n"@, k);
    assert(user =~= first + stand + middle + lines + end);
    text::holds_within(first + stand + middle, lines, end, transcript(rounds)[k]);
}

proof fn transcripts_hold_each(rounds: Seq<Seq<ArgumentView>>, r: int, i: int) -> (k: int)
    requires
        0 <= r < rounds.len(),
        0 <= i < rounds[r].len(),
    ensures
        0 <= k < transcript(rounds).len(),
        transcript(rounds)[k] == "[R"@ + number::decimal(rounds[r][i].round) + " "@
            + rounds[r][i].agent + "]: "@ + rounds[r][i].text,
    decreases rounds.len(),
{
    let earlier = transcript(rounds.drop_last());
    if r == rounds.len() - 1 {
        let k = earlier.len() as int + i;
        assert(transcript(rounds)[k] == round_lines(rounds.last())[i]);
        k
    } else {
        let k = transcripts_hold_each(rounds.drop_last(), r, i);
        assert(transcript(rounds)[k] == earlier[k]);
        k
    }
}

/// An agent that is interviewed is told the topic, its stance and belief, and the question.
pub proof fn interviewees_hear_the_question(
    agent: AgentView,
    topic: Seq<char>,
    question: Seq<char>,
)
    ensures
        ({
            let prompt = interview_prompt_for(agent, topic, question);
            &&& prompt.system == INTERVIEWEE@
            &&& !prompt.json
            &&& text::contains(prompt.user, "Topic: "@ + topic + "\n\n"@)
            &&& text::contains(prompt.user, stance_and_belief(agent))
            &&& text::contains(
                prompt.user,
                "\n\nOpen point:\n"@ + question + "\n\nWrite your answer."@,
            )
        }),
{
    let user = interview_prompt_for(agent, topic, question).user;
    let nothing = Seq::<char>::empty();
    let first = "Topic: "@ + topic + "\n\n"@;
    let second = stance_and_belief(agent);
    let third = "\n\nOpen point:\n"@ + question + "\n\nWrite your answer."@;
    assert(user =~= nothing + first + (second + third));
    text::holds_its_middle(nothing, first, second + third);
    assert(user =~= first + second + third);
    text::holds_its_middle(first, second, third);
    assert(user =~= first + second + third + nothing);
    text::holds_its_middle(first + second, third, nothing);
}

/// Who is asked for what: the agent whose turn it is for its argument or its belief, with the
/// debate's own topic, draft, sources and arguments; the moderator for the points, with the
/// positions that the agents hold at the end; and for an interview the agent that is recorded
/// with its answer, on the question that is recorded with it.
pub proof fn the_right_agent_is_asked(state: CourseView, i: usize, answer: Seq<char>)
    ensures
        state.point == DebatePoint::Argue(i) && i < state.agents.len() ==> debate_needs(state)
            == DebateActionView::Argue(
            argument_prompt_for(
                state.agents[i as int],
                state.topic,
                state.draft,
                state.sources,
            ),
        ),
        state.point == DebatePoint::Update(i) && i < state.agents.len() ==> debate_needs(state)
            == DebateActionView::Update(update_prompt_for(state.agents[i as int], state.current)),
        state.point == DebatePoint::Measure ==> debate_needs(state) == DebateActionView::Measure,
        state.point == DebatePoint::Conclude ==> debate_needs(state) == DebateActionView::Conclude,
        state.point == DebatePoint::Moderate ==> debate_needs(state)
            == DebateActionView::Moderate(
            moderator_prompt_for(state.topic, positions_of(state.agents), state.rounds),
        ),
        state.point == DebatePoint::Interview(i) && is_held(state, i as int) ==> {
            let next = debate_step(state, DebateEventView::Said(answer));
            let entry = next.interviews.last();
            &&& next.interviews.drop_last() == state.interviews
            &&& entry.answer == answer
            &&& exists|a: int|
                0 <= a < state.agents.len() && (#[trigger] state.agents[a]).name == entry.agent
                    && debate_needs(state) == DebateActionView::Interview(
                    interview_prompt_for(state.agents[a], state.topic, entry.question),
                )
        },
{
    if state.point == DebatePoint::Interview(i) && is_held(state, i as int) {
        let next = debate_step(state, DebateEventView::Said(answer));
        assert(next.interviews.drop_last() =~= state.interviews);
        top_is_most_confident(state.agents, None);
        if let Some(first) = top(state.agents, None) {
            top_is_most_confident(state.agents, Some(first));
        }
        let a = interviewee(state.agents, i as int)->0;
        assert(state.agents[a].name == next.interviews.last().agent);
    }
}

/// The first interview is with the most confident agent and on the first open point, the
/// second with the most confident of the others and on the second one, or on the first again
/// where there is no second.
pub proof fn interviews_go_by_confidence(state: CourseView, answer: Seq<char>)
    requires
        state.outcome is Some,
    ensures
        ({
            let points = (state.outcome->0).dissensus_points;
            let first = interviewed(state, 0, answer).interviews.last();
            let second = interviewed(state, 1, answer).interviews.last();
            &&& is_held(state, 0) ==> first.question == points[0] && exists|a: int|
                0 <= a < state.agents.len() && (#[trigger] state.agents[a]).name == first.agent
                    && forall|b: int|
                    0 <= b < state.agents.len() ==> weight((#[trigger] state.agents[b]).confidence)
                        <= weight(state.agents[a].confidence)
            &&& is_held(state, 1) ==> second.question == if points.len() > 1 {
                points[1]
            } else {
                points[0]
            }
        }),
{
    top_is_most_confident(state.agents, None);
    let points = (state.outcome->0).dissensus_points;
    if is_held(state, 0) {
        let a = interviewee(state.agents, 0)->0;
        assert(state.agents[a].name == interviewed(state, 0, answer).interviews.last().agent);
        assert(0int % points.len() as int == 0);
    }
    if is_held(state, 1) {
        if points.len() == 1 {
            assert(1int % 1 == 0);
        } else {
            assert(1int % points.len() as int == 1) by {
                vstd::arithmetic::div_mod::lemma_small_mod(1, points.len());
            }
        }
    }
}

/// What was measured is the outcome: the means are those that were measured, and for each
/// agent there is its name with the position and the confidence that it holds at the end. The
/// summary shows all of it. Nothing that was said changes.
pub proof fn outcomes_are_what_was_measured(
    state: CourseView,
    mean: MeasureView,
    spread: MeasureView,
    convergence: MeasureView,
    near: nat,
    i: int,
)
    requires
        state.point == DebatePoint::Conclude,
        0 <= i < state.agents.len(),
    ensures
        ({
            let next = debate_step(
                state,
                DebateEventView::Concluded { mean, spread, convergence, near },
            );
            let outcome = next.outcome->0;
            let agent = state.agents[i];
            &&& next.outcome is Some
            &&& next.point == DebatePoint::Moderate
            &&& outcome.mean_position == mean
            &&& outcome.spread == spread
            &&& outcome.convergence == convergence
            &&& outcome.final_positions.len() == state.agents.len()
            &&& outcome.final_positions[i].agent == agent.name
            &&& outcome.final_positions[i].position == agent.position
            &&& outcome.final_positions[i].confidence == agent.confidence
            &&& text::contains(
                outcome.summary,
                "mean position "@ + mean.text + ", spread "@ + spread.text + ", convergence "@
                    + convergence.text,
            )
            &&& text::contains(
                outcome.summary,
                "("@ + number::decimal(near) + " of "@ + number::decimal(state.agents.len())
                    + " agents are within 0.3 of the mean)"@,
            )
            &&& text::contains(
                outcome.summary,
                "  - "@ + agent.name + ": "@ + agent.position.text + " (conf "@
                    + agent.confidence.text + ")\n"@,
            )
            &&& next.agents == state.agents && next.rounds == state.rounds && next.interviews
                == state.interviews
        }),
{
    let positions = positions_of(state.agents);
    let summary = summary_of(positions, mean, spread, convergence, near);
    let first = "mean position "@ + mean.text + ", spread "@ + spread.text + ", convergence "@
        + convergence.text;
    let second = "("@ + number::decimal(near) + " of "@ + number::decimal(positions.len())
        + " agents are within 0.3 of the mean)"@;
    let tail = ".\n"@;
    let third = "Final positions:\n"@;
    let lines = position_lines(positions);
    reveal_strlit("Debate concluded: mean position ");
    reveal_strlit("Debate concluded: ");
    reveal_strlit("mean position ");
    reveal_strlit(" agents are within 0.3 of the mean).\n");
    reveal_strlit(" agents are within 0.3 of the mean)");
    reveal_strlit(".\n");
    assert("Debate concluded: mean position "@ =~= "Debate concluded: "@ + "mean position "@);
    assert(" agents are within 0.3 of the mean).\n"@ =~= " agents are within 0.3 of the mean)"@
        + ".\n"@);
    let back = " "@ + second + tail + third + lines;
    assert(summary =~= "Debate concluded: "@ + first + back);
    text::holds_its_middle("Debate concluded: "@, first, back);
    let front = "Debate concluded: "@ + first + " "@;
    assert(summary =~= front + second + (tail + third + lines));
    text::holds_its_middle(front, second, tail + third + lines);
    position_lines_hold_each(positions, i);
    let front = "Debate concluded: "@ + first + " "@ + second + tail + third;
    assert(summary =~= front + lines + Seq::<char>::empty());
    text::holds_within(
        front,
        lines,
        Seq::empty(),
        "  - "@ + positions[i].agent + ": "@ + positions[i].position.text + " (conf "@
            + positions[i].confidence.text + ")\n"@,
    );
}

#[verifier::opaque]
spec fn position_line(position: PositionView) -> Seq<char> {
    "  - "@ + position.agent + ": "@ + position.position.text + " (conf "@
        + position.confidence.text + ")\n"@
}

proof fn position_lines_grow(positions: Seq<PositionView>)
    requires
        positions.len() > 0,
    ensures
        position_lines(positions) == position_lines(positions.drop_last()) + position_line(
            positions.last(),
        ),
{
    reveal(position_line);
    assert(position_lines(positions) =~= position_lines(positions.drop_last()) + position_line(
        positions.last(),
    ));
}

proof fn position_lines_hold_line(positions: Seq<PositionView>, i: int)
    requires
        0 <= i < positions.len(),
    ensures
        text::contains(position_lines(positions), position_line(positions[i])),
    decreases positions.len(),
{
    let rest = positions.drop_last();
    position_lines_grow(positions);
    if i == positions.len() - 1 {
        text::end_is_held(position_lines(rest), position_line(positions.last()));
    } else {
        position_lines_hold_line(rest, i);
        assert(rest[i] == positions[i]);
        text::front_is_held(
            position_lines(rest),
            position_line(positions.last()),
            position_line(positions[i]),
        );
    }
}

proof fn position_lines_hold_each(positions: Seq<PositionView>, i: int)
    requires
        0 <= i < positions.len(),
    ensures
        text::contains(
            position_lines(positions),
            "  - "@ + positions[i].agent + ": "@ + positions[i].position.text + " (conf "@
                + positions[i].confidence.text + ")\n"@,
        ),
{
    position_lines_hold_line(positions, i);
    reveal(position_line);
}

/// The points that the moderator names are those of the outcome, and nothing else of the
/// outcome changes.
pub proof fn points_are_recorded(state: CourseView, points: AgreementView)
    requires
        state.point == DebatePoint::Moderate,
        state.outcome is Some,
    ensures
        ({
            let next = debate_step(state, DebateEventView::Agreed(points));
            let before = state.outcome->0;
            let after = next.outcome->0;
            &&& next.outcome is Some
            &&& after.consensus_points == points.consensus_points
            &&& after.dissensus_points == points.dissensus_points
            &&& after.final_positions == before.final_positions
            &&& after.mean_position == before.mean_position
            &&& after.spread == before.spread
            &&& after.convergence == before.convergence
            &&& after.summary == before.summary
            &&& next.agents == state.agents && next.rounds == state.rounds && next.interviews
                == state.interviews
            &&& points.dissensus_points.len() > 0 && state.agents.len() > 0 ==> next.point
                == DebatePoint::Interview(0)
        }),
{
    top_is_most_confident(state.agents, None);
}

/// A debate opens on its topic with as many rounds as it is to have, and every source is on
/// its list with its name, its title and its address.
pub proof fn debates_open_on_their_topic(
    topic: Seq<char>,
    cited_draft: Seq<char>,
    items: Seq<EvidenceView>,
    rounds: nat,
    i: int,
)
    requires
        0 <= i < items.len(),
    ensures
        ({
            let state = opening(topic, cited_draft, items, rounds);
            &&& state.topic == topic
            &&& state.total == rounds
            &&& state.draft == condensed(cited_draft)
            &&& state.agents == lineup()
            &&& rounds > 0 ==> state.point == DebatePoint::Argue(0)
            &&& text::contains(
                state.sources,
                "["@ + items[i].id + "] "@ + items[i].title + " — "@ + items[i].url + "\n"@,
            )
        }),
{
    source_list_holds_each(items, i);
    evidence::source_lines_name_the_source(items[i]);
}

proof fn source_list_holds_each(items: Seq<EvidenceView>, i: int)
    requires
        0 <= i < items.len(),
    ensures
        text::contains(source_list(items), evidence::source_line(items[i]) + "\n"@),
    decreases items.len(),
{
    let rest = items.drop_last();
    let last = evidence::source_line(items.last());
    text::strings_associate(source_list(rest), last, "\n"@);
    if i == items.len() - 1 {
        text::end_is_held(source_list(rest), last + "\n"@);
    } else {
        source_list_holds_each(rest, i);
        assert(rest[i] == items[i]);
        text::front_is_held(
            source_list(rest),
            last + "\n"@,
            evidence::source_line(items[i]) + "\n"@,
        );
    }
}

/// A section begins with its heading, stands in the draft, and ends where the next one begins
/// or with the draft; there is one exactly where its heading stands in the draft.
pub proof fn sections_run_to_the_next(draft: Seq<char>, heading: Seq<char>)
    requires
        heading.len() > 0,
    ensures
        section(draft, heading) is Some <==> text::contains(draft, heading),
        section(draft, heading) matches Some(part) ==> exists|from: int|
            {
                &&& #[trigger] text::occurs_at(draft, heading, from)
                &&& text::occurs_at(draft, part, from)
                &&& from + part.len() == draft.len() || text::occurs_at(
                    draft,
                    "\n## "@,
                    from + part.len(),
                )
                &&& forall|k: int|
                    from <= k < from + part.len() ==> !#[trigger] text::occurs_at(
                        draft,
                        "\n## "@,
                        k,
                    )
                &&& forall|k: int| 0 <= k < from ==> !#[trigger] text::occurs_at(draft, heading, k)
            },
{
    text::contains_iff_first(draft, heading);
    text::first_from_is_first(draft, heading, 0);
    if let Some(from) = text::first(draft, heading) {
        text::first_from_is_first(draft, "\n## "@, from);
        let part = section(draft, heading)->0;
        assert(draft.subrange(from, from + part.len()) =~= part);
        assert(text::occurs_at(draft, heading, from));
        assert(text::occurs_at(draft, part, from));
    }
}

/// The agents see the draft's summary, its open questions and all from its sources on, in
/// this order, as far as that is within the bound; where the draft has none of these they see
/// its beginning.
pub proof fn condensed_drafts_keep_the_sections(draft: Seq<char>)
    ensures
        ({
            let seen = condensed(draft);
            let summary = section(draft, "## Executive Summary"@);
            let questions = section(draft, "## Open Questions"@);
            let sources = text::first(draft, "## Sources"@);
            let fits = gist(draft).len() <= DRAFT_CAP;
            &&& fits && summary is Some ==> (summary->0).is_prefix_of(seen)
            &&& fits && questions is Some ==> text::contains(seen, questions->0)
            &&& fits && sources is Some && words::trim(gist(draft)).len() > 0 ==> draft.skip(
                sources->0,
            ).is_suffix_of(seen)
            &&& summary is None && questions is None && sources is None ==> seen
                == if draft.len() <= DRAFT_HEAD {
                draft
            } else {
                draft.take(DRAFT_HEAD as int)
            }
        }),
{
    let parts = gist(draft);
    let summary = section(draft, "## Executive Summary"@);
    let questions = section(draft, "## Open Questions"@);
    let sources = text::first(draft, "## Sources"@);
    let seen = condensed(draft);
    if parts.len() <= DRAFT_CAP {
        assert(parts.is_prefix_of(seen)) by {
            if words::trim(parts).len() == 0 {
                let more = parts + words::cut(draft, DRAFT_HEAD as nat);
                assert(more.take(parts.len() as int) =~= parts);
                if more.len() > DRAFT_CAP {
                    assert(more.take(DRAFT_CAP as int).take(parts.len() as int) =~= parts);
                }
            }
        }
        if summary is Some {
            let part = summary->0;
            assert(parts.take(part.len() as int) =~= part);
            assert(seen.take(part.len() as int) =~= seen.take(parts.len() as int).take(
                part.len() as int,
            ));
        }
        if questions is Some {
            let part = questions->0;
            let front = spaced(summary);
            let back = "\n\n"@ + rest_from(draft, "## Sources"@) + seen.skip(parts.len() as int);
            assert(parts + seen.skip(parts.len() as int) =~= seen);
            assert(seen =~= front + part + back);
            text::holds_its_middle(front, part, back);
        }
        if sources is Some && words::trim(parts).len() > 0 {
            let part = draft.skip(sources->0);
            assert(seen == parts);
            assert(parts.skip(parts.len() - part.len()) =~= part);
        }
    }
    if summary is None && questions is None && sources is None {
        assert(parts =~= Seq::<char>::empty());
        assert(words::trim(parts).len() == 0);
        assert(parts + words::cut(draft, DRAFT_HEAD as nat) =~= words::cut(
            draft,
            DRAFT_HEAD as nat,
        ));
    }
}

/// A reply's numbers are read by their own names.
pub proof fn beliefs_are_read_by_name(
    members: Seq<(Seq<char>, MemberView)>,
    position: Seq<char>,
    confidence: Seq<char>,
)
    requires
        json::member_of(members, "position"@) == Some(MemberView::Number(position)),
        json::member_of(members, "confidence"@) == Some(MemberView::Number(confidence)),
    ensures
        belief_in(members).position == Some(position),
        belief_in(members).confidence == Some(confidence),
{
}

/// The points that are agreed on and those that are not are read by their own names, each
/// text of the list in its order.
pub proof fn points_are_read_by_name(
    members: Seq<(Seq<char>, MemberView)>,
    agreed: Seq<Seq<char>>,
    open: Seq<Seq<char>>,
)
    requires
        json::member_of(members, "consensus_points"@) == Some(
            MemberView::Items(agreed.map_values(|point: Seq<char>| Some(point))),
        ),
        json::member_of(members, "dissensus_points"@) == Some(
            MemberView::Items(open.map_values(|point: Seq<char>| Some(point))),
        ),
    ensures
        points_in(members).consensus_points == agreed,
        points_in(members).dissensus_points == open,
{
    json::all_strings_are_kept(agreed);
    json::all_strings_are_kept(open);
}

/// A reply between fences is read like one without: where it is no object as it stands, what
/// stands between the fences is read.
pub proof fn fenced_replies_are_read(inner: Seq<char>)
    requires
        inner.len() > 0,
        !words::is_space(inner[0]),
        !words::is_space(inner.last()),
        !"```"@.is_prefix_of(inner),
    ensures
        reply_members(inner) == json::json_members(inner),
        json::json_members("```json"@ + inner + "```"@) is None ==> reply_members(
            "```json"@ + inner + "```"@,
        ) == json::json_members(inner),
{
    fence::fences_are_taken_off(inner);
    reveal_strlit("```json");
    reveal_strlit("```");
    let none = Seq::<char>::empty();
    let tagged = "```json"@ + inner + "```"@;
    words::margins_are_trimmed(none, inner, none);
    assert(none + inner + none =~= inner);
    assert(tagged[0] == '`' && tagged.last() == '`');
    words::margins_are_trimmed(none, tagged, none);
    assert(none + tagged + none =~= tagged);
}

} // verus!
