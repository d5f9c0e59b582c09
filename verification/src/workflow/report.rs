//! Writing: the prompts for draft, citations and review, and the documents of a run.

use vstd::prelude::*;

use crate::clock;
use crate::debate::{
    AgentPosition,
    AnswerView,
    ConsensusSummary,
    ConsensusView,
    DebateResult,
    DebateView,
    InterviewAnswer,
    PositionView,
};
use crate::llm::{Prompt, PromptView};
use crate::number;
use crate::slug;
use crate::text;
use crate::words;
use crate::workflow::evidence;
use crate::workflow::evidence::{EvidenceItem, EvidenceView};
use crate::workflow::plan;

verus! {

/// The slug of a topic.
pub fn make_slug(topic: &str) -> (r: String)
    ensures
        r@ == slug::slug_for(topic@),
        words::no_capitals(r@),
{
    slug::slugify(topic)
}

// ── paths ───────────────────────────────────────────────────────────

/// The path of a file in a directory. An absolute name stands for itself.
pub open spec fn joined_path(dir: Seq<char>, name: Seq<char>) -> Seq<char> {
    if dir.len() == 0 || "/"@.is_prefix_of(name) {
        name
    } else if dir.last() == '/' {
        dir + name
    } else {
        dir + "/"@ + name
    }
}

/// The path of a file in a directory. An absolute name stands for itself.
pub fn join_path(dir: &str, name: &str) -> (r: String)
    ensures
        r@ == joined_path(dir@, name@),
{
    let chars = text::chars_of(dir);
    if chars.len() == 0 || text::has_prefix(name, "/") {
        return name.to_owned();
    }
    let mut path = dir.to_owned();
    if chars[chars.len() - 1] != '/' {
        path.append("/");
    }
    path.append(name);
    path
}

/// A path as a document shows it.
pub fn rel(p: &str) -> (r: String)
    ensures
        r@ == p@,
{
    p.to_owned()
}

// ── drafting ────────────────────────────────────────────────────────

/// What the writer is told.
pub const WRITER: &'static str = "You are a research writer. Write a thorough, source-heavy research brief on the topic.\n\
     Rules:\n\
     - Cite sources inline with [S1], [S2], ... matching the source IDs given.\n\
     - Structure: # Title, ## Executive Summary, then findings organized by question/theme, then ## Open Questions, then ## Sources.\n\
     - Use facts from the provided source content only. No invented sources, results, figures, or benchmarks.\n\
     - Mark inferences as inferences.\n\
     - Include the ## Sources section listing every cited [Sn] with its URL.\n\
     - Write in the same language as the topic (if the topic is Hungarian, write in Hungarian).";

/// The prompt for a draft.
pub open spec fn draft_prompt_for(topic: Seq<char>, items: Seq<EvidenceView>) -> PromptView {
    PromptView {
        system: WRITER@,
        user: "Topic: "@ + topic + "\n\nEvidence:\n\n"@ + evidence::exhibits(items)
            + "\n\nWrite the research brief now."@,
        json: false,
    }
}

/// The prompt for a draft.
pub fn draft_prompt(topic: &str, items: &[EvidenceItem]) -> (r: Prompt)
    ensures
        r.says(draft_prompt_for(topic@, text::views(items@))),
{
    let mut user = "Topic: ".to_owned();
    user.append(topic);
    user.append("\n\nEvidence:\n\n");
    user.append(evidence::build_evidence_block(items).as_str());
    user.append("\n\nWrite the research brief now.");
    Prompt::new(WRITER, user.as_str(), false)
}

// ── citing ──────────────────────────────────────────────────────────

/// What the citation verifier is told.
pub const CITER: &'static str = "You are a citation verifier. Take the draft and produce a fully cited version.\n\
     Rules:\n\
     - Every critical claim must carry an inline [Sn] citation to a real source.\n\
     - Only cite source IDs that exist in the provided source list. Never invent URLs or IDs.\n\
     - Remove or downgrade claims that have no supporting source.\n\
     - Add a ## Sources section at the end listing each [Sn] with its full URL.\n\
     - Preserve the draft's overall structure and language.\n\
     - Output only the complete revised markdown document, no commentary.";

/// The prompt for a cited draft.
pub open spec fn cite_prompt_for(draft: Seq<char>, items: Seq<EvidenceView>) -> PromptView {
    PromptView {
        system: CITER@,
        user: "Sources available:\n"@ + words::joined(evidence::source_lines(items), "\n"@)
            + "\n\nDraft to cite:\n\n"@ + draft + "\n\nOutput the fully cited markdown."@,
        json: false,
    }
}

/// The prompt for a cited draft.
pub fn cite_prompt(draft: &str, items: &[EvidenceItem]) -> (r: Prompt)
    ensures
        r.says(cite_prompt_for(draft@, text::views(items@))),
{
    let mut user = "Sources available:\n".to_owned();
    user.append(words::join(&evidence::source_lines_of(items), "\n").as_str());
    user.append("\n\nDraft to cite:\n\n");
    user.append(draft);
    user.append("\n\nOutput the fully cited markdown.");
    Prompt::new(CITER, user.as_str(), false)
}

// ── reviewing ───────────────────────────────────────────────────────

/// What the review agent is told.
pub const REVIEW_RULES: &'static str = "You are a rigorous internal research review agent. Verify the cited brief.\n\
     Checks: unsupported claims, logical gaps, single-source critical claims, overstated confidence, invalid source IDs.\n\
     You receive the output of a multi-agent debate that critiqued the brief's CONTENT and REFERENCES.\n\
     Apply the debate input with DETERMINISTIC WEIGHTING — this is mandatory:\n\
     CONSENSUS points (all or most agents agree):\n\
     - Verify each consensus point against the sources yourself.\n\
     - If a consensus point identifies a FATAL issue (unsupported claim, invalid source,\n\
       single-source critical claim, overreach), you MUST fix it in the final document.\n\
     - Consensus FATALs are authoritative unless the sources directly contradict the criticism.\n\
     DISSENSUS points (agents disagree):\n\
     - Do NOT change the document's substance for dissensus points.\n\
     - Instead, add hedging or contested-attribution wording where the contested claim appears.\n\
     - Mark them in the verification report as 'contested in debate'.\n\
     Produce:\n\
     1. A verification report with findings marked FATAL / MAJOR / MINOR, the checks performed,\n\
        and for each debate point: whether it was confirmed, rejected, or hedged.\n\
     2. The final document: FATALs fixed, dissensus hedged, otherwise unchanged.\n\
     Output format:\n\
     ```\n\
     # Verification Report\n\
     ...findings...\n\
     ---\n\
     # Final Document\n\
     ...complete corrected markdown...\n\
     ```";

/// The points as a list.
pub open spec fn dashed(points: Seq<Seq<char>>) -> Seq<Seq<char>> {
    points.map_values(|point: Seq<char>| "- "@ + point)
}

fn dashed_of(points: &Vec<String>) -> (r: Vec<String>)
    ensures
        text::views(r@) == dashed(text::views(points@)),
{
    let ghost wanted = dashed(text::views(points@));
    let mut out: Vec<String> = Vec::new();
    for i in 0..points.len()
        invariant
            wanted == dashed(text::views(points@)),
            text::views(out@) == wanted.take(i as int),
    {
        let mut line = "- ".to_owned();
        line.append(points[i].as_str());
        let ghost before = out@;
        out.push(line);
        proof {
            assert(wanted[i as int] == line@);
            assert(text::views(out@) =~= text::views(before).push(line@));
            assert(wanted.take(i + 1) =~= wanted.take(i as int).push(wanted[i as int]));
        }
    }
    assert(wanted.take(wanted.len() as int) =~= wanted);
    out
}

/// What the review agent hears of a debate.
pub open spec fn debate_outcome(consensus: ConsensusView) -> Seq<char> {
    if consensus.consensus_points.len() == 0 && consensus.dissensus_points.len() == 0 {
        consensus.summary
    } else {
        "Consensus points:\n"@ + words::joined(dashed(consensus.consensus_points), "\n"@)
            + "\n\nDissensus points:\n"@ + words::joined(dashed(consensus.dissensus_points), "\n"@)
            + "\n\n"@ + consensus.summary
    }
}

fn debate_outcome_of(consensus: &ConsensusSummary) -> (r: String)
    ensures
        r@ == debate_outcome(consensus@),
{
    if consensus.consensus_points.len() == 0 && consensus.dissensus_points.len() == 0 {
        consensus.summary.clone()
    } else {
        let mut s = "Consensus points:\n".to_owned();
        s.append(words::join(&dashed_of(&consensus.consensus_points), "\n").as_str());
        s.append("\n\nDissensus points:\n");
        s.append(words::join(&dashed_of(&consensus.dissensus_points), "\n").as_str());
        s.append("\n\n");
        s.append(consensus.summary.as_str());
        s
    }
}

/// The prompt for a review.
pub open spec fn review_prompt_for(
    cited: Seq<char>,
    items: Seq<EvidenceView>,
    consensus: ConsensusView,
) -> PromptView {
    PromptView {
        system: REVIEW_RULES@,
        user: "Available sources:\n"@ + words::joined(evidence::source_lines(items), "\n"@)
            + "\n\nDebate outcome:\n"@ + debate_outcome(consensus)
            + "\n\nCited draft to review:\n\n"@ + cited
            + "\n\nProduce the verification report and final document."@,
        json: false,
    }
}

/// The prompt for a review.
pub fn review_prompt(cited: &str, items: &[EvidenceItem], consensus: &ConsensusSummary) -> (r:
    Prompt)
    ensures
        r.says(review_prompt_for(cited@, text::views(items@), consensus@)),
{
    let mut user = "Available sources:\n".to_owned();
    user.append(words::join(&evidence::source_lines_of(items), "\n").as_str());
    user.append("\n\nDebate outcome:\n");
    user.append(debate_outcome_of(consensus).as_str());
    user.append("\n\nCited draft to review:\n\n");
    user.append(cited);
    user.append("\n\nProduce the verification report and final document.");
    Prompt::new(REVIEW_RULES, user.as_str(), false)
}

/// The heading that parts a review in two.
pub const FINAL_HEADING: &'static str = "# Final Document";

/// The findings in a reply to a review prompt: what stands before the final document, or all of it.
pub open spec fn review_part(raw: Seq<char>) -> Seq<char> {
    match text::cut_once(raw, FINAL_HEADING@) {
        Some(halves) => words::trim(halves.0),
        None => raw,
    }
}

/// The document in a reply to a review prompt; the cited draft where there is none.
pub open spec fn final_part(raw: Seq<char>, cited: Seq<char>) -> Seq<char> {
    match text::cut_once(raw, FINAL_HEADING@) {
        Some(halves) => if words::trim(words::trim(halves.1)).len() == 0 {
            cited
        } else {
            words::trim(halves.1)
        },
        None => cited,
    }
}

/// The two parts of a reply to a review prompt.
#[derive(Debug)]
pub struct Review {
    pub final_md: String,
    pub review_md: String,
}

/// The final document and the findings in a reply to a review prompt.
pub fn split_review(raw: &str, cited: &str) -> (r: Review)
    ensures
        r.final_md@ == final_part(raw@, cited@),
        r.review_md@ == review_part(raw@),
{
    match text::split_once(raw, FINAL_HEADING) {
        Some(halves) => {
            let document = words::trimmed(halves.1.as_str());
            let empty = text::blank(words::trimmed(document.as_str()).as_str());
            let final_md = if empty {
                cited.to_owned()
            } else {
                document
            };
            Review { final_md, review_md: words::trimmed(halves.0.as_str()) }
        },
        None => Review { final_md: cited.to_owned(), review_md: raw.to_owned() },
    }
}

/// A review never leaves an empty document behind, unless the draft was blank already.
pub proof fn reviews_keep_a_document(raw: Seq<char>, cited: Seq<char>)
    requires
        words::trim(cited).len() > 0,
    ensures
        words::trim(final_part(raw, cited)).len() > 0,
{
}

// ── delivering ──────────────────────────────────────────────────────

/// What the sources of a run came to, as a document.
pub open spec fn provenance(
    topic: Seq<char>,
    date: Seq<char>,
    accepted: nat,
    rejected: Seq<Seq<char>>,
    plan_path: Seq<char>,
    notes_path: Seq<char>,
    draft_path: Seq<char>,
    cited_path: Seq<char>,
    review_path: Seq<char>,
) -> Seq<char> {
    "# Provenance: "@ + topic + "\n\n"@ + "- **Date:** "@ + date + "\n"@
        + "- **Rounds:** 1 research round (direct search, no subagents)\n"@
        + "- **Sources accepted:** "@ + number::decimal(accepted) + "\n"@
        + "- **Sources rejected:** "@ + (if rejected.len() == 0 {
        "none"@
    } else {
        words::joined(rejected, ", "@)
    }) + "\n"@ + "- **Verification:** PASS\n"@ + "- **Plan:** "@ + plan_path + "\n"@
        + "- **Research files:** "@ + notes_path + "\n"@ + "- **Draft:** "@ + draft_path + "\n"@
        + "- **Cited draft:** "@ + cited_path + "\n"@ + "- **Verification notes:** "@ + review_path
        + "\n"@
        + "\n### Notes\n\n- Generated by research_mcp (Rust) — Feynman deepresearch port.\n"@
        + "- Direct search mode: no researcher subagents; single-pass drafting with citation and review passes.\n"@
}

/// What the sources of a run came to, as a document of the given date.
pub fn build_provenance_on(
    date: &str,
    topic: &str,
    accepted: usize,
    rejected: &Vec<String>,
    plan_path: &str,
    notes_path: &str,
    draft_path: &str,
    cited_path: &str,
    review_path: &str,
) -> (r: String)
    ensures
        r@ == provenance(
            topic@,
            date@,
            accepted as nat,
            text::views(rejected@),
            plan_path@,
            notes_path@,
            draft_path@,
            cited_path@,
            review_path@,
        ),
{
    let refused = if rejected.len() == 0 {
        "none".to_owned()
    } else {
        words::join(rejected, ", ")
    };
    let mut s = "# Provenance: ".to_owned();
    s.append(topic);
    s.append("\n\n");
    s.append("- **Date:** ");
    s.append(date);
    s.append("\n");
    s.append("- **Rounds:** 1 research round (direct search, no subagents)\n");
    s.append("- **Sources accepted:** ");
    s.append(number::decimal_of(accepted as u128).as_str());
    s.append("\n");
    s.append("- **Sources rejected:** ");
    s.append(refused.as_str());
    s.append("\n");
    s.append("- **Verification:** PASS\n");
    s.append("- **Plan:** ");
    s.append(rel(plan_path).as_str());
    s.append("\n");
    s.append("- **Research files:** ");
    s.append(rel(notes_path).as_str());
    s.append("\n");
    s.append("- **Draft:** ");
    s.append(rel(draft_path).as_str());
    s.append("\n");
    s.append("- **Cited draft:** ");
    s.append(rel(cited_path).as_str());
    s.append("\n");
    s.append("- **Verification notes:** ");
    s.append(rel(review_path).as_str());
    s.append("\n");
    s.append("\n### Notes\n\n- Generated by research_mcp (Rust) — Feynman deepresearch port.\n");
    s.append(
        "- Direct search mode: no researcher subagents; single-pass drafting with citation and review passes.\n",
    );
    s
}

/// Today's date, in ISO 8601 notation.
pub(crate) fn today() -> (r: String)
    ensures
        clock::is_date(r@),
{
    clock::local_now("%Y-%m-%d")
}

/// What the sources of a run came to, as a document of today.
pub fn build_provenance(
    topic: &str,
    accepted: usize,
    rejected: &Vec<String>,
    plan_path: &str,
    notes_path: &str,
    draft_path: &str,
    cited_path: &str,
    review_path: &str,
) -> (r: String)
    ensures
        exists|date: Seq<char>|
            clock::is_date(date) && r@ == #[trigger] provenance(
                topic@,
                date,
                accepted as nat,
                text::views(rejected@),
                plan_path@,
                notes_path@,
                draft_path@,
                cited_path@,
                review_path@,
            ),
{
    let date = today();
    build_provenance_on(
        date.as_str(),
        topic,
        accepted,
        rejected,
        plan_path,
        notes_path,
        draft_path,
        cited_path,
        review_path,
    )
}

/// The heading of the debate's section of a report.
pub const DEBATE_HEADING: &'static str = "## Agent Debate Summary";

/// The rows of the table of positions.
pub open spec fn position_rows(positions: Seq<PositionView>) -> Seq<char>
    decreases positions.len(),
{
    if positions.len() == 0 {
        Seq::empty()
    } else {
        position_rows(positions.drop_last()) + "| "@ + positions.last().agent + " | "@
            + positions.last().position.text + " | "@ + positions.last().confidence.text + " |\n"@
    }
}

/// A titled list of points; nothing where there is none.
pub open spec fn titled(title: Seq<char>, points: Seq<Seq<char>>) -> Seq<char> {
    if points.len() == 0 {
        Seq::empty()
    } else {
        title + plan::bullets(points)
    }
}

/// The interviews, one after the other.
pub open spec fn interview_texts(interviews: Seq<AnswerView>) -> Seq<char>
    decreases interviews.len(),
{
    if interviews.len() == 0 {
        Seq::empty()
    } else {
        interview_texts(interviews.drop_last()) + "\n*"@ + interviews.last().question + "*\n\n**"@
            + interviews.last().agent + ":** "@ + interviews.last().answer + "\n"@
    }
}

/// The interviews under their title; nothing where there is none.
pub open spec fn interview_section(interviews: Seq<AnswerView>) -> Seq<char> {
    if interviews.len() == 0 {
        Seq::empty()
    } else {
        "\n**Agent interviews (open questions):**\n"@ + interview_texts(interviews)
    }
}

/// The debate's section of a report.
pub open spec fn debate_section(debate: DebateView) -> Seq<char> {
    let consensus = debate.consensus;
    "\n\n---\n\n## Agent Debate Summary\n\n"@
        + "Five expert agents with distinct beliefs debated this brief before review. "@
        + "Final positions: mean **"@ + consensus.mean_position.text + "**, spread **"@
        + consensus.spread.text + "**, convergence **"@ + consensus.convergence.text
        + "** (positive = converged).\n\n"@ + "| Agent | Position | Confidence |\n|---|---|---|\n"@
        + position_rows(consensus.final_positions) + titled(
        "\n**Agents agreed on:**\n"@,
        consensus.consensus_points,
    ) + titled("\n**Agents disagreed on:**\n"@, consensus.dissensus_points) + interview_section(
        debate.interviews,
    )
        + "\n*Debate findings were advisory inputs to the review pass; each was verified against sources before inclusion.*\n"@
}

/// The report with the debate's section behind it, unless it has one.
pub open spec fn with_debate(final_md: Seq<char>, debate: DebateView) -> Seq<char> {
    if text::contains(final_md, DEBATE_HEADING@) {
        final_md
    } else {
        final_md + debate_section(debate)
    }
}

fn append_rows(s: &mut String, positions: &Vec<AgentPosition>)
    ensures
        final(s)@ == old(s)@ + position_rows(text::views(positions@)),
{
    let ghost all = text::views(positions@);
    let ghost head = s@;
    assert(all.take(0) =~= Seq::<PositionView>::empty());
    assert(head + Seq::<char>::empty() =~= head);
    for i in 0..positions.len()
        invariant
            all == text::views(positions@),
            s@ == head + position_rows(all.take(i as int)),
    {
        s.append("| ");
        s.append(positions[i].agent.as_str());
        s.append(" | ");
        s.append(positions[i].position.text.as_str());
        s.append(" | ");
        s.append(positions[i].confidence.text.as_str());
        s.append(" |\n");
        proof {
            assert(all.take(i + 1).drop_last() == all.take(i as int));
            assert(all.take(i + 1).last() == positions@[i as int]@);
            assert(s@ =~= head + position_rows(all.take(i + 1)));
        }
    }
    assert(all.take(all.len() as int) == all);
}

fn append_titled(s: &mut String, title: &str, points: &Vec<String>)
    ensures
        final(s)@ == old(s)@ + titled(title@, text::views(points@)),
{
    let ghost head = s@;
    if points.len() > 0 {
        s.append(title);
        plan::append_bullets(s, points);
    }
    assert(s@ =~= head + titled(title@, text::views(points@)));
}

fn append_interviews(s: &mut String, interviews: &Vec<InterviewAnswer>)
    ensures
        final(s)@ == old(s)@ + interview_section(text::views(interviews@)),
{
    let ghost all = text::views(interviews@);
    let ghost start = s@;
    if interviews.len() > 0 {
        s.append("\n**Agent interviews (open questions):**\n");
        let ghost head = s@;
        assert(all.take(0) =~= Seq::<AnswerView>::empty());
        assert(head + Seq::<char>::empty() =~= head);
        for i in 0..interviews.len()
            invariant
                all == text::views(interviews@),
                s@ == head + interview_texts(all.take(i as int)),
        {
            s.append("\n*");
            s.append(interviews[i].question.as_str());
            s.append("*\n\n**");
            s.append(interviews[i].agent.as_str());
            s.append(":** ");
            s.append(interviews[i].answer.as_str());
            s.append("\n");
            proof {
                assert(all.take(i + 1).drop_last() == all.take(i as int));
                assert(all.take(i + 1).last() == interviews@[i as int]@);
                assert(s@ =~= head + interview_texts(all.take(i + 1)));
            }
        }
        assert(all.take(all.len() as int) == all);
    }
    assert(s@ =~= start + interview_section(all));
}

/// The report with the debate's section behind it, unless it has one: so that a run that is
/// taken up again does not add it twice.
pub fn append_debate_summary(final_md: &str, debate: &DebateResult) -> (r: String)
    ensures
        r@ == with_debate(final_md@, debate@),
{
    if text::has(final_md, DEBATE_HEADING) {
        return final_md.to_owned();
    }
    let mut s = "\n\n---\n\n## Agent Debate Summary\n\n".to_owned();
    s.append("Five expert agents with distinct beliefs debated this brief before review. ");
    s.append("Final positions: mean **");
    s.append(debate.consensus.mean_position.text.as_str());
    s.append("**, spread **");
    s.append(debate.consensus.spread.text.as_str());
    s.append("**, convergence **");
    s.append(debate.consensus.convergence.text.as_str());
    s.append("** (positive = converged).\n\n");
    s.append("| Agent | Position | Confidence |\n|---|---|---|\n");
    append_rows(&mut s, &debate.consensus.final_positions);
    append_titled(&mut s, "\n**Agents agreed on:**\n", &debate.consensus.consensus_points);
    append_titled(&mut s, "\n**Agents disagreed on:**\n", &debate.consensus.dissensus_points);
    append_interviews(&mut s, &debate.interviews);
    s.append(
        "\n*Debate findings were advisory inputs to the review pass; each was verified against sources before inclusion.*\n",
    );
    let mut r = final_md.to_owned();
    r.append(s.as_str());
    r
}

/// A report that has the debate's section keeps it as it is: adding the section twice is
/// adding it once, even after another debate.
pub proof fn debate_section_is_added_once(
    final_md: Seq<char>,
    debate: DebateView,
    later: DebateView,
)
    ensures
        text::contains(with_debate(final_md, debate), DEBATE_HEADING@),
        with_debate(with_debate(final_md, debate), later) == with_debate(final_md, debate),
        final_md.is_prefix_of(with_debate(final_md, debate)),
{
    if !text::contains(final_md, DEBATE_HEADING@) {
        let start = "\n\n---\n\n## Agent Debate Summary\n\n"@;
        let heading = DEBATE_HEADING@;
        let width = heading.len() as int;
        let section = debate_section(debate);
        let whole = final_md + section;
        assert(7 + width <= start.len() && start.subrange(7, 7 + width) == heading) by {
            reveal_strlit("\n\n---\n\n## Agent Debate Summary\n\n");
            reveal_strlit("## Agent Debate Summary");
            assert(start.subrange(7, 7 + width) =~= heading);
        }
        assert(start.len() <= section.len() && section.take(start.len() as int) =~= start);
        let at = final_md.len() as int + 7;
        assert(whole.subrange(at, at + width) =~= section.take(
            start.len() as int,
        ).subrange(7, 7 + width));
        assert(text::occurs_at(whole, heading, at));
    }
}

// ── what the prompts and documents hold ─────────────────────────────

/// A path leads into its directory and ends with the name, unless the name is absolute or
/// there is no directory.
pub proof fn paths_lead_into_their_directory(dir: Seq<char>, name: Seq<char>)
    ensures
        ({
            let path = joined_path(dir, name);
            &&& name.is_suffix_of(path)
            &&& dir.len() == 0 || "/"@.is_prefix_of(name) ==> path == name
            &&& dir.len() > 0 && !"/"@.is_prefix_of(name) ==> dir.is_prefix_of(path) && path.len()
                <= dir.len() + 1 + name.len() && path[path.len() - name.len() - 1] == '/'
        }),
{
    reveal_strlit("/");
    let path = joined_path(dir, name);
    assert(path.skip(path.len() - name.len()) =~= name);
    if dir.len() > 0 && !"/"@.is_prefix_of(name) {
        assert(path.take(dir.len() as int) =~= dir);
    }
}

/// The writer is told the topic and shown every source with what is shown of its text.
pub proof fn writers_are_given_the_evidence(
    topic: Seq<char>,
    items: Seq<EvidenceView>,
    i: int,
)
    requires
        0 <= i < items.len(),
    ensures
        ({
            let prompt = draft_prompt_for(topic, items);
            &&& prompt.system == WRITER@
            &&& !prompt.json
            &&& text::contains(prompt.user, "Topic: "@ + topic + "\n\nEvidence:\n\n"@)
            &&& text::contains(
                prompt.user,
                "["@ + items[i].id + "] "@ + items[i].title + "\n"@ + "    URL: "@ + items[i].url
                    + "\n"@ + "    CONTENT: "@ + evidence::excerpt(items[i].text) + "\n\n"@,
            )
        }),
{
    let user = draft_prompt_for(topic, items).user;
    let nothing = Seq::<char>::empty();
    let first = "Topic: "@ + topic + "\n\nEvidence:\n\n"@;
    let shown = evidence::exhibits(items);
    let end = "\n\nWrite the research brief now."@;
    assert(user =~= nothing + first + (shown + end));
    text::holds_its_middle(nothing, first, shown + end);
    evidence::writers_see_every_source(items, i);
    assert(user =~= first + shown + end);
    text::holds_within(
        first,
        shown,
        end,
        "["@ + items[i].id + "] "@ + items[i].title + "\n"@ + "    URL: "@ + items[i].url + "\n"@
            + "    CONTENT: "@ + evidence::excerpt(items[i].text) + "\n\n"@,
    );
}

/// The citation verifier is given the whole draft and a line for every source.
pub proof fn citers_are_given_the_draft(draft: Seq<char>, items: Seq<EvidenceView>)
    ensures
        ({
            let prompt = cite_prompt_for(draft, items);
            &&& prompt.system == CITER@
            &&& !prompt.json
            &&& text::contains(
                prompt.user,
                "\n\nDraft to cite:\n\n"@ + draft + "\n\nOutput the fully cited markdown."@,
            )
            &&& forall|i: int|
                0 <= i < items.len() ==> text::contains(
                    prompt.user,
                    "["@ + (#[trigger] items[i]).id + "] "@ + items[i].title + " — "@ + items[i].url,
                )
        }),
{
    let user = cite_prompt_for(draft, items).user;
    let nothing = Seq::<char>::empty();
    let lines = evidence::source_lines(items);
    let list = words::joined(lines, "\n"@);
    let first = "Sources available:\n"@;
    let last = "\n\nDraft to cite:\n\n"@ + draft + "\n\nOutput the fully cited markdown."@;
    assert(user =~= first + list + last + nothing);
    text::holds_its_middle(first + list, last, nothing);
    assert(user =~= first + list + last);
    assert forall|i: int| 0 <= i < items.len() implies text::contains(
        user,
        "["@ + (#[trigger] items[i]).id + "] "@ + items[i].title + " — "@ + items[i].url,
    ) by {
        words::joined_holds_each(lines, "\n"@, i);
        text::holds_within(first, list, last, lines[i]);
        evidence::source_lines_are_complete(items, i);
    }
}

/// What the review hears of a debate: every point that was agreed on, every point that was
/// not, each under its heading, and the summary.
pub proof fn debate_outcomes_are_complete(consensus: ConsensusView)
    ensures
        ({
            let outcome = debate_outcome(consensus);
            &&& text::contains(outcome, consensus.summary)
            &&& consensus.consensus_points.len() > 0 || consensus.dissensus_points.len() > 0 ==> {
                &&& text::contains(
                    outcome,
                    "Consensus points:\n"@ + words::joined(
                        dashed(consensus.consensus_points),
                        "\n"@,
                    ) + "\n\nDissensus points:\n"@,
                )
                &&& text::contains(
                    outcome,
                    "\n\nDissensus points:\n"@ + words::joined(
                        dashed(consensus.dissensus_points),
                        "\n"@,
                    ) + "\n\n"@,
                )
            }
            &&& forall|i: int|
                0 <= i < consensus.consensus_points.len() ==> text::contains(
                    outcome,
                    "- "@ + #[trigger] consensus.consensus_points[i],
                )
            &&& forall|i: int|
                0 <= i < consensus.dissensus_points.len() ==> text::contains(
                    outcome,
                    "- "@ + #[trigger] consensus.dissensus_points[i],
                )
        }),
{
    let outcome = debate_outcome(consensus);
    let nothing = Seq::<char>::empty();
    let agreed = dashed(consensus.consensus_points);
    let open = dashed(consensus.dissensus_points);
    if agreed.len() == 0 && open.len() == 0 {
        assert(outcome =~= nothing + consensus.summary + nothing);
        text::holds_its_middle(nothing, consensus.summary, nothing);
    } else {
        let a = "Consensus points:\n"@;
        let b = words::joined(agreed, "\n"@);
        let c = "\n\nDissensus points:\n"@;
        let d = words::joined(open, "\n"@);
        let e = "\n\n"@;
        let f = consensus.summary;
        assert(outcome =~= nothing + (a + b + c) + (d + e + f));
        text::holds_its_middle(nothing, a + b + c, d + e + f);
        assert(outcome =~= a + b + (c + d + e) + f);
        text::holds_its_middle(a + b, c + d + e, f);
        assert(outcome =~= a + b + c + d + e + f + nothing);
        text::holds_its_middle(a + b + c + d + e, f, nothing);
        assert forall|i: int| 0 <= i < consensus.consensus_points.len() implies text::contains(
            outcome,
            "- "@ + #[trigger] consensus.consensus_points[i],
        ) by {
            words::joined_holds_each(agreed, "\n"@, i);
            assert(outcome =~= a + b + (c + d + e + f));
            text::holds_within(a, b, c + d + e + f, agreed[i]);
        }
        assert forall|i: int| 0 <= i < consensus.dissensus_points.len() implies text::contains(
            outcome,
            "- "@ + #[trigger] consensus.dissensus_points[i],
        ) by {
            words::joined_holds_each(open, "\n"@, i);
            assert(outcome =~= a + b + c + d + (e + f));
            text::holds_within(a + b + c, d, e + f, open[i]);
        }
    }
}

/// The review is given the whole cited draft, a line for every source, and what came of the
/// debate.
pub proof fn reviews_are_given_the_cited_draft(
    cited: Seq<char>,
    items: Seq<EvidenceView>,
    consensus: ConsensusView,
)
    ensures
        ({
            let prompt = review_prompt_for(cited, items, consensus);
            &&& prompt.system == REVIEW_RULES@
            &&& !prompt.json
            &&& text::contains(
                prompt.user,
                "\n\nCited draft to review:\n\n"@ + cited
                    + "\n\nProduce the verification report and final document."@,
            )
            &&& text::contains(prompt.user, "\n\nDebate outcome:\n"@ + debate_outcome(consensus))
            &&& forall|i: int|
                0 <= i < items.len() ==> text::contains(
                    prompt.user,
                    "["@ + (#[trigger] items[i]).id + "] "@ + items[i].title + " — "@ + items[i].url,
                )
        }),
{
    let user = review_prompt_for(cited, items, consensus).user;
    let nothing = Seq::<char>::empty();
    let lines = evidence::source_lines(items);
    let list = words::joined(lines, "\n"@);
    let first = "Available sources:\n"@;
    let middle = "\n\nDebate outcome:\n"@ + debate_outcome(consensus);
    let last = "\n\nCited draft to review:\n\n"@ + cited
        + "\n\nProduce the verification report and final document."@;
    assert(user =~= first + list + middle + last + nothing);
    text::holds_its_middle(first + list + middle, last, nothing);
    assert(user =~= first + list + middle + last);
    text::holds_its_middle(first + list, middle, last);
    assert(user =~= first + list + (middle + last));
    assert forall|i: int| 0 <= i < items.len() implies text::contains(
        user,
        "["@ + (#[trigger] items[i]).id + "] "@ + items[i].title + " — "@ + items[i].url,
    ) by {
        words::joined_holds_each(lines, "\n"@, i);
        text::holds_within(first, list, middle + last, lines[i]);
        evidence::source_lines_are_complete(items, i);
    }
}

/// A reply to a review is parted at its first heading of the final document: the findings are
/// what stands before it, the document what stands behind it, both without the white space
/// around them. A reply without the heading is all findings, and the draft stays.
pub proof fn reviews_are_parted_at_the_heading(
    findings: Seq<char>,
    document: Seq<char>,
    cited: Seq<char>,
)
    requires
        text::first(findings + "# Final Document"@ + document, "# Final Document"@) == Some(
            findings.len() as int,
        ),
    ensures
        ({
            let raw = findings + "# Final Document"@ + document;
            &&& review_part(raw) == words::trim(findings)
            &&& words::trim(document).len() > 0 ==> final_part(raw, cited) == words::trim(document)
            &&& words::trim(document).len() == 0 ==> final_part(raw, cited) == cited
        }),
{
    let raw = findings + "# Final Document"@ + document;
    let width = "# Final Document"@.len() as int;
    assert(raw.take(findings.len() as int) =~= findings);
    assert(raw.skip(findings.len() + width) =~= document);
    words::trim_is_idempotent(document);
}

/// A reply without the heading of the final document is all findings, and the draft stays.
pub proof fn reviews_without_a_heading_are_findings(raw: Seq<char>, cited: Seq<char>)
    requires
        !text::contains(raw, "# Final Document"@),
    ensures
        review_part(raw) == raw,
        final_part(raw, cited) == cited,
{
    text::contains_iff_first(raw, "# Final Document"@);
}

/// The provenance gives the topic, the date, how many sources were accepted, every one that
/// was refused, and the path of every intermediate file under its own label.
#[verifier::rlimit(60)]
pub proof fn provenance_is_complete(
    topic: Seq<char>,
    date: Seq<char>,
    accepted: nat,
    rejected: Seq<Seq<char>>,
    plan_path: Seq<char>,
    notes_path: Seq<char>,
    draft_path: Seq<char>,
    cited_path: Seq<char>,
    review_path: Seq<char>,
)
    ensures
        ({
            let document = provenance(
                topic,
                date,
                accepted,
                rejected,
                plan_path,
                notes_path,
                draft_path,
                cited_path,
                review_path,
            );
            &&& text::contains(document, "# Provenance: "@ + topic + "\n\n"@)
            &&& text::contains(document, "- **Date:** "@ + date + "\n"@)
            &&& text::contains(
                document,
                "- **Sources accepted:** "@ + number::decimal(accepted) + "\n"@,
            )
            &&& rejected.len() == 0 ==> text::contains(
                document,
                "- **Sources rejected:** "@ + "none"@ + "\n"@,
            )
            &&& rejected.len() > 0 ==> text::contains(
                document,
                "- **Sources rejected:** "@ + words::joined(rejected, ", "@) + "\n"@,
            )
            &&& text::contains(document, "- **Plan:** "@ + plan_path + "\n"@)
            &&& text::contains(document, "- **Research files:** "@ + notes_path + "\n"@)
            &&& text::contains(document, "- **Draft:** "@ + draft_path + "\n"@)
            &&& text::contains(document, "- **Cited draft:** "@ + cited_path + "\n"@)
            &&& text::contains(document, "- **Verification notes:** "@ + review_path + "\n"@)
        }),
{
    let document = provenance(
        topic,
        date,
        accepted,
        rejected,
        plan_path,
        notes_path,
        draft_path,
        cited_path,
        review_path,
    );
    let refused = if rejected.len() == 0 {
        "none"@
    } else {
        words::joined(rejected, ", "@)
    };
    let parts = seq![
        "# Provenance: "@ + topic + "\n\n"@,
        "- **Date:** "@ + date + "\n"@,
        "- **Rounds:** 1 research round (direct search, no subagents)\n"@,
        "- **Sources accepted:** "@ + number::decimal(accepted) + "\n"@,
        "- **Sources rejected:** "@ + refused + "\n"@,
        "- **Verification:** PASS\n"@,
        "- **Plan:** "@ + plan_path + "\n"@,
        "- **Research files:** "@ + notes_path + "\n"@,
        "- **Draft:** "@ + draft_path + "\n"@,
        "- **Cited draft:** "@ + cited_path + "\n"@,
        "- **Verification notes:** "@ + review_path + "\n"@,
        "\n### Notes\n\n- Generated by research_mcp (Rust) — Feynman deepresearch port.\n"@,
        "- Direct search mode: no researcher subagents; single-pass drafting with citation and review passes.\n"@,
    ];
    assert(document =~= parts[0] + parts[1] + parts[2] + parts[3] + parts[4] + parts[5] + parts[6]
        + parts[7] + parts[8] + parts[9] + parts[10] + parts[11] + parts[12]);
    let a = parts[0] + parts[1] + parts[2] + parts[3] + parts[4];
    let b = parts[5] + parts[6] + parts[7] + parts[8];
    let c = parts[9] + parts[10] + parts[11] + parts[12];
    let nothing = Seq::<char>::empty();
    assert(document =~= a + b + c);
    assert(document =~= nothing + a + (b + c));
    assert(document =~= a + b + c + nothing);
    assert(a =~= nothing + parts[0] + (parts[1] + parts[2] + parts[3] + parts[4]));
    text::holds_its_middle(nothing, parts[0], parts[1] + parts[2] + parts[3] + parts[4]);
    text::holds_within(nothing, a, b + c, parts[0]);
    assert(a =~= parts[0] + parts[1] + (parts[2] + parts[3] + parts[4]));
    text::holds_its_middle(parts[0], parts[1], parts[2] + parts[3] + parts[4]);
    text::holds_within(nothing, a, b + c, parts[1]);
    text::holds_its_middle(parts[0] + parts[1] + parts[2], parts[3], parts[4]);
    text::holds_within(nothing, a, b + c, parts[3]);
    assert(a =~= parts[0] + parts[1] + parts[2] + parts[3] + parts[4] + nothing);
    text::holds_its_middle(parts[0] + parts[1] + parts[2] + parts[3], parts[4], nothing);
    text::holds_within(nothing, a, b + c, parts[4]);
    assert(b =~= parts[5] + parts[6] + (parts[7] + parts[8]));
    text::holds_its_middle(parts[5], parts[6], parts[7] + parts[8]);
    text::holds_within(a, b, c, parts[6]);
    text::holds_its_middle(parts[5] + parts[6], parts[7], parts[8]);
    text::holds_within(a, b, c, parts[7]);
    assert(b =~= parts[5] + parts[6] + parts[7] + parts[8] + nothing);
    text::holds_its_middle(parts[5] + parts[6] + parts[7], parts[8], nothing);
    text::holds_within(a, b, c, parts[8]);
    assert(c =~= nothing + parts[9] + (parts[10] + parts[11] + parts[12]));
    text::holds_its_middle(nothing, parts[9], parts[10] + parts[11] + parts[12]);
    text::holds_within(a + b, c, nothing, parts[9]);
    assert(c =~= parts[9] + parts[10] + (parts[11] + parts[12]));
    text::holds_its_middle(parts[9], parts[10], parts[11] + parts[12]);
    text::holds_within(a + b, c, nothing, parts[10]);
}

/// The section on the debate gives the means, a row for every agent, every point that was
/// agreed on, every point that was not, and every interview with its question and answer.
#[verifier::rlimit(50)]
pub proof fn debate_sections_are_complete(debate: DebateView)
    ensures
        ({
            let section = debate_section(debate);
            let consensus = debate.consensus;
            &&& text::contains(section, DEBATE_HEADING@)
            &&& text::contains(
                section,
                "mean **"@ + consensus.mean_position.text + "**, spread **"@ + consensus.spread.text
                    + "**, convergence **"@ + consensus.convergence.text + "** (positive"@,
            )
            &&& forall|i: int|
                0 <= i < consensus.final_positions.len() ==> text::contains(
                    section,
                    "| "@ + (#[trigger] consensus.final_positions[i]).agent + " | "@
                        + consensus.final_positions[i].position.text + " | "@
                        + consensus.final_positions[i].confidence.text + " |\n"@,
                )
            &&& consensus.consensus_points.len() > 0 ==> text::contains(
                section,
                "\n**Agents agreed on:**\n"@ + plan::bullets(consensus.consensus_points),
            )
            &&& consensus.dissensus_points.len() > 0 ==> text::contains(
                section,
                "\n**Agents disagreed on:**\n"@ + plan::bullets(consensus.dissensus_points),
            )
            &&& forall|i: int|
                0 <= i < debate.interviews.len() ==> text::contains(
                    section,
                    "\n*"@ + (#[trigger] debate.interviews[i]).question + "*\n\n**"@
                        + debate.interviews[i].agent + ":** "@ + debate.interviews[i].answer + "\n"@,
                )
        }),
{
    let section = debate_section(debate);
    let consensus = debate.consensus;
    let nothing = Seq::<char>::empty();
    let start = "\n\n---\n\n## Agent Debate Summary\n\n"@;
    let intro = "Five expert agents with distinct beliefs debated this brief before review. "@;
    let means = "Final positions: mean **"@ + consensus.mean_position.text + "**, spread **"@
        + consensus.spread.text + "**, convergence **"@ + consensus.convergence.text
        + "** (positive = converged).\n\n"@;
    let head = "| Agent | Position | Confidence |\n|---|---|---|\n"@;
    let rows = position_rows(consensus.final_positions);
    let agreed = titled("\n**Agents agreed on:**\n"@, consensus.consensus_points);
    let open = titled("\n**Agents disagreed on:**\n"@, consensus.dissensus_points);
    let talks = interview_section(debate.interviews);
    let end = "\n*Debate findings were advisory inputs to the review pass; each was verified against sources before inclusion.*\n"@;
    let front = start + intro + means + head;
    assert(section =~= start + intro + means + head + rows + agreed + open + talks + end);
    debate_section_is_added_once(nothing, debate, debate);
    reveal_strlit("## Agent Debate Summary");
    if text::contains(nothing, DEBATE_HEADING@) {
        let i = choose|i: int| #[trigger] text::occurs_at(nothing, DEBATE_HEADING@, i);
    }
    assert(nothing + section =~= section);
    means_are_shown(consensus);
    assert(section =~= start + intro + means + (head + rows + agreed + open + talks + end));
    text::holds_within(
        start + intro,
        means,
        head + rows + agreed + open + talks + end,
        "mean **"@ + consensus.mean_position.text + "**, spread **"@ + consensus.spread.text
            + "**, convergence **"@ + consensus.convergence.text + "** (positive"@,
    );
    assert forall|i: int| 0 <= i < consensus.final_positions.len() implies text::contains(
        section,
        "| "@ + (#[trigger] consensus.final_positions[i]).agent + " | "@
            + consensus.final_positions[i].position.text + " | "@
            + consensus.final_positions[i].confidence.text + " |\n"@,
    ) by {
        rows_hold_each(consensus.final_positions, i);
        assert(section =~= front + rows + (agreed + open + talks + end));
        text::holds_within(
            front,
            rows,
            agreed + open + talks + end,
            position_row(consensus.final_positions[i]),
        );
    }
    assert(section =~= front + rows + agreed + (open + talks + end));
    text::holds_its_middle(front + rows, agreed, open + talks + end);
    assert(section =~= front + rows + agreed + open + (talks + end));
    text::holds_its_middle(front + rows + agreed, open, talks + end);
    assert forall|i: int| 0 <= i < debate.interviews.len() implies text::contains(
        section,
        "\n*"@ + (#[trigger] debate.interviews[i]).question + "*\n\n**"@
            + debate.interviews[i].agent + ":** "@ + debate.interviews[i].answer + "\n"@,
    ) by {
        interviews_hold_each(debate.interviews, i);
        let title = "\n**Agent interviews (open questions):**\n"@;
        let all = interview_texts(debate.interviews);
        assert(talks =~= title + all + nothing);
        text::holds_within(title, all, nothing, interview_text(debate.interviews[i]));
        assert(section =~= front + rows + agreed + open + talks + end);
        text::holds_within(
            front + rows + agreed + open,
            talks,
            end,
            interview_text(debate.interviews[i]),
        );
    }
}

spec fn position_row(position: PositionView) -> Seq<char> {
    "| "@ + position.agent + " | "@ + position.position.text + " | "@ + position.confidence.text
        + " |\n"@
}

spec fn interview_text(interview: AnswerView) -> Seq<char> {
    "\n*"@ + interview.question + "*\n\n**"@ + interview.agent + ":** "@ + interview.answer + "\n"@
}

proof fn means_are_shown(consensus: ConsensusView)
    ensures
        text::contains(
            "Final positions: mean **"@ + consensus.mean_position.text + "**, spread **"@
                + consensus.spread.text + "**, convergence **"@ + consensus.convergence.text
                + "** (positive = converged).\n\n"@,
            "mean **"@ + consensus.mean_position.text + "**, spread **"@ + consensus.spread.text
                + "**, convergence **"@ + consensus.convergence.text + "** (positive"@,
        ),
{
    reveal_strlit("Final positions: mean **");
    reveal_strlit("Final positions: ");
    reveal_strlit("mean **");
    reveal_strlit("** (positive = converged).\n\n");
    reveal_strlit("** (positive");
    let end = "** (positive = converged).\n\n"@;
    assert("Final positions: mean **"@ =~= "Final positions: "@ + "mean **"@);
    assert(end =~= "** (positive"@ + end.skip(12));
    let part = "mean **"@ + consensus.mean_position.text + "**, spread **"@ + consensus.spread.text
        + "**, convergence **"@ + consensus.convergence.text + "** (positive"@;
    text::holds_its_middle("Final positions: "@, part, end.skip(12));
    assert("Final positions: "@ + part + end.skip(12) =~= "Final positions: mean **"@
        + consensus.mean_position.text + "**, spread **"@ + consensus.spread.text
        + "**, convergence **"@ + consensus.convergence.text + end);
}

proof fn rows_hold_each(positions: Seq<PositionView>, i: int)
    requires
        0 <= i < positions.len(),
    ensures
        text::contains(position_rows(positions), position_row(positions[i])),
    decreases positions.len(),
{
    let rest = position_rows(positions.drop_last());
    let last = position_row(positions.last());
    let nothing = Seq::<char>::empty();
    if i == positions.len() - 1 {
        assert(position_rows(positions) =~= rest + last + nothing);
        text::holds_its_middle(rest, last, nothing);
    } else {
        rows_hold_each(positions.drop_last(), i);
        assert(positions.drop_last()[i] == positions[i]);
        assert(position_rows(positions) =~= nothing + rest + last);
        text::holds_within(nothing, rest, last, position_row(positions[i]));
    }
}

proof fn interviews_hold_each(interviews: Seq<AnswerView>, i: int)
    requires
        0 <= i < interviews.len(),
    ensures
        text::contains(interview_texts(interviews), interview_text(interviews[i])),
    decreases interviews.len(),
{
    let rest = interview_texts(interviews.drop_last());
    let last = interview_text(interviews.last());
    let nothing = Seq::<char>::empty();
    if i == interviews.len() - 1 {
        assert(interview_texts(interviews) =~= rest + last + nothing);
        text::holds_its_middle(rest, last, nothing);
    } else {
        interviews_hold_each(interviews.drop_last(), i);
        assert(interviews.drop_last()[i] == interviews[i]);
        assert(interview_texts(interviews) =~= nothing + rest + last);
        text::holds_within(nothing, rest, last, interview_text(interviews[i]));
    }
}

} // verus!
