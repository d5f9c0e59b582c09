//! The debate.

use research_mcp::debate::{
    argument_prompt, build_source_list, build_summary, condense_draft, final_positions, initial_agents,
    interview_prompt, moderator_prompt, most_confident, points_from, read_agreement, read_belief, update_prompt,
    AgentPosition, Agreement, Debate, DebateAction, DebateArgument, DebateEvent, DebatePoint, Measure, DEFAULT_ROUNDS,
};
use research_mcp::json::{Entry, Member};
use research_mcp::workflow::evidence::EvidenceItem;

fn measure(value: f32) -> Measure {
    Measure { bits: value.to_bits(), text: format!("{:.2}", value) }
}

fn signed(value: f32) -> Measure {
    Measure { bits: value.to_bits(), text: format!("{:+.2}", value) }
}

fn source() -> EvidenceItem {
    EvidenceItem {
        id: "S1".into(),
        title: "One".into(),
        url: "https://one.org".into(),
        snippet: String::new(),
        text: "text".into(),
    }
}

#[test]
fn initial_agents_cover_spectrum() {
    let agents = initial_agents();
    assert_eq!(agents.len(), 5);
    let positions: Vec<f32> = agents.iter().map(|a| f32::from_bits(a.position.bits)).collect();
    let min = positions.iter().cloned().fold(f32::MAX, f32::min);
    let max = positions.iter().cloned().fold(f32::MIN, f32::max);
    assert!(min < 0.0, "at least one negative position, got {min}");
    assert!(max > 0.0, "at least one positive position, got {max}");
    // All five have distinct stances.
    let names: std::collections::HashSet<&str> = agents.iter().map(|a| a.name.as_str()).collect();
    assert_eq!(names.len(), 5);
}

#[test]
fn initial_beliefs_are_what_they_say() {
    let believed: Vec<(f32, f32)> = initial_agents()
        .iter()
        .map(|a| (f32::from_bits(a.position.bits), f32::from_bits(a.confidence.bits)))
        .collect();
    assert_eq!(believed, vec![(-0.6, 0.6), (0.6, 0.5), (0.1, 0.7), (0.2, 0.5), (-0.2, 0.5)]);
    for a in initial_agents() {
        assert_eq!(a.position.text, format!("{:.2}", f32::from_bits(a.position.bits)));
        assert_eq!(a.confidence.text, format!("{:.2}", f32::from_bits(a.confidence.bits)));
    }
}

#[test]
fn build_summary_reports_spread() {
    let positions = vec![
        AgentPosition { agent: "a".into(), position: measure(-0.5), confidence: measure(0.6) },
        AgentPosition { agent: "b".into(), position: measure(0.5), confidence: measure(0.6) },
    ];
    let s = build_summary(&positions, &measure(0.0), &measure(1.0), &signed(0.2), 0);
    assert!(s.contains("mean position 0.00"));
    assert!(s.contains("spread 1.00"));
    assert!(s.contains("convergence +0.20"));
}

#[test]
fn summaries_read_in_full() {
    let positions = vec![AgentPosition { agent: "a".into(), position: measure(-0.5), confidence: measure(0.6) }];
    assert_eq!(
        build_summary(&positions, &measure(-0.5), &measure(0.0), &signed(-0.1), 1),
        "Debate concluded: mean position -0.50, spread 0.00, convergence -0.10 (1 of 1 agents are within 0.3 of the mean).\n\
         Final positions:\n  - a: -0.50 (conf 0.60)\n"
    );
}

#[test]
fn condense_extracts_sections() {
    let draft = "# Title\n\n## Executive Summary\n\nKey findings here.\n\n## Findings\n\nLong content.\n\n## Open Questions\n\nQ1 remains.\n\n## Sources\n\n[S1] url";
    let c = condense_draft(draft);
    assert!(c.contains("## Executive Summary"));
    assert!(c.contains("Key findings here."));
    assert!(c.contains("## Open Questions"));
    assert!(c.contains("Q1 remains."));
    assert!(c.contains("## Sources"));
    assert!(!c.contains("Long content."), "findings section should be stripped");
}

#[test]
fn condense_falls_back_to_head() {
    let draft = "No structured sections here. Just text. ".repeat(200);
    let c = condense_draft(&draft);
    assert!(c.len() <= 6000);
    assert!(!c.is_empty());
}

#[test]
fn condensed_drafts_in_full() {
    assert_eq!(condense_draft("## Executive Summary\nA\n## B\nC\n## Sources\nS"), "## Executive Summary\nA\n\n## Sources\nS");
    assert_eq!(condense_draft(&"x".repeat(3000)), "x".repeat(2000));
    assert_eq!(condense_draft(&format!("## Sources{}", "y".repeat(9000))).chars().count(), 6000);
    assert_eq!(condense_draft(""), "");
}

#[test]
fn sources_are_listed() {
    assert_eq!(build_source_list(&[source()]), "[S1] One — https://one.org\n");
    assert_eq!(build_source_list(&[]), "");
}

#[test]
fn prompts_show_beliefs() {
    let agents = initial_agents();
    let p = argument_prompt(&agents[0], "T", "D", "L");
    assert!(!p.json);
    assert!(p.system.content.contains("under 150 words"));
    assert_eq!(
        p.user.content,
        "Topic: T\n\nSources available:\nL\n\nCited draft under debate:\n\nD\n\n\
         # YOUR CURRENT BELIEFS AND STANCE\n- Stance: skeptical, demands strong evidence for every claim\n\
         - Position on the topic: -0.60 (-1 strongly against, +1 strongly for)\n- Confidence: 0.60\n\nWrite your argument."
    );
    let i = interview_prompt(&agents[0], "T", "Q");
    assert!(i.user.content.contains("Open point:\nQ"));
    assert!(i.system.content.contains("under 150 words"));
}

#[test]
fn agents_read_the_others_only() {
    let agents = initial_agents();
    let said = |id: &str, text: &str| DebateArgument { agent: id.into(), round: 1, text: text.into() };
    let p = update_prompt(&agents[1], &vec![said("A1", "one"), said("A2", "two"), said("A3", "three")]);
    assert!(p.json);
    assert!(p.user.content.contains("[A1]: one\n\n[A3]: three"));
    assert!(!p.user.content.contains("two"));
    let m = moderator_prompt("T", &final_positions(&agents), &vec![vec![said("A1", "one")], vec![said("A2", "two")]]);
    assert!(m.user.content.contains("The Skeptic: position -0.60, confidence 0.60\nThe Advocate"));
    assert!(m.user.content.contains("[R1 A1]: one\n[R1 A2]: two"));
}

#[test]
fn beliefs_are_read_from_replies() {
    let b = read_belief("{\"position\": 0.25, \"confidence\": 1, \"reason\": \"r\"}").unwrap();
    assert_eq!((b.position.as_deref(), b.confidence.as_deref()), (Some("0.25"), Some("1")));
    let b = read_belief("```json\n{\"position\": -1}\n```").unwrap();
    assert_eq!((b.position.as_deref(), b.confidence.as_deref()), (Some("-1"), None));
    let b = read_belief("{\"position\": \"high\"}").unwrap();
    assert_eq!(b.position, None);
    assert_eq!(read_belief("I am sure").unwrap_err(), "parse belief update JSON");
}

#[test]
fn points_are_read_from_replies() {
    let a = read_agreement("{\"consensus_points\": [\"a\", 1, \"b\"], \"dissensus_points\": \"none\"}").unwrap();
    assert_eq!(a.consensus_points, vec!["a", "b"]);
    assert!(a.dissensus_points.is_empty());
    let a = read_agreement("``` {\"dissensus_points\": [\"d\"]} ```").unwrap();
    assert_eq!(a.dissensus_points, vec!["d"]);
    assert!(read_agreement("[]").unwrap().consensus_points.is_empty());
    assert_eq!(read_agreement("nothing").unwrap_err(), "parse consensus JSON");
    let entries = vec![Entry { key: "consensus_points".into(), member: Member::Items(vec![Some("x".into()), None]) }];
    assert_eq!(points_from(&entries).consensus_points, vec!["x"]);
}

#[test]
fn the_most_confident_agents_are_found() {
    let mut agents = initial_agents();
    assert_eq!(most_confident(&agents, None), Some(2));
    assert_eq!(most_confident(&agents, Some(2)), Some(0));
    agents[4].confidence = measure(0.7);
    assert_eq!(most_confident(&agents, None), Some(2));
    assert_eq!(most_confident(&agents, Some(2)), Some(4));
    agents[2].confidence = measure(-0.0);
    assert_eq!(most_confident(&agents, None), Some(4));
    assert_eq!(most_confident(&vec![], None), None);
}

fn run(rounds: usize, dissensus: Vec<String>) -> (Debate, Vec<String>) {
    let mut debate = Debate::open("T", "draft", &[source()], rounds);
    let mut asked: Vec<String> = Vec::new();
    loop {
        match debate.needs() {
            DebateAction::Argue(_) => {
                asked.push("argue".into());
                debate.step(DebateEvent::Said(format!("argument {}", asked.len())));
            }
            DebateAction::Update(_) => {
                asked.push("update".into());
                debate.step(DebateEvent::Believed { position: measure(0.0), confidence: measure(0.5) });
            }
            DebateAction::Measure => debate.step(DebateEvent::Measured),
            DebateAction::Conclude => debate.step(DebateEvent::Concluded {
                mean: measure(0.0),
                spread: measure(0.0),
                convergence: signed(0.0),
                near: 5,
            }),
            DebateAction::Moderate(_) => {
                asked.push("moderate".into());
                debate.step(DebateEvent::Agreed(Agreement {
                    consensus_points: vec!["c".into()],
                    dissensus_points: dissensus.clone(),
                }));
            }
            DebateAction::Interview(p) => {
                asked.push("interview".into());
                assert!(p.user.content.contains("Open point"));
                debate.step(DebateEvent::Said("answer".into()));
            }
            DebateAction::Finish => return (debate, asked),
        }
    }
}

#[test]
fn debates_run_their_course() {
    let (debate, asked) = run(DEFAULT_ROUNDS, vec!["d1".into(), "d2".into(), "d3".into()]);
    assert_eq!(asked.len(), 2 * 10 + 1 + 2);
    assert_eq!(asked[4..6], ["argue".to_string(), "update".to_string()]);
    let result = debate.finish().unwrap();
    assert_eq!(result.rounds.len(), 2);
    assert_eq!(result.rounds[1].len(), 5);
    assert_eq!(result.rounds[1][3].agent, "A4");
    assert_eq!(result.rounds[1][3].round, 2);
    assert_eq!(result.agents[0].position.text, "0.00");
    assert_eq!(result.consensus.final_positions[2].agent, "The Methodologist");
    assert_eq!(result.consensus.consensus_points, vec!["c"]);
    assert_eq!(result.interviews.len(), 2);
    assert_eq!(result.interviews[0].agent, "The Skeptic");
    assert_eq!(result.interviews[0].question, "d1");
    assert_eq!(result.interviews[1].agent, "The Advocate");
    assert_eq!(result.interviews[1].question, "d2");
}

#[test]
fn nothing_open_no_interviews() {
    let (debate, asked) = run(1, vec![]);
    assert_eq!(asked.len(), 11);
    assert!(debate.finish().unwrap().interviews.is_empty());
    let (debate, _) = run(1, vec!["only".into()]);
    let result = debate.finish().unwrap();
    assert_eq!(result.interviews[1].question, "only");
    let (debate, asked) = run(0, vec![]);
    assert_eq!(asked, vec!["moderate"]);
    assert!(debate.finish().unwrap().rounds.is_empty());
}

#[test]
fn misplaced_events_change_nothing() {
    let mut debate = Debate::open("T", "draft", &[], 1);
    debate.step(DebateEvent::Measured);
    debate.step(DebateEvent::Agreed(Agreement { consensus_points: vec![], dissensus_points: vec![] }));
    assert_eq!(debate.point, DebatePoint::Argue(0));
    assert!(debate.finish().is_none());
}
