//! Evidence: the accepted sources of a run, and how they are shown.

use vstd::prelude::*;

use crate::text;
use crate::words;

verus! {

/// An accepted source.
#[derive(Debug)]
pub struct EvidenceItem {
    pub id: String,
    pub title: String,
    pub url: String,
    pub snippet: String,
    pub text: String,
}

/// An accepted source with its texts as sequences of characters.
pub struct EvidenceView {
    pub id: Seq<char>,
    pub title: Seq<char>,
    pub url: Seq<char>,
    pub snippet: Seq<char>,
    pub text: Seq<char>,
}

impl View for EvidenceItem {
    type V = EvidenceView;

    open spec fn view(&self) -> EvidenceView {
        EvidenceView {
            id: self.id@,
            title: self.title@,
            url: self.url@,
            snippet: self.snippet@,
            text: self.text@,
        }
    }
}

impl Clone for EvidenceItem {
    fn clone(&self) -> (copy: Self)
        ensures
            copy == *self,
    {
        EvidenceItem {
            id: self.id.clone(),
            title: self.title.clone(),
            url: self.url.clone(),
            snippet: self.snippet.clone(),
            text: self.text.clone(),
        }
    }
}

/// One source in the research notes.
pub open spec fn note(item: EvidenceView) -> Seq<char> {
    "## ["@ + item.id + "] "@ + item.title + "\n"@ + "URL: "@ + item.url + "\n\n"@ + (
    if item.snippet.len() > 0 {
        "Snippet: "@ + item.snippet + "\n\n"@
    } else {
        Seq::empty()
    }) + item.text + "\n\n"@
}

/// The sources in the research notes.
pub open spec fn notes(items: Seq<EvidenceView>) -> Seq<char>
    decreases items.len(),
{
    if items.len() == 0 {
        "# Research Notes (direct)\n\n"@
    } else {
        notes(items.drop_last()) + note(items.last())
    }
}

fn note_of(item: &EvidenceItem) -> (r: String)
    ensures
        r@ == note(item@),
{
    let mut s = "## [".to_owned();
    s.append(item.id.as_str());
    s.append("] ");
    s.append(item.title.as_str());
    s.append("\n");
    s.append("URL: ");
    s.append(item.url.as_str());
    s.append("\n\n");
    let ghost head = s@;
    if !text::blank(item.snippet.as_str()) {
        let mut snippet = "Snippet: ".to_owned();
        snippet.append(item.snippet.as_str());
        snippet.append("\n\n");
        s.append(snippet.as_str());
    } else {
        assert(head + Seq::<char>::empty() =~= head);
    }
    s.append(item.text.as_str());
    s.append("\n\n");
    s
}

/// The research notes: every source in full.
pub fn build_research_notes(evidence: &[EvidenceItem]) -> (r: String)
    ensures
        r@ == notes(text::views(evidence@)),
{
    let ghost all = text::views(evidence@);
    let mut s = "# Research Notes (direct)\n\n".to_owned();
    assert(all.take(0) =~= Seq::<EvidenceView>::empty());
    for i in 0..evidence.len()
        invariant
            all == text::views(evidence@),
            s@ == notes(all.take(i as int)),
    {
        assert(all.take(i + 1).drop_last() == all.take(i as int));
        assert(all.take(i + 1).last() == evidence@[i as int]@);
        s.append(note_of(&evidence[i]).as_str());
    }
    assert(all.take(all.len() as int) == all);
    s
}

/// What marks a text that holds a paper in full.
pub const FULL_TEXT: &'static str = "--- FULL TEXT";

/// The size from which a full paper is shown at length.
pub const LARGE: usize = 20_000;

/// The most that is shown of a full paper.
pub const LARGE_EXCERPT: usize = 60_000;

/// The most that is shown of any other source.
pub const SMALL_EXCERPT: usize = 3000;

/// The part of a source that the writer sees: much of a large paper in full, little of
/// anything else.
pub open spec fn excerpt(text: Seq<char>) -> Seq<char> {
    if text::contains(text, FULL_TEXT@) && text.len() > LARGE {
        words::cut(text, LARGE_EXCERPT as nat)
    } else {
        words::cut(text, SMALL_EXCERPT as nat)
    }
}

fn excerpt_of(text: &str) -> (r: String)
    ensures
        r@ == excerpt(text@),
{
    let chars = text::chars_of(text);
    if chars.len() > LARGE && text::has(text, FULL_TEXT) {
        words::shortened(text, LARGE_EXCERPT)
    } else {
        words::shortened(text, SMALL_EXCERPT)
    }
}

/// What the writer sees of a source is a start of it, bounded for every source, and tightly
/// for one that is not a large paper in full.
pub proof fn excerpts_are_bounded(text: Seq<char>)
    ensures
        excerpt(text).is_prefix_of(text),
        excerpt(text).len() <= LARGE_EXCERPT,
        !(text::contains(text, FULL_TEXT@) && text.len() > LARGE) ==> excerpt(text).len()
            <= SMALL_EXCERPT,
        text::contains(text, FULL_TEXT@) && LARGE < text.len() <= LARGE_EXCERPT ==> excerpt(text)
            == text,
{
}

/// One source as the writer sees it.
pub open spec fn exhibit(item: EvidenceView) -> Seq<char> {
    "["@ + item.id + "] "@ + item.title + "\n"@ + "    URL: "@ + item.url + "\n"@
        + "    CONTENT: "@ + excerpt(item.text) + "\n\n"@
}

/// The sources as the writer sees them.
pub open spec fn exhibits(items: Seq<EvidenceView>) -> Seq<char>
    decreases items.len(),
{
    if items.len() == 0 {
        Seq::empty()
    } else {
        exhibits(items.drop_last()) + exhibit(items.last())
    }
}

fn exhibit_of(item: &EvidenceItem) -> (r: String)
    ensures
        r@ == exhibit(item@),
{
    let mut s = "[".to_owned();
    s.append(item.id.as_str());
    s.append("] ");
    s.append(item.title.as_str());
    s.append("\n");
    s.append("    URL: ");
    s.append(item.url.as_str());
    s.append("\n");
    s.append("    CONTENT: ");
    s.append(excerpt_of(item.text.as_str()).as_str());
    s.append("\n\n");
    s
}

/// The sources as the writer sees them.
pub fn build_evidence_block(evidence: &[EvidenceItem]) -> (r: String)
    ensures
        r@ == exhibits(text::views(evidence@)),
{
    let ghost all = text::views(evidence@);
    let mut s = String::new();
    assert(all.take(0) =~= Seq::<EvidenceView>::empty());
    for i in 0..evidence.len()
        invariant
            all == text::views(evidence@),
            s@ == exhibits(all.take(i as int)),
    {
        assert(all.take(i + 1).drop_last() == all.take(i as int));
        assert(all.take(i + 1).last() == evidence@[i as int]@);
        s.append(exhibit_of(&evidence[i]).as_str());
    }
    assert(all.take(all.len() as int) == all);
    s
}

/// A source in a list of sources.
pub open spec fn source_line(item: EvidenceView) -> Seq<char> {
    "["@ + item.id + "] "@ + item.title + " — "@ + item.url
}

/// The lines of a list of sources.
pub open spec fn source_lines(items: Seq<EvidenceView>) -> Seq<Seq<char>> {
    items.map_values(|item: EvidenceView| source_line(item))
}

/// A source in a list of sources.
pub fn source_line_of(item: &EvidenceItem) -> (r: String)
    ensures
        r@ == source_line(item@),
{
    let mut s = "[".to_owned();
    s.append(item.id.as_str());
    s.append("] ");
    s.append(item.title.as_str());
    s.append(" — ");
    s.append(item.url.as_str());
    s
}

/// The lines of a list of sources.
pub fn source_lines_of(evidence: &[EvidenceItem]) -> (r: Vec<String>)
    ensures
        text::views(r@) == source_lines(text::views(evidence@)),
{
    let ghost wanted = source_lines(text::views(evidence@));
    let mut out: Vec<String> = Vec::new();
    for i in 0..evidence.len()
        invariant
            wanted == source_lines(text::views(evidence@)),
            text::views(out@) == wanted.take(i as int),
    {
        let line = source_line_of(&evidence[i]);
        let ghost before = out@;
        out.push(line);
        proof {
            assert(wanted[i as int] == line@);
            assert(text::views(out@) =~= text::views(before).push(line@));
            assert(wanted.take(i + 1) =~= wanted.take(i as int).push(wanted[i as int]));
        }
    }
    assert(wanted.take(wanted.len() as int) =~= wanted);
    out
}

// ── laws ────────────────────────────────────────────────────────────

/// A line of a list of sources gives the source's name, its title and its address, each in
/// its place.
pub proof fn source_lines_name_the_source(item: EvidenceView)
    ensures
        source_line(item) == "["@ + item.id + "] "@ + item.title + " — "@ + item.url,
{
}

/// A list of sources has a line for each source, in their order.
pub proof fn source_lines_are_complete(items: Seq<EvidenceView>, i: int)
    requires
        0 <= i < items.len(),
    ensures
        source_lines(items).len() == items.len(),
        source_lines(items)[i] == "["@ + items[i].id + "] "@ + items[i].title + " — "@
            + items[i].url,
{
}

/// Of a source the writer sees as much as is allowed: all of it where it fits, else as many
/// characters from its start as the limit for its kind.
pub proof fn excerpts_are_as_long_as_allowed(text: Seq<char>)
    ensures
        ({
            let limit: int = if text::contains(text, "--- FULL TEXT"@) && text.len() > 20_000 {
                60_000
            } else {
                3000
            };
            excerpt(text) == if text.len() <= limit {
                text
            } else {
                text.take(limit)
            }
        }),
{
}

/// The writer sees every source: its name and title, its address, and what is shown of its
/// text.
pub proof fn writers_see_every_source(items: Seq<EvidenceView>, i: int)
    requires
        0 <= i < items.len(),
    ensures
        text::contains(
            exhibits(items),
            "["@ + items[i].id + "] "@ + items[i].title + "\n"@ + "    URL: "@ + items[i].url
                + "\n"@ + "    CONTENT: "@ + excerpt(items[i].text) + "\n\n"@,
        ),
    decreases items.len(),
{
    let rest = exhibits(items.drop_last());
    let last = exhibit(items.last());
    let nothing = Seq::<char>::empty();
    if i == items.len() - 1 {
        text::holds_its_middle(rest, last, nothing);
        assert(exhibits(items) =~= rest + last + nothing);
    } else {
        writers_see_every_source(items.drop_last(), i);
        assert(items.drop_last()[i] == items[i]);
        assert(exhibits(items) =~= nothing + rest + last);
        text::holds_within(nothing, rest, last, exhibit(items[i]));
    }
}

/// The research notes hold every source in full: its name and title, its address, its snippet
/// where it has one, and all of its text.
pub proof fn notes_hold_every_source(items: Seq<EvidenceView>, i: int)
    requires
        0 <= i < items.len(),
    ensures
        text::contains(
            notes(items),
            "## ["@ + items[i].id + "] "@ + items[i].title + "\n"@ + "URL: "@ + items[i].url
                + "\n\n"@,
        ),
        text::contains(notes(items), items[i].text + "\n\n"@),
        items[i].snippet.len() > 0 ==> text::contains(
            notes(items),
            "Snippet: "@ + items[i].snippet + "\n\n"@,
        ),
{
    let item = items[i];
    let head = "## ["@ + item.id + "] "@ + item.title + "\n"@ + "URL: "@ + item.url + "\n\n"@;
    let tail = item.text + "\n\n"@;
    let nothing = Seq::<char>::empty();
    let snippet = if item.snippet.len() > 0 {
        "Snippet: "@ + item.snippet + "\n\n"@
    } else {
        nothing
    };
    notes_hold_each(items, i);
    assert(note(item) =~= nothing + head + (snippet + tail));
    text::holds_its_middle(nothing, head, snippet + tail);
    assert(note(item) =~= head + snippet + tail + nothing);
    text::holds_its_middle(head + snippet, tail, nothing);
    assert(note(item) =~= head + snippet + tail);
    text::holds_its_middle(head, snippet, tail);
    text::holding_is_transitive(notes(items), note(item), head);
    text::holding_is_transitive(notes(items), note(item), tail);
    text::holding_is_transitive(notes(items), note(item), snippet);
}

proof fn notes_hold_each(items: Seq<EvidenceView>, i: int)
    requires
        0 <= i < items.len(),
    ensures
        text::contains(notes(items), note(items[i])),
    decreases items.len(),
{
    let rest = notes(items.drop_last());
    let last = note(items.last());
    let nothing = Seq::<char>::empty();
    if i == items.len() - 1 {
        text::holds_its_middle(rest, last, nothing);
        assert(notes(items) =~= rest + last + nothing);
    } else {
        notes_hold_each(items.drop_last(), i);
        assert(items.drop_last()[i] == items[i]);
        assert(notes(items) =~= nothing + rest + last);
        text::holds_within(nothing, rest, last, note(items[i]));
    }
}

} // verus!
