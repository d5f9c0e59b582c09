//! Regular expressions, as the `regex` crate runs them.

use vstd::prelude::*;

use crate::text;
use crate::words;

verus! {

/// Why a pattern is no regular expression.
#[verifier::external_type_specification]
#[verifier::external_body]
pub struct ExRegexError(regex::Error);

/// The text of each group of one match; group 0 is the match itself.
pub type Groups = Vec<Option<String>>;

/// The view of one match.
pub open spec fn groups(row: Groups) -> Seq<Option<Seq<char>>> {
    row@.map_values(|group: Option<String>| text::option_view(group))
}

/// The view of a list of matches.
pub open spec fn rows(found: Seq<Groups>) -> Seq<Seq<Option<Seq<char>>>> {
    found.map_values(|row: Groups| groups(row))
}

/// The text of group `n` of a match, when the pattern has that group and it took part.
pub open spec fn group_text(row: Seq<Option<Seq<char>>>, n: int) -> Option<Seq<char>> {
    if 0 <= n < row.len() {
        row[n]
    } else {
        None
    }
}

/// The text of group `n` of a match, when the pattern has that group and it took part.
pub fn group(row: &Groups, n: usize) -> (r: Option<String>)
    ensures
        text::option_view(r) == group_text(groups(*row), n as int),
{
    if n < row.len() {
        text::copy_option(&row[n])
    } else {
        None
    }
}

/// URLs: a scheme, or "www." at the beginning of a word, and all that follows it up to white
/// space.
pub const URL_PATTERN: &'static str = r"(?i)(?:https?://|\bwww\.)[^\s]+";

/// Whether a character beyond ASCII is part of a word to `regex::Regex`: whether `\w` matches it.
pub uninterp spec fn word_beyond_ascii(c: char) -> bool;

/// The character is part of a word; `beyond` says which of those beyond ASCII are.
pub open spec fn is_word_char(c: char, beyond: spec_fn(char) -> bool) -> bool {
    if (c as int) < 0x80 {
        words::ascii_alphanumeric(c) || c == '_'
    } else {
        beyond(c)
    }
}

/// The characters are the same but for their case. The long s is a form of s.
pub open spec fn same_letter(c: char, lower: char) -> bool {
    ||| c == lower
    ||| 'a' <= lower <= 'z' && (c as int == lower as int - 32 || lower == 's' && c == '\u{17f}')
}

/// The text begins with these characters, whatever their case.
pub open spec fn begins(text: Seq<char>, start: Seq<char>) -> bool {
    text.len() >= start.len() && forall|i: int|
        0 <= i < start.len() ==> same_letter(text[i], #[trigger] start[i])
}

/// The text begins with a URL that begins like this.
pub open spec fn url_with(text: Seq<char>, start: Seq<char>) -> bool {
    begins(text, start) && text.len() > start.len() && !words::is_space(text[start.len() as int])
}

/// The text begins with a URL. With "www." it does so only where no word goes on.
pub open spec fn is_url(text: Seq<char>, in_word: bool) -> bool {
    url_with(text, "http://"@) || url_with(text, "https://"@) || (!in_word && url_with(
        text,
        "www."@,
    ))
}

/// The text with a space in the place of each URL. Where the text goes on `in_url`, the rest
/// of the URL is left out; where it goes on `in_word`, the character before it is part of a
/// word.
pub open spec fn urls_blanked(
    text: Seq<char>,
    beyond: spec_fn(char) -> bool,
    in_url: bool,
    in_word: bool,
) -> Seq<char>
    decreases text.len(),
{
    if text.len() == 0 {
        text
    } else if in_url && !words::is_space(text[0]) {
        urls_blanked(text.drop_first(), beyond, true, is_word_char(text[0], beyond))
    } else if is_url(text, in_word) {
        seq![' '] + urls_blanked(text.drop_first(), beyond, true, is_word_char(text[0], beyond))
    } else {
        seq![text[0]] + urls_blanked(text.drop_first(), beyond, false, is_word_char(text[0], beyond))
    }
}

/// The text with a space in the place of each URL.
pub open spec fn without_urls(text: Seq<char>) -> Seq<char> {
    urls_blanked(text, |c: char| word_beyond_ascii(c), false, false)
}

/// Whether `regex::Regex::new` accepts a pattern.
pub uninterp spec fn compiles(pattern: Seq<char>) -> bool;

/// What `regex::Regex::replace_all` makes of a subject.
pub uninterp spec fn all_replaced(
    pattern: Seq<char>,
    subject: Seq<char>,
    with: Seq<char>,
) -> Seq<char>;

/// What `regex::Regex::captures_iter` yields on a subject: the groups of each match.
pub uninterp spec fn all_captures(pattern: Seq<char>, subject: Seq<char>) -> Seq<
    Seq<Option<Seq<char>>>,
>;

/// What `regex::Regex::captures` finds in a subject: the groups of the first match.
pub uninterp spec fn first_captures(pattern: Seq<char>, subject: Seq<char>) -> Option<
    Seq<Option<Seq<char>>>,
>;

/// What `regex::Regex::split` yields on a subject: the stretches between matches.
pub uninterp spec fn pieces(pattern: Seq<char>, subject: Seq<char>) -> Seq<Seq<char>>;

/// `regex::Regex::new`: whether a pattern is a regular expression, by name.
#[verifier::external_body]
pub(crate) fn check(pattern: &str) -> (r: Result<(), regex::Error>)
    ensures
        r is Ok <==> compiles(pattern@),
{
    regex::Regex::new(pattern).map(|_| ())
}

/// `regex::Regex::replace_all`: the subject with every match rewritten, by name.
/// Fails exactly on a pattern that `regex::Regex::new` rejects. The pattern for URLs is none
/// of those; what becomes of a subject whose URLs are replaced by a space is stated, up to
/// which characters beyond ASCII are part of a word, which has a name.
#[verifier::external_body]
pub(crate) fn replace_all(pattern: &str, subject: &str, with: &str) -> (r: Result<
    String,
    regex::Error,
>)
    ensures
        r is Ok <==> compiles(pattern@),
        r matches Ok(out) ==> out@ == all_replaced(pattern@, subject@, with@),
        pattern@ == URL_PATTERN@ ==> r is Ok,
        r matches Ok(out) ==> (pattern@ == URL_PATTERN@ && with@ == " "@ ==> out@ == urls_blanked(
            subject@,
            |c: char| word_beyond_ascii(c),
            false,
            false,
        )),
{
    Ok(regex::Regex::new(pattern)?.replace_all(subject, with).into_owned())
}

/// `regex::Regex::captures_iter`: the groups of every match, by name.
/// Fails exactly on a pattern that `regex::Regex::new` rejects.
#[verifier::external_body]
pub(crate) fn captures_all(pattern: &str, subject: &str) -> (r: Result<Vec<Groups>, regex::Error>)
    ensures
        r is Ok <==> compiles(pattern@),
        r matches Ok(found) ==> rows(found@) == all_captures(pattern@, subject@),
{
    let regex = regex::Regex::new(pattern)?;
    let found = regex.captures_iter(subject);
    Ok(found.map(|c| c.iter().map(|g| g.map(|m| m.as_str().to_string())).collect()).collect())
}

/// `regex::Regex::captures`: the groups of the first match, by name.
/// Fails exactly on a pattern that `regex::Regex::new` rejects.
#[verifier::external_body]
pub(crate) fn captures_first(pattern: &str, subject: &str) -> (r: Result<
    Option<Groups>,
    regex::Error,
>)
    ensures
        r is Ok <==> compiles(pattern@),
        r matches Ok(found) ==> first_captures(pattern@, subject@) == (match found {
            Some(row) => Some(groups(row)),
            None => None,
        }),
{
    let regex = regex::Regex::new(pattern)?;
    let found = regex.captures(subject);
    Ok(found.map(|c| c.iter().map(|g| g.map(|m| m.as_str().to_string())).collect()))
}

/// `regex::Regex::split`: the stretches between the matches, by name.
/// Fails exactly on a pattern that `regex::Regex::new` rejects.
#[verifier::external_body]
pub(crate) fn split(pattern: &str, subject: &str) -> (r: Result<Vec<String>, regex::Error>)
    ensures
        r is Ok <==> compiles(pattern@),
        r matches Ok(found) ==> text::views(found@) == pieces(pattern@, subject@),
{
    Ok(regex::Regex::new(pattern)?.split(subject).map(|piece| piece.to_string()).collect())
}

/// The subject with every match rewritten; a pattern that does not compile matches nothing.
pub open spec fn rewritten(pattern: Seq<char>, subject: Seq<char>, with: Seq<char>) -> Seq<char> {
    if compiles(pattern) {
        all_replaced(pattern, subject, with)
    } else {
        subject
    }
}

/// The subject with every match rewritten; a pattern that does not compile matches nothing.
pub fn rewrite(pattern: &str, subject: &str, with: &str) -> (r: String)
    ensures
        r@ == rewritten(pattern@, subject@, with@),
{
    match replace_all(pattern, subject, with) {
        Ok(out) => out,
        Err(_) => subject.to_owned(),
    }
}

/// The subject with a space in the place of each URL.
pub fn blank_urls(subject: &str) -> (r: String)
    ensures
        r@ == without_urls(subject@),
{
    match replace_all(URL_PATTERN, subject, " ") {
        Ok(out) => out,
        Err(_) => subject.to_owned(),
    }
}

/// A space ends a URL and begins none, so the texts before and behind it are blanked apart.
pub proof fn urls_end_at_a_space(
    before: Seq<char>,
    behind: Seq<char>,
    beyond: spec_fn(char) -> bool,
    in_url: bool,
    in_word: bool,
)
    ensures
        urls_blanked(before + seq![' '] + behind, beyond, in_url, in_word) == urls_blanked(
            before,
            beyond,
            in_url,
            in_word,
        ) + seq![' '] + urls_blanked(behind, beyond, false, false),
    decreases before.len(),
{
    let text = before + seq![' '] + behind;
    if before.len() == 0 {
        assert(text.drop_first() =~= behind);
        space_is_no_url(text, in_word);
        assert(urls_blanked(text, beyond, in_url, in_word) =~= seq![' '] + urls_blanked(
            behind,
            beyond,
            false,
            false,
        ));
    } else {
        let rest = before.drop_first();
        let word = is_word_char(before[0], beyond);
        assert(text.drop_first() =~= rest + seq![' '] + behind);
        url_is_seen_before_a_space(before, behind, in_word);
        urls_end_at_a_space(rest, behind, beyond, true, word);
        urls_end_at_a_space(rest, behind, beyond, false, word);
        assert(urls_blanked(text, beyond, in_url, in_word) =~= urls_blanked(
            before,
            beyond,
            in_url,
            in_word,
        ) + seq![' '] + urls_blanked(behind, beyond, false, false));
    }
}

proof fn space_is_no_url(text: Seq<char>, in_word: bool)
    requires
        text.len() > 0,
        text[0] == ' ',
    ensures
        !is_url(text, in_word),
{
    reveal_strlit("http://");
    reveal_strlit("https://");
    reveal_strlit("www.");
    assert("http://"@[0] == 'h' && "https://"@[0] == 'h' && "www."@[0] == 'w');
}

proof fn url_is_seen_before_a_space(before: Seq<char>, behind: Seq<char>, in_word: bool)
    ensures
        is_url(before + seq![' '] + behind, in_word) == is_url(before, in_word),
{
    reveal_strlit("http://");
    reveal_strlit("https://");
    reveal_strlit("www.");
    start_is_seen_before_a_space(before, behind, "http://"@);
    start_is_seen_before_a_space(before, behind, "https://"@);
    start_is_seen_before_a_space(before, behind, "www."@);
}

proof fn start_is_seen_before_a_space(before: Seq<char>, behind: Seq<char>, start: Seq<char>)
    requires
        forall|i: int| 0 <= i < start.len() ==> #[trigger] start[i] != ' ',
    ensures
        url_with(before + seq![' '] + behind, start) == url_with(before, start),
{
    let text = before + seq![' '] + behind;
    if url_with(text, start) {
        if before.len() < start.len() {
            assert(same_letter(text[before.len() as int], start[before.len() as int]));
        }
        assert forall|i: int| 0 <= i < start.len() implies same_letter(
            before[i],
            #[trigger] start[i],
        ) by {
            assert(text[i] == before[i]);
        }
    }
    if url_with(before, start) {
        assert forall|i: int| 0 <= i < start.len() implies same_letter(
            text[i],
            #[trigger] start[i],
        ) by {
            assert(text[i] == before[i]);
        }
    }
}

/// A URL alone is blanked to one space.
pub proof fn urls_become_a_space(
    start: Seq<char>,
    rest: Seq<char>,
    beyond: spec_fn(char) -> bool,
)
    requires
        start == "http://"@ || start == "https://"@ || start == "www."@,
        rest.len() > 0,
        forall|i: int| 0 <= i < rest.len() ==> !words::is_space(#[trigger] rest[i]),
    ensures
        urls_blanked(start + rest, beyond, false, false) == seq![' '],
{
    reveal_strlit("http://");
    reveal_strlit("https://");
    reveal_strlit("www.");
    let text = start + rest;
    assert(url_with(text, start)) by {
        assert(text[start.len() as int] == rest[0]);
    }
    let tail = text.drop_first();
    assert forall|i: int| 0 <= i < tail.len() implies !words::is_space(#[trigger] tail[i]) by {
        if i + 1 >= start.len() {
            assert(tail[i] == rest[i + 1 - start.len()]);
        } else {
            assert(tail[i] == start[i + 1]);
        }
    }
    the_inside_is_left_out(tail, beyond, is_word_char(text[0], beyond));
    assert(seq![' '] + Seq::<char>::empty() =~= seq![' ']);
}

proof fn the_inside_is_left_out(text: Seq<char>, beyond: spec_fn(char) -> bool, in_word: bool)
    requires
        forall|i: int| 0 <= i < text.len() ==> !words::is_space(#[trigger] text[i]),
    ensures
        urls_blanked(text, beyond, true, in_word) == Seq::<char>::empty(),
    decreases text.len(),
{
    if text.len() > 0 {
        the_inside_is_left_out(text.drop_first(), beyond, is_word_char(text[0], beyond));
    } else {
        assert(text =~= Seq::<char>::empty());
    }
}

} // verus!
