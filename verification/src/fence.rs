//! Text inside a code fence.

use vstd::prelude::*;

use crate::text;
use crate::words;

verus! {

/// What stands between a fence's marks, when the text is fenced.
pub open spec fn fenced(text: Seq<char>) -> Option<Seq<char>> {
    match text::after_prefix(text, "```json"@) {
        Some(rest) => text::before_suffix(rest, "```"@),
        None => match text::after_prefix(text, "```"@) {
            Some(rest) => text::before_suffix(rest, "```"@),
            None => None,
        },
    }
}

/// The text without white space and a code fence around it.
pub open spec fn unfenced(raw: Seq<char>) -> Seq<char> {
    let text = words::trim(raw);
    match fenced(text) {
        Some(inner) => words::trim(inner),
        None => words::trim(text),
    }
}

/// The text without white space and a code fence around it.
pub fn unfence(raw: &str) -> (r: String)
    ensures
        r@ == unfenced(raw@),
{
    let trimmed = words::trimmed(raw);
    let opened = match text::without_prefix(trimmed.as_str(), "```json") {
        Some(rest) => Some(rest),
        None => text::without_prefix(trimmed.as_str(), "```"),
    };
    let inner = match opened {
        Some(rest) => text::without_suffix(rest.as_str(), "```"),
        None => None,
    };
    match inner {
        Some(inner) => words::trimmed(inner.as_str()),
        None => words::trimmed(trimmed.as_str()),
    }
}

/// A reply between fences is what stands between them, without the white space around it; a
/// reply without fences is itself.
pub proof fn fences_are_taken_off(inner: Seq<char>)
    requires
        inner.len() > 0,
        !words::is_space(inner[0]),
        !words::is_space(inner.last()),
        !"```"@.is_prefix_of(inner),
    ensures
        unfenced("```json"@ + inner + "```"@) == inner,
        unfenced(inner) == inner,
        !"json"@.is_prefix_of(inner) ==> unfenced("```"@ + inner + "```"@) == inner,
{
    reveal_strlit("```json");
    reveal_strlit("```");
    reveal_strlit("json");
    let none = Seq::<char>::empty();
    let tagged = "```json"@ + inner + "```"@;
    let plain = "```"@ + inner + "```"@;
    words::margins_are_trimmed(none, inner, none);
    assert(none + inner + none =~= inner);
    assert(tagged.len() > 0 && tagged[0] == '`' && tagged.last() == '`');
    words::margins_are_trimmed(none, tagged, none);
    assert(none + tagged + none =~= tagged);
    assert("```json"@.is_prefix_of(tagged));
    assert(tagged.skip(7) =~= inner + "```"@);
    assert("```"@.is_suffix_of(inner + "```"@));
    assert((inner + "```"@).take(inner.len() as int) =~= inner);
    assert(plain.len() > 0 && plain[0] == '`' && plain.last() == '`');
    words::margins_are_trimmed(none, plain, none);
    assert(none + plain + none =~= plain);
    assert("```"@.is_prefix_of(plain));
    assert(plain.skip(3) =~= inner + "```"@);
    if !"json"@.is_prefix_of(inner) {
        if "```json"@.is_prefix_of(plain) {
            assert forall|i: int| 0 <= i < 4 implies #[trigger] "json"@[i] == (inner + "```"@)[i] by {
                assert(plain[i + 3] == "```json"@[i + 3]);
            }
            assert(inner.len() < 4);
            assert((inner + "```"@)[inner.len() as int] == '`');
            assert("json"@[inner.len() as int] == '`');
        }
        assert(!"```json"@.is_prefix_of(plain));
    }
    if "```json"@.is_prefix_of(inner) {
        assert forall|i: int| 0 <= i < 3 implies #[trigger] inner[i] == "```"@[i] by {
            assert(inner[i] == "```json"@[i]);
        }
        assert("```"@.is_prefix_of(inner));
    }
}

} // verus!
