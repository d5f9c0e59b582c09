//! Slugs: a topic as a short, hyphenated file name.
//!
//! Lower case, no filler words, at most five words. URLs (http, https, www, arxiv.org, pubmed)
//! and paper identifiers (arXiv, PubMed) are taken out before the topic is split into words,
//! so that they never leak into the slug.

use vstd::prelude::*;

use crate::number;
use crate::pattern;
use crate::text;
use crate::words;
use crate::words::Separator;

verus! {

/// Paper sites named without a scheme.
pub const SITE_PATTERN: &'static str = r"(?i)(www\.)?(arxiv\.org|pubmed\.ncbi\.nlm\.nih\.gov)[^\s]*";

/// arXiv identifiers, such as 2607.12631 and 2106.09685v2.
pub const ARXIV_ID_PATTERN: &'static str = r"\b\d{4}\.\d{4,5}(?:v\d+)?\b";

/// PubMed identifiers, such as PMID:11504948.
pub const PMID_PATTERN: &'static str = r"(?i)PMID:?\s*\d{6,9}\b";

/// The most words that a slug has.
pub const MAX_WORDS: usize = 5;

/// A word that says nothing about a topic.
pub open spec fn is_filler(word: Seq<char>) -> bool {
    ||| word == "a"@
    ||| word == "an"@
    ||| word == "the"@
    ||| word == "and"@
    ||| word == "or"@
    ||| word == "of"@
    ||| word == "for"@
    ||| word == "in"@
    ||| word == "on"@
    ||| word == "with"@
    ||| word == "to"@
    ||| word == "from"@
    ||| word == "at"@
    ||| word == "by"@
    ||| word == "about"@
    ||| word == "into"@
    ||| word == "over"@
    ||| word == "after"@
    ||| word == "before"@
    ||| word == "under"@
    ||| word == "is"@
    ||| word == "are"@
    ||| word == "was"@
    ||| word == "were"@
    ||| word == "be"@
    ||| word == "what"@
    ||| word == "why"@
    ||| word == "how"@
    ||| word == "when"@
    ||| word == "where"@
    ||| word == "who"@
    ||| word == "which"@
    ||| word == "research"@
    ||| word == "study"@
    ||| word == "paper"@
    ||| word == "article"@
    ||| word == "arxiv"@
    ||| word == "pubmed"@
    ||| word == "pmid"@
    ||| word == "include"@
    ||| word == "including"@
    ||| word == "using"@
    ||| word == "used"@
    ||| word == "based"@
    ||| word == "it"@
    ||| word == "its"@
    ||| word == "them"@
    ||| word == "their"@
    ||| word == "this"@
    ||| word == "that"@
    ||| word == "does"@
    ||| word == "do"@
    ||| word == "can"@
    ||| word == "could"@
    ||| word == "would"@
    ||| word == "should"@
    ||| word == "may"@
    ||| word == "might"@
    ||| word == "not"@
}

/// Whether a word says nothing about a topic.
pub fn filler(word: &str) -> (r: bool)
    ensures
        r == is_filler(word@),
{
    text::same(word, "a")
        || text::same(word, "an")
        || text::same(word, "the")
        || text::same(word, "and")
        || text::same(word, "or")
        || text::same(word, "of")
        || text::same(word, "for")
        || text::same(word, "in")
        || text::same(word, "on")
        || text::same(word, "with")
        || text::same(word, "to")
        || text::same(word, "from")
        || text::same(word, "at")
        || text::same(word, "by")
        || text::same(word, "about")
        || text::same(word, "into")
        || text::same(word, "over")
        || text::same(word, "after")
        || text::same(word, "before")
        || text::same(word, "under")
        || text::same(word, "is")
        || text::same(word, "are")
        || text::same(word, "was")
        || text::same(word, "were")
        || text::same(word, "be")
        || text::same(word, "what")
        || text::same(word, "why")
        || text::same(word, "how")
        || text::same(word, "when")
        || text::same(word, "where")
        || text::same(word, "who")
        || text::same(word, "which")
        || text::same(word, "research")
        || text::same(word, "study")
        || text::same(word, "paper")
        || text::same(word, "article")
        || text::same(word, "arxiv")
        || text::same(word, "pubmed")
        || text::same(word, "pmid")
        || text::same(word, "include")
        || text::same(word, "including")
        || text::same(word, "using")
        || text::same(word, "used")
        || text::same(word, "based")
        || text::same(word, "it")
        || text::same(word, "its")
        || text::same(word, "them")
        || text::same(word, "their")
        || text::same(word, "this")
        || text::same(word, "that")
        || text::same(word, "does")
        || text::same(word, "do")
        || text::same(word, "can")
        || text::same(word, "could")
        || text::same(word, "would")
        || text::same(word, "should")
        || text::same(word, "may")
        || text::same(word, "might")
        || text::same(word, "not")
}

/// The topic with URLs, paper sites, arXiv identifiers and PubMed identifiers blanked.
pub open spec fn without_noise(topic: Seq<char>) -> Seq<char> {
    let no_urls = pattern::without_urls(topic);
    let no_sites = pattern::rewritten(SITE_PATTERN@, no_urls, " "@);
    let no_arxiv = pattern::rewritten(ARXIV_ID_PATTERN@, no_sites, " "@);
    pattern::rewritten(PMID_PATTERN@, no_arxiv, " "@)
}

/// The topic with URLs, paper sites, arXiv identifiers and PubMed identifiers blanked.
pub fn strip_noise(topic: &str) -> (r: String)
    ensures
        r@ == without_noise(topic@),
{
    let no_urls = pattern::blank_urls(topic);
    let no_sites = pattern::rewrite(SITE_PATTERN, no_urls.as_str(), " ");
    let no_arxiv = pattern::rewrite(ARXIV_ID_PATTERN, no_sites.as_str(), " ");
    pattern::rewrite(PMID_PATTERN, no_arxiv.as_str(), " ")
}

/// The words that say something.
pub open spec fn telling(all: Seq<Seq<char>>) -> Seq<Seq<char>> {
    all.filter(|word: Seq<char>| !is_filler(word))
}

/// The first words that say something, as many as a slug has at most.
pub open spec fn kept_words(all: Seq<Seq<char>>) -> Seq<Seq<char>> {
    if telling(all).len() > MAX_WORDS {
        telling(all).take(MAX_WORDS as int)
    } else {
        telling(all)
    }
}

/// The slug of a text from which the noise is gone.
pub open spec fn slug_text(cleaned: Seq<char>) -> Seq<char> {
    let kept = kept_words(words::words(words::lowercase(cleaned), Separator::Symbol));
    if kept.len() == 0 {
        "research"@
    } else {
        words::joined(kept, "-"@)
    }
}

/// The first words that say something, as many as a slug has at most.
pub fn keep_words(all: &Vec<String>) -> (kept: Vec<String>)
    ensures
        text::views(kept@) == kept_words(text::views(all@)),
{
    let ghost views = text::views(all@);
    let mut kept: Vec<String> = Vec::new();
    let mut i: usize = 0;
    assert(text::views(kept@) =~= telling(views.take(0))) by {
        reveal(Seq::filter);
    }
    while i < all.len() && kept.len() < MAX_WORDS
        invariant
            i <= all@.len(),
            views == text::views(all@),
            kept@.len() <= MAX_WORDS,
            text::views(kept@) == telling(views.take(i as int)),
        decreases all@.len() - i,
    {
        proof {
            reveal(Seq::filter);
            assert(views.take(i + 1).drop_last() == views.take(i as int));
            assert(views.take(i + 1).last() == all@[i as int]@);
        }
        if !filler(all[i].as_str()) {
            let ghost before = kept@;
            kept.push(all[i].clone());
            assert(text::views(kept@) =~= text::views(before).push(all@[i as int]@));
        }
        i += 1;
    }
    proof {
        let says = |word: Seq<char>| !is_filler(word);
        assert(views.take(i as int) + views.skip(i as int) =~= views);
        Seq::filter_distributes_over_add(views.take(i as int), views.skip(i as int), says);
        assert(telling(views) == telling(views.take(i as int)) + telling(views.skip(i as int)));
        if i == all@.len() {
            assert(views.take(i as int) =~= views);
        } else {
            assert(text::views(kept@).len() == MAX_WORDS);
            assert(telling(views).take(MAX_WORDS as int) =~= telling(views.take(i as int)));
        }
    }
    kept
}

/// The slug of a text from which the noise is gone.
pub fn slug_of_text(cleaned: &str) -> (r: String)
    ensures
        r@ == slug_text(cleaned@),
        words::no_capitals(r@),
{
    let lower = cleaned.to_lowercase();
    let all = words::words_of(lower.as_str(), Separator::Symbol);
    let kept = keep_words(&all);
    proof {
        assert(text::views(kept@).len() == kept@.len());
        reveal_strlit("research");
        slugs_have_no_capitals(lower@);
    }
    if kept.len() == 0 {
        "research".to_owned()
    } else {
        words::join(&kept, "-")
    }
}

/// The topic without its URLs and with one space between two words. How much white space
/// stands between two words makes no difference to a slug.
pub open spec fn tidied(topic: Seq<char>) -> Seq<char> {
    words::clean(pattern::without_urls(topic))
}

/// The slug of a topic.
pub open spec fn slug_for(topic: Seq<char>) -> Seq<char> {
    slug_text(without_noise(tidied(topic)))
}

/// The slug of a topic.
pub fn slugify(topic: &str) -> (r: String)
    ensures
        r@ == slug_for(topic@),
        words::no_capitals(r@),
{
    let tidy = words::cleaned(pattern::blank_urls(topic).as_str());
    slug_of_text(strip_noise(tidy.as_str()).as_str())
}

/// A slug has at most five words, none of them a filler word and each a word of the text.
pub proof fn kept_words_say_something(all: Seq<Seq<char>>)
    ensures
        kept_words(all).len() <= MAX_WORDS,
        forall|i: int|
            0 <= i < kept_words(all).len() ==> !is_filler(#[trigger] kept_words(all)[i])
                && all.contains(kept_words(all)[i]),
{
    broadcast use vstd::seq_lib::group_filter_ensures;

    let says = |word: Seq<char>| !is_filler(word);
    assert forall|i: int| 0 <= i < kept_words(all).len() implies !is_filler(
        #[trigger] kept_words(all)[i],
    ) && all.contains(kept_words(all)[i]) by {
        assert(kept_words(all)[i] == all.filter(says)[i]);
        assert(says(all.filter(says)[i]));
        assert(all.filter(says).contains(all.filter(says)[i]));
        all.lemma_filter_contains_rev(says, all.filter(says)[i]);
    }
}

/// The words of a text without capital letters, joined by hyphens, have none.
proof fn slugs_have_no_capitals(lower: Seq<char>)
    requires
        words::no_capitals(lower),
    ensures
        words::no_capitals(
            words::joined(kept_words(words::words(lower, Separator::Symbol)), "-"@),
        ),
{
    let all = words::words(lower, Separator::Symbol);
    let kept = kept_words(all);
    words::words_gain_no_capitals(lower, Separator::Symbol);
    kept_words_say_something(all);
    assert forall|i: int| 0 <= i < kept.len() implies words::no_capitals(#[trigger] kept[i]) by {
        assert(all.contains(kept[i]));
    }
    reveal_strlit("-");
    words::joining_adds_no_capitals(kept, "-"@);
}

/// A URL contributes nothing to a slug and takes the place of no word: the slug of a topic is
/// that of the topic without it.
pub proof fn urls_leave_no_trace(
    before: Seq<char>,
    start: Seq<char>,
    rest: Seq<char>,
    behind: Seq<char>,
)
    requires
        start == "http://"@ || start == "https://"@ || start == "www."@,
        rest.len() > 0,
        forall|i: int| 0 <= i < rest.len() ==> !words::is_space(#[trigger] rest[i]),
    ensures
        slug_for(before + " "@ + start + rest + " "@ + behind) == slug_for(before + " "@ + behind),
{
    reveal_strlit(" ");
    let space = seq![' '];
    let url = start + rest;
    let nothing = Seq::<char>::empty();
    let beyond = |c: char| pattern::word_beyond_ascii(c);
    let left = pattern::without_urls(before);
    let right = pattern::without_urls(behind);
    assert(" "@ =~= space);
    let topic = before + " "@ + start + rest + " "@ + behind;
    assert(topic =~= before + space + (url + space + behind));
    assert(before + " "@ + behind =~= before + space + behind);
    pattern::urls_end_at_a_space(before, url + space + behind, beyond, false, false);
    pattern::urls_end_at_a_space(url, behind, beyond, false, false);
    pattern::urls_become_a_space(start, rest, beyond);
    pattern::urls_end_at_a_space(before, behind, beyond, false, false);
    let by = Separator::Space;
    words::words_are_parted(left, ' ', space + space + right, by);
    words::words_are_parted(nothing, ' ', space + right, by);
    words::words_are_parted(nothing, ' ', right, by);
    words::words_are_parted(left, ' ', right, by);
    assert(nothing + space + (space + right) =~= space + space + right);
    assert(nothing + space + right =~= space + right);
    assert(words::words(nothing, by) =~= Seq::<Seq<char>>::empty());
    assert(words::words(space + space + right, by) =~= words::words(right, by));
}

// ── collisions ──────────────────────────────────────────────────────

/// The names that a slug may take: itself, then with the suffixes -2, -3 and so on.
pub open spec fn candidate(base: Seq<char>, n: nat) -> Seq<char> {
    if n <= 1 {
        base
    } else {
        base + "-"@ + number::decimal(n)
    }
}

/// `slug` is the first of the names of `base` that is not taken.
pub open spec fn is_first_free(slug: Seq<char>, base: Seq<char>, taken: Seq<Seq<char>>) -> bool {
    exists|n: nat|
        {
            &&& 1 <= n
            &&& slug == #[trigger] candidate(base, n)
            &&& !taken.contains(slug)
            &&& forall|k: nat| 1 <= k < n ==> taken.contains(#[trigger] candidate(base, k))
        }
}

/// A slug's names are all different.
pub proof fn candidates_differ(base: Seq<char>, a: nat, b: nat)
    requires
        1 <= a,
        1 <= b,
        candidate(base, a) == candidate(base, b),
    ensures
        a == b,
{
    reveal_strlit("-");
    let left = candidate(base, a);
    let right = candidate(base, b);
    if a > 1 && b > 1 {
        assert(left.skip(base.len() as int + 1) =~= number::decimal(a));
        assert(right.skip(base.len() as int + 1) =~= number::decimal(b));
        number::decimal_is_injective(a, b);
    } else if a > 1 {
        assert(left.len() > base.len());
    } else if b > 1 {
        assert(right.len() > base.len());
    }
}

proof fn some_name_is_free(base: Seq<char>, taken: Seq<Seq<char>>)
    ensures
        exists|n: nat| 1 <= n <= taken.len() + 1 && !taken.contains(#[trigger] candidate(base, n)),
{
    if forall|n: nat| 1 <= n <= taken.len() + 1 ==> taken.contains(#[trigger] candidate(base, n)) {
        let names = Seq::new(taken.len() + 1, |i: int| candidate(base, (i + 1) as nat));
        assert(names.no_duplicates()) by {
            assert forall|i: int, j: int|
                0 <= i < names.len() && 0 <= j < names.len() && i != j implies names[i]
                != names[j] by {
                if names[i] == names[j] {
                    candidates_differ(base, (i + 1) as nat, (j + 1) as nat);
                }
            }
        }
        names.unique_seq_to_set();
        assert(names.to_set().subset_of(taken.to_set())) by {
            assert forall|name: Seq<char>| names.to_set().contains(name) implies taken.to_set().contains(
                name,
            ) by {
                let i = choose|i: int| 0 <= i < names.len() && names[i] == name;
                assert(taken.contains(candidate(base, (i + 1) as nat)));
            }
        }
        taken.lemma_cardinality_of_set();
        vstd::set_lib::lemma_len_subset(names.to_set(), taken.to_set());
    }
}

/// The first of a slug's names that is not taken, so that no report overwrites another.
pub fn free_slug(base: &str, taken: &Vec<String>) -> (slug: String)
    ensures
        is_first_free(slug@, base@, text::views(taken@)),
        !text::views(taken@).contains(slug@),
{
    let ghost names = text::views(taken@);
    let mut n: u128 = 1;
    let limit: u128 = taken.len() as u128 + 1;
    while n <= limit
        invariant
            1 <= n <= limit + 1,
            limit == taken@.len() + 1 <= 0x1_0000_0000_0000_0000,
            names == text::views(taken@),
            forall|k: nat| 1 <= k < n ==> names.contains(#[trigger] candidate(base@, k)),
        decreases limit + 1 - n,
    {
        let mut name = base.to_owned();
        if n > 1 {
            name.append("-");
            name.append(number::decimal_of(n).as_str());
        }
        assert(name@ == candidate(base@, n as nat));
        if !text::listed(taken, name.as_str()) {
            return name;
        }
        n += 1;
    }
    proof {
        some_name_is_free(base@, names);
        assert(false);
    }
    base.to_owned()
}

/// The words that tell something are kept in their order until there are five of them: one
/// more word adds itself behind the others, unless it is filler or there are five already.
pub proof fn telling_words_are_kept_in_order(all: Seq<Seq<char>>, word: Seq<char>)
    ensures
        kept_words(Seq::empty()).len() == 0,
        kept_words(all).len() <= 5,
        is_filler(word) ==> kept_words(all.push(word)) == kept_words(all),
        !is_filler(word) && kept_words(all).len() < 5 ==> kept_words(all.push(word)) == kept_words(
            all,
        ).push(word),
        kept_words(all).len() == 5 ==> kept_words(all.push(word)) == kept_words(all),
{
    reveal(Seq::filter);
    let keep = |word: Seq<char>| !is_filler(word);
    assert(all.push(word).drop_last() =~= all);
    assert(Seq::<Seq<char>>::empty().filter(keep) =~= Seq::empty());
    if !is_filler(word) {
        assert(telling(all.push(word)) == telling(all).push(word));
        if telling(all).len() >= 5 {
            assert(telling(all).push(word).take(5) =~= telling(all).take(5));
            assert(telling(all).take(5) =~= kept_words(all));
        }
    }
}

/// Every word that is kept stands in the slug, with a dash between each two; without one it
/// is a word of its own.
pub proof fn slugs_hold_the_kept_words(cleaned: Seq<char>, i: int)
    ensures
        ({
            let kept = kept_words(words::words(words::lowercase(cleaned), Separator::Symbol));
            &&& 0 <= i < kept.len() ==> text::contains(slug_text(cleaned), kept[i])
            &&& kept.len() == 0 ==> slug_text(cleaned) == "research"@
            &&& kept.len() == 1 ==> slug_text(cleaned) == kept[0]
            &&& kept.len() == 2 ==> slug_text(cleaned) == kept[0] + "-"@ + kept[1]
        }),
{
    let kept = kept_words(words::words(words::lowercase(cleaned), Separator::Symbol));
    if 0 <= i < kept.len() {
        words::joined_holds_each(kept, "-"@, i);
    }
    reveal_with_fuel(words::joined, 3);
    if kept.len() == 2 {
        assert(kept.drop_last()[0] == kept[0]);
        assert(words::joined(kept.drop_last(), "-"@) =~= kept[0]);
    }
    if kept.len() == 1 {
        assert(slug_text(cleaned) =~= kept[0]);
    }
}

} // verus!
