//! Slugs, words, numbers.

use research_mcp::number::{decimal_of, parse_i64, signed_decimal_of};
use research_mcp::slug::{free_slug, slug_of_text, slugify, strip_noise};
use research_mcp::text::{find_from, has, has_prefix, split_once, without_prefix, without_prefixes, without_suffix};
use research_mcp::words::{cleaned, join, lowered, replace, shortened, trimmed, words_of, Separator};
use research_mcp::workflow::report::make_slug;

#[test]
fn basic() {
    assert_eq!(slugify("What is the history of the Roman Empire"), "history-roman-empire");
}

#[test]
fn max_five_words() {
    assert_eq!(
        slugify("A comprehensive analysis of modern transformer architecture scaling laws"),
        "comprehensive-analysis-modern-transformer-architecture"
    );
}

#[test]
fn strips_url() {
    assert_eq!(
        slugify("Research the arxiv paper https://arxiv.org/abs/2607.12631 — what it is about, its contributions, methods"),
        "contributions-methods"
    );
}

#[test]
fn urls_leave_no_trace() {
    assert_eq!(slugify("www.example.com robots"), "robots");
    for url in ["http://a.b/c", "HTTPS://x", "https://one-two-three.four/five?six", "www.x", "WwW.x.y", "http\u{17f}://x"] {
        let topic = format!("Roman roads {} of ancient Gaul", url);
        assert_eq!(slugify(&topic), "roman-roads-ancient-gaul");
    }
    // No URL: nothing follows the scheme.
    assert_eq!(slugify("http:// robots"), "http-robots");
    assert_eq!(strip_noise("a  https://x\tb\u{3000}c www. d "), "a   \tb\u{3000}c www. d ");
    assert_eq!(strip_noise("seehttps://x,y b"), "see  b");
    // Not within a word.
    assert_eq!(strip_noise("awww.cute 9www.x éwww.y _www.z"), "awww.cute 9www.x éwww.y _www.z");
    assert_eq!(strip_noise("(www.x) „www.y” -www.z"), "(  „  - ");
    assert_eq!(slugify("awww.cute cats"), "awww-cute-cats");
    assert_eq!(slugify("PMID https://x 11504948 roads"), "roads");
}

#[test]
fn slugs_are_lower_case() {
    assert_eq!(slugify("ÖL und ÁRVÍZTŰRŐ TÜKÖRFÚRÓGÉP"), "öl-und-árvíztűrő-tükörfúrógép");
    assert_eq!(slugify("ΣΊΣΥΦΟΣ \u{212a}ELVIN"), "σίσυφος-kelvin");
}

#[test]
fn strips_pmid() {
    assert_eq!(
        slugify("Research the effect of metacognitive training in schizophrenia using the IGT paradigm — include the classic Bechara paper PMID:11504948"),
        "effect-metacognitive-training-schizophrenia-igt"
    );
}

#[test]
fn strips_bare_arxiv_id() {
    assert_eq!(slugify("Analysis of arxiv 2607.12631 methods"), "analysis-methods");
}

#[test]
fn empty() {
    assert_eq!(slugify("a an the"), "research");
}

#[test]
fn only_url() {
    assert_eq!(slugify("https://arxiv.org/abs/2607.12631"), "research");
}

#[test]
fn make_slug_is_slugify() {
    assert_eq!(make_slug("The Árvíztűrő Tükörfúrógép"), slugify("The Árvíztűrő Tükörfúrógép"));
    assert_eq!(make_slug("Árvíztűrő Tükörfúrógép"), "árvíztűrő-tükörfúrógép");
}

#[test]
fn slugs_of_cleaned_text() {
    assert_eq!(slug_of_text("Roman EMPIRE, roman roads!"), "roman-empire-roman-roads");
    assert_eq!(slug_of_text(""), "research");
}

#[test]
fn free_slugs_count_up() {
    let taken = vec!["a".to_string(), "a-2".to_string(), "a-4".to_string()];
    assert_eq!(free_slug("a", &taken), "a-3");
    assert_eq!(free_slug("b", &taken), "b");
}

#[test]
fn numbers_are_written_and_read() {
    assert_eq!(decimal_of(0), "0");
    assert_eq!(decimal_of(1205), "1205");
    assert_eq!(signed_decimal_of(-17), "-17");
    assert_eq!(signed_decimal_of(i64::MIN), i64::MIN.to_string());
    assert_eq!(parse_i64("42"), Some(42));
    assert_eq!(parse_i64("+42"), Some(42));
    assert_eq!(parse_i64("-42"), Some(-42));
    assert_eq!(parse_i64("9223372036854775807"), Some(i64::MAX));
    assert_eq!(parse_i64("-9223372036854775808"), Some(i64::MIN));
    assert_eq!(parse_i64("9223372036854775808"), None);
    for text in ["", "+", "-", "4 2", "4a", "99999999999999999999999999"] {
        assert_eq!(parse_i64(text), text.parse::<i64>().ok());
    }
}

#[test]
fn texts_are_searched() {
    assert!(has("abcabd", "abd"));
    assert!(!has("abcabc", "abd"));
    assert!(has("", ""));
    assert!(has_prefix("//x", "//"));
    let chars: Vec<char> = "aXbXc".chars().collect();
    assert_eq!(find_from(&chars, &vec!['X'], 2), Some(3));
    assert_eq!(find_from(&chars, &vec!['X'], 4), None);
    assert_eq!(split_once("k=v=w", "="), Some(("k".to_string(), "v=w".to_string())));
    assert_eq!(split_once("kv", "="), None);
    assert_eq!(without_prefix("a1b", "a1").as_deref(), Some("b"));
    assert_eq!(without_prefix("b", "a1"), None);
    assert_eq!(without_suffix("ab", "b").as_deref(), Some("a"));
    assert_eq!(without_prefixes("////x", "//"), "x");
    assert_eq!(without_prefixes("///x", "//"), "/x");
}

#[test]
fn words_are_split_and_joined() {
    assert_eq!(words_of(" a\tb\u{a0}c ", Separator::Space), vec!["a", "b", "c"]);
    assert_eq!(words_of("it's ok-ay", Separator::Symbol), vec!["it", "s", "ok", "ay"]);
    assert_eq!(cleaned("  a \n b "), "a b");
    assert_eq!(trimmed("\u{3000}a b\n"), "a b");
    assert_eq!(trimmed(" \t"), "");
    assert_eq!(join(&vec!["a".to_string(), "b".to_string()], ", "), "a, b");
    assert_eq!(join(&vec![], ", "), "");
    assert_eq!(lowered("ÁBC"), "Ábc");
}

#[test]
fn texts_are_replaced_and_cut() {
    assert_eq!(replace("aaa", "aa", "b"), "ba");
    assert_eq!(replace("a&amp;amp;", "&amp;", "&"), "a&amp;");
    assert_eq!(shortened("héllo", 2), "hé");
    assert_eq!(shortened("hé", 5), "hé");
}

#[test]
fn white_space_is_that_of_std() {
    for n in 0..0x3100u32 {
        if let Some(c) = char::from_u32(n) {
            assert_eq!(research_mcp::words::space(c), c.is_whitespace(), "{}", n);
        }
    }
}
