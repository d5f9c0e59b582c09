//! Text as sequences of characters: comparing, copying, searching and splitting.

use vstd::prelude::*;

verus! {

/// The views of a sequence of values.
pub open spec fn views<T: View>(items: Seq<T>) -> Seq<T::V> {
    items.map_values(|item: T| item@)
}

/// The view of an optional value.
pub open spec fn option_view<T: View>(item: Option<T>) -> Option<T::V> {
    match item {
        Some(value) => Some(value@),
        None => None,
    }
}

/// `String::push` appends one character.
pub assume_specification[ String::push ](s: &mut String, c: char)
    ensures
        final(s)@ == old(s)@.push(c),
;

// ── characters ──────────────────────────────────────────────────────

/// The characters of a text.
pub fn chars_of(text: &str) -> (chars: Vec<char>)
    ensures
        chars@ == text@,
{
    let mut chars: Vec<char> = Vec::new();
    for c in it: text.chars()
        invariant
            chars@ == it.seq().take(it.index()),
            it.seq() == text@,
    {
        chars.push(c);
    }
    chars
}

/// The text made of the characters `from..to`.
pub fn text_of(chars: &Vec<char>, from: usize, to: usize) -> (text: String)
    requires
        from <= to <= chars@.len(),
    ensures
        text@ == chars@.subrange(from as int, to as int),
{
    let mut text = String::new();
    for i in from..to
        invariant
            from <= to <= chars@.len(),
            text@ == chars@.subrange(from as int, i as int),
    {
        text.push(chars[i]);
        assert(chars@.subrange(from as int, i + 1) == chars@.subrange(from as int, i as int).push(
            chars@[i as int],
        ));
    }
    text
}

/// The text made of all the characters.
pub fn whole_text(chars: &Vec<char>) -> (text: String)
    ensures
        text@ == chars@,
{
    let text = text_of(chars, 0, chars.len());
    assert(chars@.subrange(0, chars@.len() as int) == chars@);
    text
}

/// Whether two texts are the same.
pub fn same(a: &str, b: &str) -> (r: bool)
    ensures
        r == (a@ == b@),
{
    let left = chars_of(a);
    let right = chars_of(b);
    if left.len() != right.len() {
        return false;
    }
    for i in 0..left.len()
        invariant
            left@ == a@,
            right@ == b@,
            left@.len() == right@.len(),
            forall|j: int| 0 <= j < i ==> left@[j] == right@[j],
    {
        if left[i] != right[i] {
            return false;
        }
    }
    assert(a@ =~= b@);
    true
}

/// Whether a text is empty.
pub fn blank(text: &str) -> (r: bool)
    ensures
        r == (text@.len() == 0),
{
    chars_of(text).len() == 0
}

/// Whether a list holds a text.
pub fn listed(items: &Vec<String>, text: &str) -> (r: bool)
    ensures
        r == views(items@).contains(text@),
{
    for i in 0..items.len()
        invariant
            forall|j: int| 0 <= j < i ==> items@[j]@ != text@,
    {
        if same(items[i].as_str(), text) {
            assert(views(items@)[i as int] == text@);
            return true;
        }
    }
    assert forall|j: int| 0 <= j < views(items@).len() implies views(items@)[j] != text@ by {
        assert(views(items@)[j] == items@[j]@);
    }
    false
}

/// A copy of a list of texts.
pub fn copy_texts(items: &Vec<String>) -> (copy: Vec<String>)
    ensures
        copy@ == items@,
{
    let mut copy: Vec<String> = Vec::new();
    for i in 0..items.len()
        invariant
            copy@ == items@.take(i as int),
    {
        copy.push(items[i].clone());
        assert(items@.take(i + 1) == items@.take(i as int).push(items@[i as int]));
    }
    assert(items@.take(items@.len() as int) == items@);
    copy
}

/// A copy of an optional text.
pub fn copy_option(item: &Option<String>) -> (copy: Option<String>)
    ensures
        copy == *item,
{
    match item {
        Some(text) => Some(text.clone()),
        None => None,
    }
}

/// The optional text, or the empty text.
pub open spec fn or_empty(item: Option<Seq<char>>) -> Seq<char> {
    match item {
        Some(text) => text,
        None => Seq::<char>::empty(),
    }
}

/// The optional text, or the empty text.
pub fn text_or_empty(item: &Option<String>) -> (text: String)
    ensures
        text@ == or_empty(option_view(*item)),
{
    match item {
        Some(text) => text.clone(),
        None => String::new(),
    }
}

// ── searching ───────────────────────────────────────────────────────

/// `part` stands in `text` at position `at`.
pub open spec fn occurs_at(text: Seq<char>, part: Seq<char>, at: int) -> bool {
    0 <= at && at + part.len() <= text.len() && text.subrange(at, at + part.len()) == part
}

/// `part` stands somewhere in `text`.
pub open spec fn contains(text: Seq<char>, part: Seq<char>) -> bool {
    exists|at: int| occurs_at(text, part, at)
}

/// The first position at or after `from` where `part` stands in `text`.
pub open spec fn first_from(text: Seq<char>, part: Seq<char>, from: int) -> Option<int>
    decreases text.len() - from + 1,
{
    if from + part.len() > text.len() {
        None
    } else if occurs_at(text, part, from) {
        Some(from)
    } else {
        first_from(text, part, from + 1)
    }
}

/// The first position where `part` stands in `text`.
pub open spec fn first(text: Seq<char>, part: Seq<char>) -> Option<int> {
    first_from(text, part, 0)
}

/// `first_from` finds an occurrence exactly where there is one, and none earlier.
pub proof fn first_from_is_first(text: Seq<char>, part: Seq<char>, from: int)
    requires
        0 <= from,
    ensures
        match first_from(text, part, from) {
            Some(at) => {
                &&& from <= at
                &&& occurs_at(text, part, at)
                &&& forall|i: int| from <= i < at ==> !occurs_at(text, part, i)
            },
            None => forall|i: int| from <= i ==> !occurs_at(text, part, i),
        },
    decreases text.len() - from + 1,
{
    if from + part.len() <= text.len() && !occurs_at(text, part, from) {
        first_from_is_first(text, part, from + 1);
    }
}

/// A text contains a part exactly when the part has a first position in it.
pub proof fn contains_iff_first(text: Seq<char>, part: Seq<char>)
    ensures
        contains(text, part) == (first(text, part) is Some),
{
    first_from_is_first(text, part, 0);
}

fn stands_at(chars: &Vec<char>, part: &Vec<char>, at: usize) -> (r: bool)
    requires
        at + part@.len() <= chars@.len(),
    ensures
        r == occurs_at(chars@, part@, at as int),
{
    let total: usize = chars.len();
    for i in 0..part.len()
        invariant
            at + part@.len() <= total == chars@.len(),
            forall|j: int| 0 <= j < i ==> chars@[at + j] == part@[j],
    {
        if chars[at + i] != part[i] {
            assert(chars@.subrange(at as int, at + part@.len())[i as int] != part@[i as int]);
            return false;
        }
    }
    assert(chars@.subrange(at as int, at + part@.len()) =~= part@);
    true
}

/// Whether `part` stands at position `at`, which may be too far right for it.
pub(crate) fn stands(chars: &Vec<char>, part: &Vec<char>, at: usize) -> (r: bool)
    requires
        at <= chars@.len(),
    ensures
        r == occurs_at(chars@, part@, at as int),
        r == part@.is_prefix_of(chars@.skip(at as int)),
{
    let ghost rest = chars@.skip(at as int);
    if part.len() > chars.len() - at {
        return false;
    }
    assert(rest.take(part@.len() as int) == chars@.subrange(at as int, at + part@.len()));
    stands_at(chars, part, at)
}

/// The first position at or after `from` where `part` stands.
pub fn find_from(chars: &Vec<char>, part: &Vec<char>, from: usize) -> (r: Option<usize>)
    requires
        from <= chars@.len(),
    ensures
        match r {
            Some(at) => first_from(chars@, part@, from as int) == Some(at as int),
            None => first_from(chars@, part@, from as int) is None,
        },
{
    if part.len() > chars.len() {
        return None;
    }
    if part.len() == 0 {
        assert(chars@.subrange(from as int, from + part@.len()) =~= part@);
        return Some(from);
    }
    let mut at: usize = from;
    while at <= chars.len() - part.len()
        invariant
            0 < part@.len() <= chars@.len(),
            from <= at,
            first_from(chars@, part@, from as int) == first_from(chars@, part@, at as int),
        decreases chars@.len() + 1 - at,
    {
        if stands_at(chars, part, at) {
            return Some(at);
        }
        at += 1;
    }
    None
}

/// Whether `text` contains `part`.
pub fn has(text: &str, part: &str) -> (r: bool)
    ensures
        r == contains(text@, part@),
{
    proof {
        contains_iff_first(text@, part@);
    }
    let chars = chars_of(text);
    let wanted = chars_of(part);
    find_from(&chars, &wanted, 0).is_some()
}

/// Whether `text` starts with `prefix`.
pub fn has_prefix(text: &str, prefix: &str) -> (r: bool)
    ensures
        r == prefix@.is_prefix_of(text@),
{
    let chars = chars_of(text);
    let wanted = chars_of(prefix);
    if wanted.len() > chars.len() {
        return false;
    }
    stands_at(&chars, &wanted, 0)
}

/// What follows `prefix`, when `text` starts with it.
pub open spec fn after_prefix(text: Seq<char>, prefix: Seq<char>) -> Option<Seq<char>> {
    if prefix.is_prefix_of(text) {
        Some(text.skip(prefix.len() as int))
    } else {
        None
    }
}

/// What stands before `suffix`, when `text` ends with it.
pub open spec fn before_suffix(text: Seq<char>, suffix: Seq<char>) -> Option<Seq<char>> {
    if suffix.is_suffix_of(text) {
        Some(text.take(text.len() - suffix.len()))
    } else {
        None
    }
}

/// What follows `prefix`, when `text` starts with it.
pub fn without_prefix(text: &str, prefix: &str) -> (rest: Option<String>)
    ensures
        option_view(rest) == after_prefix(text@, prefix@),
{
    let chars = chars_of(text);
    let wanted = chars_of(prefix);
    if wanted.len() <= chars.len() && stands_at(&chars, &wanted, 0) {
        Some(text_of(&chars, wanted.len(), chars.len()))
    } else {
        None
    }
}

/// What stands before `suffix`, when `text` ends with it.
pub fn without_suffix(text: &str, suffix: &str) -> (rest: Option<String>)
    ensures
        option_view(rest) == before_suffix(text@, suffix@),
{
    let chars = chars_of(text);
    let wanted = chars_of(suffix);
    if wanted.len() <= chars.len() && stands_at(&chars, &wanted, chars.len() - wanted.len()) {
        Some(text_of(&chars, 0, chars.len() - wanted.len()))
    } else {
        None
    }
}

/// What is left once every leading copy of `prefix` is gone.
pub open spec fn after_prefixes(text: Seq<char>, prefix: Seq<char>) -> Seq<char>
    decreases text.len(),
{
    if prefix.len() > 0 && prefix.is_prefix_of(text) {
        after_prefixes(text.skip(prefix.len() as int), prefix)
    } else {
        text
    }
}

/// What is left once every leading copy of `prefix` is gone.
pub fn without_prefixes(text: &str, prefix: &str) -> (rest: String)
    requires
        prefix@.len() > 0,
    ensures
        rest@ == after_prefixes(text@, prefix@),
{
    let chars = chars_of(text);
    let wanted = chars_of(prefix);
    let mut at: usize = 0;
    assert(chars@.skip(0) == chars@);
    while wanted.len() <= chars.len() - at && stands_at(&chars, &wanted, at)
        invariant
            at <= chars@.len(),
            chars@ == text@,
            wanted@ == prefix@,
            prefix@.len() > 0,
            after_prefixes(text@, prefix@) == after_prefixes(chars@.skip(at as int), prefix@),
        decreases chars@.len() - at,
    {
        proof {
            let rest = chars@.skip(at as int);
            assert(rest.take(prefix@.len() as int) == chars@.subrange(at as int, at + wanted@.len()));
            assert(prefix@.is_prefix_of(rest));
            assert(rest.skip(prefix@.len() as int) == chars@.skip(at + wanted@.len()));
        }
        at += wanted.len();
    }
    proof {
        let rest = chars@.skip(at as int);
        if prefix@.is_prefix_of(rest) {
            assert(chars@.subrange(at as int, at + wanted@.len()) == rest.take(prefix@.len() as int));
        }
        assert(rest == chars@.subrange(at as int, chars@.len() as int));
    }
    text_of(&chars, at, chars.len())
}

/// The text before and after the first occurrence of `part`.
pub open spec fn cut_once(text: Seq<char>, part: Seq<char>) -> Option<(Seq<char>, Seq<char>)> {
    match first(text, part) {
        Some(at) => Some((text.take(at), text.skip(at + part.len()))),
        None => None,
    }
}

/// The text before and after the first occurrence of `part`.
pub fn split_once(text: &str, part: &str) -> (r: Option<(String, String)>)
    ensures
        match r {
            Some(halves) => cut_once(text@, part@) == Some((halves.0@, halves.1@)),
            None => cut_once(text@, part@) is None,
        },
{
    proof {
        first_from_is_first(text@, part@, 0);
    }
    let chars = chars_of(text);
    let wanted = chars_of(part);
    match find_from(&chars, &wanted, 0) {
        Some(at) => {
            let head = text_of(&chars, 0, at);
            let total: usize = chars.len();
            assert(at + wanted@.len() <= total);
            let tail = text_of(&chars, at + wanted.len(), chars.len());
            Some((head, tail))
        },
        None => None,
    }
}

// ── holding a part ──────────────────────────────────────────────────

/// A text holds what stands between its front and its back.
pub proof fn holds_its_middle(front: Seq<char>, part: Seq<char>, back: Seq<char>)
    ensures
        contains(front + part + back, part),
{
    let whole = front + part + back;
    let at = front.len() as int;
    assert(whole.subrange(at, at + part.len()) =~= part);
    assert(occurs_at(whole, part, at));
}

/// What is held by a part is held by the whole.
pub proof fn holding_is_transitive(whole: Seq<char>, part: Seq<char>, piece: Seq<char>)
    requires
        contains(whole, part),
        contains(part, piece),
    ensures
        contains(whole, piece),
{
    let i = choose|i: int| #[trigger] occurs_at(whole, part, i);
    let j = choose|j: int| #[trigger] occurs_at(part, piece, j);
    assert(whole.subrange(i + j, i + j + piece.len()) =~= part.subrange(j, j + piece.len()));
    assert(occurs_at(whole, piece, i + j));
}

/// What stands in the middle of a text is held by it, with all that it holds.
pub proof fn holds_within(front: Seq<char>, part: Seq<char>, back: Seq<char>, piece: Seq<char>)
    requires
        contains(part, piece),
    ensures
        contains(front + part + back, piece),
{
    holds_its_middle(front, part, back);
    holding_is_transitive(front + part + back, part, piece);
}

/// The first `n` parts, one behind the other.
pub open spec fn strung(parts: Seq<Seq<char>>, n: int) -> Seq<char>
    decreases n,
{
    if n <= 0 {
        Seq::empty()
    } else if n == 1 {
        parts[0]
    } else {
        strung(parts, n - 1) + parts[n - 1]
    }
}

/// A text holds its end.
pub proof fn end_is_held(front: Seq<char>, part: Seq<char>)
    ensures
        contains(front + part, part),
{
    let none = Seq::<char>::empty();
    holds_its_middle(front, part, none);
    assert(front + part + none =~= front + part);
}

/// What the front of a text holds, the text holds.
pub proof fn front_is_held(front: Seq<char>, back: Seq<char>, piece: Seq<char>)
    requires
        contains(front, piece),
    ensures
        contains(front + back, piece),
{
    let none = Seq::<char>::empty();
    holds_within(none, front, back, piece);
    assert(none + front + back =~= front + back);
}

proof fn strung_grows(parts: Seq<Seq<char>>, n: int)
    requires
        0 <= n < parts.len(),
    ensures
        strung(parts, n + 1) == strung(parts, n) + parts[n],
{
    if n == 0 {
        assert(Seq::<char>::empty() + parts[0] =~= parts[0]);
    }
}

/// It is the same whether the first two or the last two of three texts are put together
/// first.
pub proof fn strings_associate(a: Seq<char>, b: Seq<char>, c: Seq<char>)
    ensures
        a + b + c == a + (b + c),
{
    assert(a + b + c =~= a + (b + c));
}

/// Two parts that follow one another stand so in the whole.
pub proof fn strung_holds_two(parts: Seq<Seq<char>>, n: int, i: int)
    requires
        0 <= i,
        i + 2 <= n <= parts.len(),
    ensures
        contains(strung(parts, n), parts[i] + parts[i + 1]),
    decreases n,
{
    strung_grows(parts, n - 1);
    if i + 2 == n {
        strung_grows(parts, i);
        strings_associate(strung(parts, i), parts[i], parts[i + 1]);
        end_is_held(strung(parts, i), parts[i] + parts[i + 1]);
    } else {
        strung_holds_two(parts, n - 1, i);
        front_is_held(strung(parts, n - 1), parts[n - 1], parts[i] + parts[i + 1]);
    }
}

/// Three parts that follow one another stand so in the whole.
pub proof fn strung_holds_three(parts: Seq<Seq<char>>, n: int, i: int)
    requires
        0 <= i,
        i + 3 <= n <= parts.len(),
    ensures
        contains(strung(parts, n), parts[i] + parts[i + 1] + parts[i + 2]),
    decreases n,
{
    strung_grows(parts, n - 1);
    if i + 3 == n {
        strung_grows(parts, i);
        strung_grows(parts, i + 1);
        strings_associate(strung(parts, i), parts[i], parts[i + 1]);
        strings_associate(strung(parts, i), parts[i] + parts[i + 1], parts[i + 2]);
        end_is_held(strung(parts, i), parts[i] + parts[i + 1] + parts[i + 2]);
    } else {
        strung_holds_three(parts, n - 1, i);
        front_is_held(
            strung(parts, n - 1),
            parts[n - 1],
            parts[i] + parts[i + 1] + parts[i + 2],
        );
    }
}

} // verus!
