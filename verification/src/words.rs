//! White space, words, letter case and literal replacement.

use vstd::prelude::*;

use crate::text;

verus! {

// ── white space ─────────────────────────────────────────────────────

/// White space: the characters with Unicode's `White_Space` property.
pub open spec fn is_space(c: char) -> bool {
    let n = c as int;
    ||| 0x09 <= n <= 0x0d
    ||| n == 0x20
    ||| n == 0x85
    ||| n == 0xa0
    ||| n == 0x1680
    ||| 0x2000 <= n <= 0x200a
    ||| n == 0x2028
    ||| n == 0x2029
    ||| n == 0x202f
    ||| n == 0x205f
    ||| n == 0x3000
}

/// Whether a character is white space.
pub fn space(c: char) -> (r: bool)
    ensures
        r == is_space(c),
{
    let n: u32 = c as u32;
    (0x09 <= n && n <= 0x0d) || n == 0x20 || n == 0x85 || n == 0xa0 || n == 0x1680 || (0x2000 <= n
        && n <= 0x200a) || n == 0x2028 || n == 0x2029 || n == 0x202f || n == 0x205f || n == 0x3000
}

/// The text without its leading white space.
pub open spec fn trim_start(text: Seq<char>) -> Seq<char>
    decreases text.len(),
{
    if text.len() > 0 && is_space(text[0]) {
        trim_start(text.drop_first())
    } else {
        text
    }
}

/// The text without its trailing white space.
pub open spec fn trim_end(text: Seq<char>) -> Seq<char>
    decreases text.len(),
{
    if text.len() > 0 && is_space(text.last()) {
        trim_end(text.drop_last())
    } else {
        text
    }
}

/// The text without the white space around it.
pub open spec fn trim(text: Seq<char>) -> Seq<char> {
    trim_end(trim_start(text))
}

/// The text without its leading white space.
pub fn left_trimmed(text: &str) -> (r: String)
    ensures
        r@ == trim_start(text@),
{
    let chars = text::chars_of(text);
    let from = leading(&chars);
    proof {
        assert(chars@.skip(from as int) == chars@.subrange(from as int, chars@.len() as int));
    }
    text::text_of(&chars, from, chars.len())
}

fn leading(chars: &Vec<char>) -> (from: usize)
    ensures
        from <= chars@.len(),
        chars@.skip(from as int) == trim_start(chars@),
{
    let mut from: usize = 0;
    assert(chars@.skip(0) == chars@);
    while from < chars.len() && space(chars[from])
        invariant
            from <= chars@.len(),
            trim_start(chars@) == trim_start(chars@.skip(from as int)),
        decreases chars@.len() - from,
    {
        assert(chars@.skip(from as int).drop_first() == chars@.skip(from + 1));
        from += 1;
    }
    from
}

/// The text without the white space around it.
pub fn trimmed(text: &str) -> (r: String)
    ensures
        r@ == trim(text@),
{
    let chars = text::chars_of(text);
    let from = leading(&chars);
    let mut to: usize = chars.len();
    proof {
        assert(chars@.skip(from as int) == chars@.subrange(from as int, to as int));
    }
    while to > from && space(chars[to - 1])
        invariant
            from <= to <= chars@.len(),
            trim(chars@) == trim_end(chars@.subrange(from as int, to as int)),
        decreases to - from,
    {
        assert(chars@.subrange(from as int, to as int).drop_last() == chars@.subrange(
            from as int,
            to - 1,
        ));
        to -= 1;
    }
    text::text_of(&chars, from, to)
}

/// Trimmed text neither starts nor ends with white space.
pub proof fn trim_leaves_no_margin(text: Seq<char>)
    ensures
        trim(text).len() > 0 ==> !is_space(trim(text)[0]) && !is_space(trim(text).last()),
{
    trim_start_margin(text);
    trim_end_margin(trim_start(text));
}

proof fn trim_start_margin(text: Seq<char>)
    ensures
        trim_start(text).len() > 0 ==> !is_space(trim_start(text)[0]),
    decreases text.len(),
{
    if text.len() > 0 && is_space(text[0]) {
        trim_start_margin(text.drop_first());
    }
}

proof fn trim_end_margin(text: Seq<char>)
    ensures
        trim_end(text).len() > 0 ==> !is_space(trim_end(text).last()),
        trim_end(text).is_prefix_of(text),
    decreases text.len(),
{
    if text.len() > 0 && is_space(text.last()) {
        trim_end_margin(text.drop_last());
    }
}

/// Trimming twice is trimming once.
pub proof fn trim_is_idempotent(text: Seq<char>)
    ensures
        trim(trim(text)) == trim(text),
{
    trim_leaves_no_margin(text);
}

// ── letters ─────────────────────────────────────────────────────────

/// What `char::is_alphanumeric` answers.
pub uninterp spec fn alphanumeric(c: char) -> bool;

/// An ASCII letter or digit.
pub open spec fn ascii_alphanumeric(c: char) -> bool {
    ||| '0' <= c <= '9'
    ||| 'A' <= c <= 'Z'
    ||| 'a' <= c <= 'z'
}

/// `char::is_alphanumeric` depends on the character alone, and holds among the
/// ASCII characters of the letters and the digits.
pub assume_specification[ char::is_alphanumeric ](c: char) -> (r: bool)
    ensures
        r == alphanumeric(c),
        (c as int) < 0x80 ==> r == ascii_alphanumeric(c),
;

/// What `str::to_lowercase` answers.
pub uninterp spec fn lowercase(text: Seq<char>) -> Seq<char>;

/// The text holds none of the letters `A` to `Z`.
pub open spec fn no_capitals(text: Seq<char>) -> bool {
    forall|i: int| 0 <= i < text.len() ==> !('A' <= #[trigger] text[i] <= 'Z')
}

/// `str::to_lowercase` depends on the text alone, lowers exactly the letters `A` to `Z` of
/// an ASCII text, and leaves none of them in any text.
pub assume_specification[ str::to_lowercase ](s: &str) -> (r: String)
    ensures
        r@ == lowercase(s@),
        vstd::utf8::is_ascii_chars(s@) ==> r@ == ascii_lower(s@),
        no_capitals(r@),
;

/// The ASCII lower-case form of a character.
pub open spec fn ascii_lower_char(c: char) -> char {
    if 'A' <= c <= 'Z' {
        ((c as int) + 32) as char
    } else {
        c
    }
}

/// The text with its ASCII letters in lower case.
pub open spec fn ascii_lower(text: Seq<char>) -> Seq<char> {
    text.map_values(|c: char| ascii_lower_char(c))
}

fn lower_char(c: char) -> (r: char)
    ensures
        r == ascii_lower_char(c),
{
    if 'A' <= c && c <= 'Z' {
        let byte: u8 = c as u8;
        (byte + 32) as char
    } else {
        c
    }
}

/// The text with its ASCII letters in lower case.
pub fn lowered(text: &str) -> (r: String)
    ensures
        r@ == ascii_lower(text@),
{
    let chars = text::chars_of(text);
    let mut out: Vec<char> = Vec::new();
    for i in 0..chars.len()
        invariant
            out@ == ascii_lower(chars@.take(i as int)),
    {
        out.push(lower_char(chars[i]));
        assert(ascii_lower(chars@.take(i + 1)) =~= ascii_lower(chars@.take(i as int)).push(
            ascii_lower_char(chars@[i as int]),
        ));
    }
    assert(chars@.take(chars@.len() as int) == chars@);
    text::whole_text(&out)
}

// ── words ───────────────────────────────────────────────────────────

/// What parts one word from the next.
#[derive(Clone, Copy, PartialEq, Eq, Structural)]
pub enum Separator {
    /// White space.
    Space,
    /// Whatever is neither a letter nor a digit.
    Symbol,
}

impl Separator {
    /// Whether a character parts words.
    pub open spec fn parts(self, c: char) -> bool {
        match self {
            Separator::Space => is_space(c),
            Separator::Symbol => !alphanumeric(c),
        }
    }

    fn is(self, c: char) -> (r: bool)
        ensures
            r == self.parts(c),
    {
        match self {
            Separator::Space => space(c),
            Separator::Symbol => !c.is_alphanumeric(),
        }
    }
}

/// The words that have ended, and the one under way, at the end of `text`.
pub open spec fn word_scan(text: Seq<char>, by: Separator) -> (Seq<Seq<char>>, Seq<char>)
    decreases text.len(),
{
    if text.len() == 0 {
        (Seq::empty(), Seq::empty())
    } else {
        let (done, current) = word_scan(text.drop_last(), by);
        if !by.parts(text.last()) {
            (done, current.push(text.last()))
        } else if current.len() > 0 {
            (done.push(current), Seq::empty())
        } else {
            (done, current)
        }
    }
}

/// The words of a text: its longest stretches without a separator.
pub open spec fn words(text: Seq<char>, by: Separator) -> Seq<Seq<char>> {
    let (done, current) = word_scan(text, by);
    if current.len() > 0 {
        done.push(current)
    } else {
        done
    }
}

/// The words of a text.
pub fn words_of(text: &str, by: Separator) -> (r: Vec<String>)
    ensures
        text::views(r@) == words(text@, by),
{
    let chars = text::chars_of(text);
    let mut done: Vec<String> = Vec::new();
    let mut current = String::new();
    let mut empty = true;
    for i in 0..chars.len()
        invariant
            text::views(done@) == word_scan(chars@.take(i as int), by).0,
            current@ == word_scan(chars@.take(i as int), by).1,
            empty == (current@.len() == 0),
    {
        proof {
            assert(chars@.take(i + 1).drop_last() == chars@.take(i as int));
        }
        let c = chars[i];
        if !by.is(c) {
            current.push(c);
            empty = false;
        } else if !empty {
            let ghost before = done@;
            done.push(current);
            assert(text::views(done@) =~= text::views(before).push(current@));
            current = String::new();
            empty = true;
        }
    }
    assert(chars@.take(chars@.len() as int) == chars@);
    if !empty {
        let ghost before = done@;
        done.push(current);
        assert(text::views(done@) =~= text::views(before).push(current@));
    }
    done
}

/// A stretch without a separator.
pub open spec fn unparted(word: Seq<char>, by: Separator) -> bool {
    forall|j: int| 0 <= j < word.len() ==> !by.parts(#[trigger] word[j])
}

/// A word is never empty and holds no separator.
pub proof fn words_are_whole(text: Seq<char>, by: Separator)
    ensures
        forall|i: int|
            0 <= i < words(text, by).len() ==> (#[trigger] words(text, by)[i]).len() > 0 && unparted(
                words(text, by)[i],
                by,
            ),
{
    word_scan_is_whole(text, by);
}

proof fn word_scan_is_whole(text: Seq<char>, by: Separator)
    ensures
        unparted(word_scan(text, by).1, by),
        forall|i: int|
            0 <= i < word_scan(text, by).0.len() ==> (#[trigger] word_scan(text, by).0[i]).len() > 0
                && unparted(word_scan(text, by).0[i], by),
    decreases text.len(),
{
    if text.len() > 0 {
        word_scan_is_whole(text.drop_last(), by);
        let (done, current) = word_scan(text.drop_last(), by);
        let (now, next) = word_scan(text, by);
        assert forall|i: int| 0 <= i < now.len() implies (#[trigger] now[i]).len() > 0 && unparted(
            now[i],
            by,
        ) by {
            if i < done.len() {
                assert(now[i] == done[i]);
            }
        }
    }
}

/// Splitting into words drops the separators and nothing else.
pub proof fn words_keep_the_rest(text: Seq<char>, by: Separator)
    ensures
        words(text, by).flatten() == text.filter(|c: char| !by.parts(c)),
{
    word_scan_keeps_the_rest(text, by);
    let (done, current) = word_scan(text, by);
    if current.len() > 0 {
        done.lemma_flatten_push(current);
    } else {
        assert(done.flatten() + current =~= done.flatten());
    }
}

proof fn word_scan_keeps_the_rest(text: Seq<char>, by: Separator)
    ensures
        ({
            let (done, current) = word_scan(text, by);
            done.flatten() + current == text.filter(|c: char| !by.parts(c))
        }),
    decreases text.len(),
{
    reveal(Seq::filter);
    let keep = |c: char| !by.parts(c);
    if text.len() > 0 {
        word_scan_keeps_the_rest(text.drop_last(), by);
        let (done, current) = word_scan(text.drop_last(), by);
        if !by.parts(text.last()) {
            assert(done.flatten() + current.push(text.last()) =~= (done.flatten() + current).push(
                text.last(),
            ));
        } else if current.len() > 0 {
            done.lemma_flatten_push(current);
            assert(done.push(current).flatten() + Seq::<char>::empty() =~= done.flatten() + current);
        }
    } else {
        assert(Seq::<Seq<char>>::empty().flatten() =~= Seq::<char>::empty());
    }
}

/// The words of a text without capital letters have none.
pub proof fn words_gain_no_capitals(text: Seq<char>, by: Separator)
    requires
        no_capitals(text),
    ensures
        forall|i: int|
            0 <= i < words(text, by).len() ==> no_capitals(#[trigger] words(text, by)[i]),
{
    scan_gains_no_capitals(text, by);
}

proof fn scan_gains_no_capitals(text: Seq<char>, by: Separator)
    requires
        no_capitals(text),
    ensures
        no_capitals(word_scan(text, by).1),
        forall|i: int|
            0 <= i < word_scan(text, by).0.len() ==> no_capitals(
                #[trigger] word_scan(text, by).0[i],
            ),
    decreases text.len(),
{
    if text.len() > 0 {
        let rest = text.drop_last();
        assert(no_capitals(rest)) by {
            assert forall|i: int| 0 <= i < rest.len() implies !('A' <= #[trigger] rest[i]
                <= 'Z') by {
                assert(rest[i] == text[i]);
            }
        }
        scan_gains_no_capitals(rest, by);
        let (done, current) = word_scan(rest, by);
        let (now, next) = word_scan(text, by);
        assert(!('A' <= text[text.len() - 1] <= 'Z'));
        assert forall|i: int| 0 <= i < now.len() implies no_capitals(#[trigger] now[i]) by {
            if i < done.len() {
                assert(now[i] == done[i]);
            }
        }
    }
}

/// A separator parts the words before it from those behind it.
pub proof fn words_are_parted(before: Seq<char>, c: char, behind: Seq<char>, by: Separator)
    requires
        by.parts(c),
    ensures
        words(before + seq![c] + behind, by) == words(before, by) + words(behind, by),
{
    scan_is_parted(before, c, behind, by);
    let (done, current) = word_scan(behind, by);
    assert((words(before, by) + done).push(current) =~= words(before, by) + done.push(current));
}

proof fn scan_is_parted(before: Seq<char>, c: char, behind: Seq<char>, by: Separator)
    requires
        by.parts(c),
    ensures
        word_scan(before + seq![c] + behind, by).0 == words(before, by) + word_scan(behind, by).0,
        word_scan(before + seq![c] + behind, by).1 == word_scan(behind, by).1,
    decreases behind.len(),
{
    let text = before + seq![c] + behind;
    if behind.len() == 0 {
        assert(text.drop_last() =~= before);
        assert(words(before, by) + Seq::<Seq<char>>::empty() =~= words(before, by));
    } else {
        assert(text.drop_last() =~= before + seq![c] + behind.drop_last());
        assert(text.last() == behind.last());
        scan_is_parted(before, c, behind.drop_last(), by);
        let (done, current) = word_scan(behind.drop_last(), by);
        assert((words(before, by) + done).push(current) =~= words(before, by) + done.push(current));
    }
}

// ── joining ─────────────────────────────────────────────────────────

/// The parts with `glue` between each two.
pub open spec fn joined(parts: Seq<Seq<char>>, glue: Seq<char>) -> Seq<char>
    decreases parts.len(),
{
    if parts.len() == 0 {
        Seq::empty()
    } else if parts.len() == 1 {
        parts[0]
    } else {
        joined(parts.drop_last(), glue) + glue + parts.last()
    }
}

/// Every part is held by the parts joined.
pub proof fn joined_holds_each(parts: Seq<Seq<char>>, glue: Seq<char>, i: int)
    requires
        0 <= i < parts.len(),
    ensures
        text::contains(joined(parts, glue), parts[i]),
    decreases parts.len(),
{
    let nothing = Seq::<char>::empty();
    if parts.len() == 1 {
        text::holds_its_middle(nothing, parts[0], nothing);
        assert(nothing + parts[0] + nothing =~= parts[0]);
    } else if i == parts.len() - 1 {
        let front = joined(parts.drop_last(), glue) + glue;
        text::holds_its_middle(front, parts[i], nothing);
        assert(front + parts[i] + nothing =~= joined(parts, glue));
    } else {
        let rest = joined(parts.drop_last(), glue);
        joined_holds_each(parts.drop_last(), glue, i);
        assert(parts.drop_last()[i] == parts[i]);
        text::holds_within(nothing, rest, glue + parts.last(), parts[i]);
        assert(nothing + rest + (glue + parts.last()) =~= joined(parts, glue));
    }
}

/// Joining adds no capital letters where the glue has none.
pub proof fn joining_adds_no_capitals(parts: Seq<Seq<char>>, glue: Seq<char>)
    requires
        forall|i: int| 0 <= i < parts.len() ==> no_capitals(#[trigger] parts[i]),
        no_capitals(glue),
    ensures
        no_capitals(joined(parts, glue)),
    decreases parts.len(),
{
    if parts.len() > 1 {
        let rest = parts.drop_last();
        assert forall|i: int| 0 <= i < rest.len() implies no_capitals(#[trigger] rest[i]) by {
            assert(rest[i] == parts[i]);
        }
        joining_adds_no_capitals(rest, glue);
        assert(no_capitals(parts[parts.len() - 1]));
    } else if parts.len() == 1 {
        assert(no_capitals(parts[0]));
    }
}

/// The parts with `glue` between each two.
pub fn join(parts: &Vec<String>, glue: &str) -> (r: String)
    ensures
        r@ == joined(text::views(parts@), glue@),
{
    let mut r = String::new();
    for i in 0..parts.len()
        invariant
            r@ == joined(text::views(parts@).take(i as int), glue@),
    {
        proof {
            assert(text::views(parts@).take(i + 1).drop_last() =~= text::views(parts@).take(i as int));
            assert(text::views(parts@).take(i + 1).last() == parts@[i as int]@);
        }
        if i > 0 {
            r.append(glue);
            r.append(parts[i].as_str());
        } else {
            r = parts[i].clone();
            assert(r@ == text::views(parts@).take(1)[0]);
        }
    }
    assert(text::views(parts@).take(parts@.len() as int) == text::views(parts@));
    r
}

/// The words of a text with one blank between each two.
pub open spec fn clean(text: Seq<char>) -> Seq<char> {
    joined(words(text, Separator::Space), " "@)
}

/// The words of a text with one blank between each two.
pub fn cleaned(text: &str) -> (r: String)
    ensures
        r@ == clean(text@),
{
    join(&words_of(text, Separator::Space), " ")
}

// ── replacement and truncation ──────────────────────────────────────

/// The text with every copy of `from`, found left to right, turned into `to`.
pub open spec fn replaced(text: Seq<char>, from: Seq<char>, to: Seq<char>) -> Seq<char>
    decreases text.len(),
{
    if text.len() == 0 || from.len() == 0 {
        text
    } else if from.is_prefix_of(text) {
        to + replaced(text.skip(from.len() as int), from, to)
    } else {
        seq![text[0]] + replaced(text.drop_first(), from, to)
    }
}

/// The text with every copy of `from`, found left to right, turned into `to`.
pub fn replace(text: &str, from: &str, to: &str) -> (r: String)
    requires
        from@.len() > 0,
    ensures
        r@ == replaced(text@, from@, to@),
{
    let chars = text::chars_of(text);
    let wanted = text::chars_of(from);
    let mut r = String::new();
    let mut at: usize = 0;
    assert(chars@.skip(0) == chars@);
    while at < chars.len()
        invariant
            at <= chars@.len(),
            chars@ == text@,
            wanted@ == from@,
            from@.len() > 0,
            replaced(text@, from@, to@) == r@ + replaced(chars@.skip(at as int), from@, to@),
        decreases chars@.len() - at,
    {
        let ghost rest = chars@.skip(at as int);
        let ghost before = r@;
        if text::stands(&chars, &wanted, at) {
            r.append(to);
            assert(rest.skip(from@.len() as int) == chars@.skip(at + from@.len()));
            assert(before + (to@ + replaced(chars@.skip(at + from@.len()), from@, to@)) =~= r@
                + replaced(chars@.skip(at + from@.len()), from@, to@));
            at += wanted.len();
        } else {
            r.push(chars[at]);
            assert(rest.drop_first() == chars@.skip(at + 1));
            assert(before + (seq![rest[0]] + replaced(chars@.skip(at + 1), from@, to@)) =~= r@
                + replaced(chars@.skip(at + 1), from@, to@));
            at += 1;
        }
    }
    assert(chars@.skip(at as int) =~= Seq::<char>::empty());
    assert(r@ + Seq::<char>::empty() =~= r@);
    r
}

/// At most the first `limit` characters.
pub open spec fn cut(text: Seq<char>, limit: nat) -> Seq<char> {
    if text.len() > limit {
        text.take(limit as int)
    } else {
        text
    }
}

/// At most the first `limit` characters.
pub fn shortened(text: &str, limit: usize) -> (r: String)
    ensures
        r@ == cut(text@, limit as nat),
{
    let chars = text::chars_of(text);
    if chars.len() > limit {
        text::text_of(&chars, 0, limit)
    } else {
        text::whole_text(&chars)
    }
}

/// A cut text is the longest start of the text that is within the limit.
pub proof fn cuts_are_longest(text: Seq<char>, limit: nat)
    ensures
        cut(text, limit).is_prefix_of(text),
        cut(text, limit).len() == if text.len() <= limit {
            text.len()
        } else {
            limit
        },
{
}

/// The first copy of a text that is to be replaced gives way to its replacement, what stands
/// before it stays, and so it goes on behind it.
pub proof fn copies_are_replaced(
    front: Seq<char>,
    from: Seq<char>,
    to: Seq<char>,
    back: Seq<char>,
)
    requires
        from.len() > 0,
        forall|i: int| 0 <= i < front.len() ==> #[trigger] front[i] != from[0],
    ensures
        replaced(front + from + back, from, to) == front + to + replaced(back, from, to),
        replaced(front, from, to) == front,
    decreases front.len(),
{
    let whole = front + from + back;
    if front.len() == 0 {
        assert(from.is_prefix_of(whole));
        assert(whole.skip(from.len() as int) =~= back);
        assert(front + to =~= to);
    } else {
        let rest = front.drop_first();
        assert forall|i: int| 0 <= i < rest.len() implies #[trigger] rest[i] != from[0] by {
            assert(rest[i] == front[i + 1]);
        }
        copies_are_replaced(rest, from, to, back);
        assert(whole[0] == front[0]);
        assert(!from.is_prefix_of(whole));
        assert(!from.is_prefix_of(front));
        assert(whole.drop_first() =~= rest + from + back);
        assert(seq![front[0]] + (rest + to + replaced(back, from, to)) =~= front + to + replaced(
            back,
            from,
            to,
        ));
        assert(seq![front[0]] + rest =~= front);
    }
}

/// Trimming takes away the white space around a text, and nothing else.
pub proof fn margins_are_trimmed(front: Seq<char>, core: Seq<char>, back: Seq<char>)
    requires
        forall|i: int| 0 <= i < front.len() ==> is_space(#[trigger] front[i]),
        forall|i: int| 0 <= i < back.len() ==> is_space(#[trigger] back[i]),
        core.len() > 0,
        !is_space(core[0]),
        !is_space(core.last()),
    ensures
        trim_start(front + core + back) == core + back,
        trim(front + core + back) == core,
    decreases front.len() + back.len(),
{
    let whole = front + core + back;
    if front.len() > 0 {
        let rest = front.drop_first();
        assert forall|i: int| 0 <= i < rest.len() implies is_space(#[trigger] rest[i]) by {
            assert(rest[i] == front[i + 1]);
        }
        assert(whole[0] == front[0]);
        assert(whole.drop_first() =~= rest + core + back);
        margins_are_trimmed(rest, core, back);
    } else {
        assert(whole =~= core + back);
        assert(whole[0] == core[0]);
        end_margin_is_trimmed(core, back);
    }
}

proof fn end_margin_is_trimmed(core: Seq<char>, back: Seq<char>)
    requires
        forall|i: int| 0 <= i < back.len() ==> is_space(#[trigger] back[i]),
        core.len() > 0,
        !is_space(core.last()),
    ensures
        trim_end(core + back) == core,
    decreases back.len(),
{
    if back.len() > 0 {
        let rest = back.drop_last();
        assert forall|i: int| 0 <= i < rest.len() implies is_space(#[trigger] rest[i]) by {
            assert(rest[i] == back[i]);
        }
        assert((core + back).last() == back.last());
        assert(is_space(back[back.len() - 1]));
        assert((core + back).drop_last() =~= core + rest);
        end_margin_is_trimmed(core, rest);
    } else {
        assert(core + back =~= core);
    }
}

proof fn one_word_is_itself(word: Seq<char>, by: Separator)
    requires
        forall|i: int| 0 <= i < word.len() ==> !by.parts(#[trigger] word[i]),
    ensures
        word_scan(word, by) == (Seq::<Seq<char>>::empty(), word),
        word.len() > 0 ==> words(word, by) == seq![word],
    decreases word.len(),
{
    if word.len() > 0 {
        let rest = word.drop_last();
        assert forall|i: int| 0 <= i < rest.len() implies !by.parts(#[trigger] rest[i]) by {
            assert(rest[i] == word[i]);
        }
        one_word_is_itself(rest, by);
        assert(!by.parts(word[word.len() - 1]));
        assert(rest.push(word.last()) =~= word);
        assert(Seq::<Seq<char>>::empty().push(word) =~= seq![word]);
    } else {
        assert(word =~= Seq::<char>::empty());
    }
}

/// A cleaned text has its words in their order, with one blank between each two and none
/// around them, however much white space there was.
pub proof fn words_get_one_blank(front: Seq<char>, c: char, word: Seq<char>)
    requires
        is_space(c),
        word.len() > 0,
        forall|i: int| 0 <= i < word.len() ==> !is_space(#[trigger] word[i]),
    ensures
        clean(word) == word,
        clean(front + seq![c]) == clean(front),
        clean(front).len() == 0 ==> clean(front + seq![c] + word) == word,
        clean(front).len() > 0 ==> clean(front + seq![c] + word) == clean(front) + " "@ + word,
{
    let by = Separator::Space;
    let none = Seq::<char>::empty();
    let known = words(front, by);
    assert forall|i: int| 0 <= i < word.len() implies !by.parts(#[trigger] word[i]) by {}
    one_word_is_itself(word, by);
    words_are_parted(front, c, word, by);
    words_are_parted(front, c, none, by);
    assert(front + seq![c] + none =~= front + seq![c]);
    assert(words(none, by) =~= Seq::<Seq<char>>::empty());
    assert(known + words(none, by) =~= known);
    let all = known + seq![word];
    assert(all.drop_last() =~= known);
    assert(all.last() == word);
    words_are_whole(front, by);
    if known.len() > 0 {
        joined_holds_each(known, " "@, 0);
        let at = choose|at: int| text::occurs_at(joined(known, " "@), known[0], at);
        assert(known[0].len() > 0);
        assert(clean(front).len() > 0);
    }
}

} // verus!
