//! JSON objects, read by the `serde_json` crate.

use serde_json::Value;
use vstd::prelude::*;

use crate::text;

verus! {

/// Why a text is no JSON.
#[verifier::external_type_specification]
#[verifier::external_body]
pub struct ExJsonError(serde_json::Error);

/// What a member of a JSON object holds, as far as this crate reads it.
pub enum Member {
    /// A number, in the notation that `serde_json` prints it in.
    Number(String),
    /// An array: each item that is a string, and `None` for each other item.
    Items(Vec<Option<String>>),
    /// Anything else.
    Other,
}

/// A member with its texts as sequences of characters.
pub enum MemberView {
    Number(Seq<char>),
    Items(Seq<Option<Seq<char>>>),
    Other,
}

impl View for Member {
    type V = MemberView;

    open spec fn view(&self) -> MemberView {
        match *self {
            Member::Number(number) => MemberView::Number(number@),
            Member::Items(items) => MemberView::Items(
                items@.map_values(|item: Option<String>| text::option_view(item)),
            ),
            Member::Other => MemberView::Other,
        }
    }
}

/// A member of an object under its key.
pub struct Entry {
    pub key: String,
    pub member: Member,
}

impl View for Entry {
    type V = (Seq<char>, MemberView);

    open spec fn view(&self) -> (Seq<char>, MemberView) {
        (self.key@, self.member@)
    }
}

/// What `serde_json::from_str` reads a text as: the members of the object it holds (none
/// when it holds another value), when the text is JSON.
pub uninterp spec fn json_members(json: Seq<char>) -> Option<Seq<(Seq<char>, MemberView)>>;

/// `serde_json::from_str` to a `serde_json::Value`: a function of the text alone, by name.
#[verifier::external_body]
pub(crate) fn read_json(json: &str) -> (r: Result<Vec<Entry>, serde_json::Error>)
    ensures
        match r {
            Ok(entries) => json_members(json@) == Some(text::views(entries@)),
            Err(_) => json_members(json@) is None,
        },
{
    Ok(match serde_json::from_str(json)? {
        Value::Object(map) => map.into_iter().map(|(key, value)| Entry { key, member: match value {
            Value::Number(number) => Member::Number(number.to_string()),
            Value::Array(items) => Member::Items(items.into_iter().map(|item| match item {
                Value::String(s) => Some(s),
                _ => None,
            }).collect()),
            _ => Member::Other,
        } }).collect(),
        _ => Vec::new(),
    })
}

/// The first member under a key.
pub open spec fn member_of(entries: Seq<(Seq<char>, MemberView)>, key: Seq<char>) -> Option<
    MemberView,
>
    decreases entries.len(),
{
    if entries.len() == 0 {
        None
    } else if entries[0].0 == key {
        Some(entries[0].1)
    } else {
        member_of(entries.drop_first(), key)
    }
}

/// The first member under a key.
pub fn member<'a>(entries: &'a Vec<Entry>, key: &str) -> (r: Option<&'a Member>)
    ensures
        match r {
            Some(found) => member_of(text::views(entries@), key@) == Some(found@),
            None => member_of(text::views(entries@), key@) is None,
        },
{
    let ghost all = text::views(entries@);
    assert(all.skip(0) == all);
    for i in 0..entries.len()
        invariant
            all == text::views(entries@),
            member_of(all, key@) == member_of(all.skip(i as int), key@),
    {
        assert(all.skip(i as int)[0] == entries@[i as int]@);
        assert(all.skip(i as int).drop_first() == all.skip(i + 1));
        if text::same(entries[i].key.as_str(), key) {
            return Some(&entries[i].member);
        }
    }
    None
}

/// The number under a key, in JSON notation.
pub open spec fn number_at(entries: Seq<(Seq<char>, MemberView)>, key: Seq<char>) -> Option<
    Seq<char>,
> {
    match member_of(entries, key) {
        Some(MemberView::Number(number)) => Some(number),
        _ => None,
    }
}

/// The number under a key, in JSON notation.
pub fn number(entries: &Vec<Entry>, key: &str) -> (r: Option<String>)
    ensures
        text::option_view(r) == number_at(text::views(entries@), key@),
{
    match member(entries, key) {
        Some(Member::Number(number)) => Some(number.clone()),
        _ => None,
    }
}

/// The items that are strings, in order.
pub open spec fn only_strings(items: Seq<Option<Seq<char>>>) -> Seq<Seq<char>>
    decreases items.len(),
{
    if items.len() == 0 {
        Seq::empty()
    } else {
        match items.last() {
            Some(item) => only_strings(items.drop_last()).push(item),
            None => only_strings(items.drop_last()),
        }
    }
}

/// The strings of the array under a key; none when there is no such array.
pub open spec fn strings_at(entries: Seq<(Seq<char>, MemberView)>, key: Seq<char>) -> Seq<
    Seq<char>,
> {
    match member_of(entries, key) {
        Some(MemberView::Items(items)) => only_strings(items),
        _ => Seq::empty(),
    }
}

/// The strings of the array under a key; none when there is no such array.
pub fn strings(entries: &Vec<Entry>, key: &str) -> (r: Vec<String>)
    ensures
        text::views(r@) == strings_at(text::views(entries@), key@),
{
    let mut r: Vec<String> = Vec::new();
    assert(text::views(r@) =~= Seq::<Seq<char>>::empty());
    if let Some(Member::Items(items)) = member(entries, key) {
        let ghost all = items@.map_values(|item: Option<String>| text::option_view(item));
        for i in 0..items.len()
            invariant
                all == items@.map_values(|item: Option<String>| text::option_view(item)),
                text::views(r@) == only_strings(all.take(i as int)),
        {
            assert(all.take(i + 1).drop_last() == all.take(i as int));
            assert(all.take(i + 1).last() == text::option_view(items@[i as int]));
            if let Some(item) = &items[i] {
                let ghost before = r@;
                r.push(item.clone());
                assert(text::views(r@) =~= text::views(before).push(item@));
            }
        }
        assert(all.take(items@.len() as int) == all);
    }
    r
}

/// Of an array of strings every string is read, in order.
pub proof fn all_strings_are_kept(items: Seq<Seq<char>>)
    ensures
        only_strings(items.map_values(|item: Seq<char>| Some(item))) == items,
    decreases items.len(),
{
    let all = items.map_values(|item: Seq<char>| Some(item));
    if items.len() > 0 {
        all_strings_are_kept(items.drop_last());
        assert(all.drop_last() =~= items.drop_last().map_values(|item: Seq<char>| Some(item)));
        assert(items.drop_last().push(items.last()) =~= items);
    } else {
        assert(only_strings(all) =~= items);
    }
}

/// A member is found under its own key: the first of that key, and none where there is none.
pub proof fn members_are_found_by_key(entries: Seq<(Seq<char>, MemberView)>, key: Seq<char>)
    ensures
        match member_of(entries, key) {
            Some(member) => exists|i: int|
                {
                    &&& 0 <= i < entries.len()
                    &&& #[trigger] entries[i] == (key, member)
                    &&& forall|j: int| 0 <= j < i ==> (#[trigger] entries[j]).0 != key
                },
            None => forall|j: int| 0 <= j < entries.len() ==> (#[trigger] entries[j]).0 != key,
        },
    decreases entries.len(),
{
    if entries.len() > 0 && entries[0].0 != key {
        let rest = entries.drop_first();
        members_are_found_by_key(rest, key);
        match member_of(rest, key) {
            Some(member) => {
                let i = choose|i: int|
                    {
                        &&& 0 <= i < rest.len()
                        &&& #[trigger] rest[i] == (key, member)
                        &&& forall|j: int| 0 <= j < i ==> (#[trigger] rest[j]).0 != key
                    };
                assert(entries[i + 1] == (key, member));
                assert forall|j: int| 0 <= j < i + 1 implies (#[trigger] entries[j]).0 != key by {
                    if j > 0 {
                        assert(rest[j - 1] == entries[j]);
                    }
                }
            },
            None => {
                assert forall|j: int| 0 <= j < entries.len() implies (#[trigger] entries[j]).0
                    != key by {
                    if j > 0 {
                        assert(rest[j - 1] == entries[j]);
                    }
                }
            },
        }
    } else if entries.len() > 0 {
        assert(entries[0] == (key, entries[0].1));
    }
}

} // verus!
