//! The shape of a snippet in JSON. A snippet is an object with the members
//! `labels` and `args` (lists of strings, empty when absent), `description`,
//! `executable` and `entry_point` (a string or null, none when absent) and
//! `if_shell` (a boolean, false when absent); other members are ignored. It
//! may also be a list of these six in that order, of which the last two may
//! be left out. Any other value is no snippet.

use crate::json::Json;
use crate::snippet::{CommandSnippet, SnippetView};
use crate::text::{lemma_texts_push, same_text, texts};
use vstd::prelude::*;

verus! {

/// The text of a JSON string; of any other value, the empty text.
pub open spec fn text_in(json: Json) -> Seq<char> {
    match json {
        Json::Text(text) => text@,
        _ => Seq::<char>::empty(),
    }
}

/// Whether every value of `items` is a string.
pub open spec fn all_text(items: Seq<Json>) -> bool {
    forall|i: int| 0 <= i < items.len() ==> #[trigger] items[i] is Text
}

/// A list of strings: the texts of a JSON list whose items are all strings.
pub open spec fn text_list_of(json: Json) -> Option<Seq<Seq<char>>> {
    match json {
        Json::List(items) => if all_text(items@) {
            Some(items@.map_values(|item: Json| text_in(item)))
        } else {
            None
        },
        _ => None,
    }
}

/// A text that may be absent: a JSON string, or null for none.
pub open spec fn optional_text_of(json: Json) -> Option<Option<Seq<char>>> {
    match json {
        Json::Null => Some(None),
        Json::Text(text) => Some(Some(text@)),
        _ => None,
    }
}

/// A flag: a JSON boolean.
pub open spec fn flag_of(json: Json) -> Option<bool> {
    match json {
        Json::Bool(flag) => Some(flag),
        _ => None,
    }
}

/// The value of the first member of `members` whose key is `key`.
pub open spec fn member(members: Seq<(String, Json)>, key: Seq<char>) -> Option<Json>
    decreases members.len(),
{
    if members.len() == 0 {
        None
    } else if members[0].0@ == key {
        Some(members[0].1)
    } else {
        member(members.drop_first(), key)
    }
}

/// The item of `items` at `position`, where there is one.
pub open spec fn item(items: Seq<Json>, position: int) -> Option<Json> {
    if 0 <= position < items.len() {
        Some(items[position])
    } else {
        None
    }
}

/// A list of strings that is empty when absent.
pub open spec fn texts_or_none(found: Option<Json>) -> Option<Seq<Seq<char>>> {
    match found {
        Some(json) => text_list_of(json),
        None => Some(Seq::<Seq<char>>::empty()),
    }
}

/// A text that is none when absent.
pub open spec fn text_or_none(found: Option<Json>) -> Option<Option<Seq<char>>> {
    match found {
        Some(json) => optional_text_of(json),
        None => Some(None),
    }
}

/// A flag that is false when absent.
pub open spec fn flag_or_false(found: Option<Json>) -> Option<bool> {
    match found {
        Some(json) => flag_of(json),
        None => Some(false),
    }
}

/// The snippet of six parts, where each of them was read.
pub open spec fn assembled(
    labels: Option<Seq<Seq<char>>>,
    description: Option<Option<Seq<char>>>,
    executable: Option<Option<Seq<char>>>,
    entry_point: Option<Option<Seq<char>>>,
    args: Option<Seq<Seq<char>>>,
    if_shell: Option<bool>,
) -> Option<SnippetView> {
    if labels is Some && description is Some && executable is Some && entry_point is Some
        && args is Some && if_shell is Some {
        Some(
            SnippetView {
                labels: labels->0,
                description: description->0,
                executable: executable->0,
                entry_point: entry_point->0,
                args: args->0,
                if_shell: if_shell->0,
            },
        )
    } else {
        None
    }
}

/// The snippet that the members of an object define.
pub open spec fn snippet_of_members(members: Seq<(String, Json)>) -> Option<SnippetView> {
    assembled(
        texts_or_none(member(members, "labels"@)),
        text_or_none(member(members, "description"@)),
        text_or_none(member(members, "executable"@)),
        text_or_none(member(members, "entry_point"@)),
        texts_or_none(member(members, "args"@)),
        flag_or_false(member(members, "if_shell"@)),
    )
}

/// The snippet that the items of a list define: labels, description,
/// executable and entry point must be there, arguments and shell flag may
/// follow, and nothing else.
pub open spec fn snippet_of_items(items: Seq<Json>) -> Option<SnippetView> {
    if 4 <= items.len() <= 6 {
        assembled(
            text_list_of(items[0]),
            optional_text_of(items[1]),
            optional_text_of(items[2]),
            optional_text_of(items[3]),
            texts_or_none(item(items, 4)),
            flag_or_false(item(items, 5)),
        )
    } else {
        None
    }
}

/// The snippet that `json` defines; `None` where it defines none.
pub open spec fn snippet_of(json: Json) -> Option<SnippetView> {
    match json {
        Json::Object(members) => snippet_of_members(members@),
        Json::List(items) => snippet_of_items(items@),
        _ => None,
    }
}

/// The view of a snippet that may be absent.
pub open spec fn optional_snippet(snippet: Option<CommandSnippet>) -> Option<SnippetView> {
    match snippet {
        Some(s) => Some(s@),
        None => None,
    }
}

/// The views of a list of strings that may be absent.
pub open spec fn optional_texts(list: Option<Vec<String>>) -> Option<Seq<Seq<char>>> {
    match list {
        Some(v) => Some(texts(v@)),
        None => None,
    }
}

/// The view of a text that was read, and may be none.
pub open spec fn read_text(read: Option<Option<String>>) -> Option<Option<Seq<char>>> {
    match read {
        Some(Some(text)) => Some(Some(text@)),
        Some(None) => Some(None),
        None => None,
    }
}

/// The value behind a reference that may be absent.
pub open spec fn found_value(found: Option<&Json>) -> Option<Json> {
    match found {
        Some(json) => Some(*json),
        None => None,
    }
}

fn find_member<'a>(members: &'a Vec<(String, Json)>, key: &str) -> (found: Option<&'a Json>)
    ensures
        found_value(found) == member(members@, key@),
{
    let mut i: usize = 0;
    assert(members@.skip(0) == members@);
    while i < members.len()
        invariant
            i <= members.len(),
            member(members@, key@) == member(members@.skip(i as int), key@),
        decreases members.len() - i,
    {
        assert(members@.skip(i as int).drop_first() == members@.skip(i + 1));
        if same_text(members[i].0.as_str(), key) {
            return Some(&members[i].1);
        }
        i = i + 1;
    }
    None
}

fn find_item<'a>(items: &'a Vec<Json>, position: usize) -> (found: Option<&'a Json>)
    ensures
        found_value(found) == item(items@, position as int),
{
    if position < items.len() {
        Some(&items[position])
    } else {
        None
    }
}

fn read_texts(json: &Json) -> (list: Option<Vec<String>>)
    ensures
        optional_texts(list) == text_list_of(*json),
{
    match json {
        Json::List(items) => {
            let mut list: Vec<String> = Vec::new();
            let mut i: usize = 0;
            while i < items.len()
                invariant
                    i <= items.len(),
                    *json == Json::List(*items),
                    all_text(items@.take(i as int)),
                    texts(list@) == items@.take(i as int).map_values(|item: Json| text_in(item)),
                decreases items.len() - i,
            {
                match &items[i] {
                    Json::Text(text) => {
                        proof {
                            lemma_texts_push(list@, *text);
                        }
                        list.push(text.clone());
                    },
                    _ => {
                        return None;
                    },
                }
                i = i + 1;
            }
            assert(items@.take(i as int) == items@);
            Some(list)
        },
        _ => None,
    }
}

fn read_optional_text(json: &Json) -> (read: Option<Option<String>>)
    ensures
        read_text(read) == optional_text_of(*json),
{
    match json {
        Json::Null => Some(None),
        Json::Text(text) => Some(Some(text.clone())),
        _ => None,
    }
}

fn read_flag(json: &Json) -> (flag: Option<bool>)
    ensures
        flag == flag_of(*json),
{
    match json {
        Json::Bool(flag) => Some(*flag),
        _ => None,
    }
}

fn texts_or_empty(found: Option<&Json>) -> (list: Option<Vec<String>>)
    ensures
        optional_texts(list) == texts_or_none(found_value(found)),
{
    match found {
        Some(json) => read_texts(json),
        None => Some(Vec::new()),
    }
}

fn text_or_absent(found: Option<&Json>) -> (read: Option<Option<String>>)
    ensures
        read_text(read) == text_or_none(found_value(found)),
{
    match found {
        Some(json) => read_optional_text(json),
        None => Some(None),
    }
}

fn flag_or_unset(found: Option<&Json>) -> (flag: Option<bool>)
    ensures
        flag == flag_or_false(found_value(found)),
{
    match found {
        Some(json) => read_flag(json),
        None => Some(false),
    }
}

fn assemble(
    labels: Option<Vec<String>>,
    description: Option<Option<String>>,
    executable: Option<Option<String>>,
    entry_point: Option<Option<String>>,
    args: Option<Vec<String>>,
    if_shell: Option<bool>,
) -> (snippet: Option<CommandSnippet>)
    ensures
        optional_snippet(snippet) == assembled(
            optional_texts(labels),
            read_text(description),
            read_text(executable),
            read_text(entry_point),
            optional_texts(args),
            if_shell,
        ),
{
    match (labels, description, executable, entry_point, args, if_shell) {
        (
            Some(labels),
            Some(description),
            Some(executable),
            Some(entry_point),
            Some(args),
            Some(if_shell),
        ) => Some(
            CommandSnippet { labels, description, executable, entry_point, args, if_shell },
        ),
        _ => None,
    }
}

/// The snippet that `json` defines; `None` where it defines none.
pub fn decode_snippet(json: &Json) -> (snippet: Option<CommandSnippet>)
    ensures
        optional_snippet(snippet) == snippet_of(*json),
{
    match json {
        Json::Object(members) => assemble(
            texts_or_empty(find_member(members, "labels")),
            text_or_absent(find_member(members, "description")),
            text_or_absent(find_member(members, "executable")),
            text_or_absent(find_member(members, "entry_point")),
            texts_or_empty(find_member(members, "args")),
            flag_or_unset(find_member(members, "if_shell")),
        ),
        Json::List(items) => {
            if items.len() < 4 || items.len() > 6 {
                return None;
            }
            assemble(
                read_texts(&items[0]),
                read_optional_text(&items[1]),
                read_optional_text(&items[2]),
                read_optional_text(&items[3]),
                texts_or_empty(find_item(items, 4)),
                flag_or_unset(find_item(items, 5)),
            )
        },
        _ => None,
    }
}

} // verus!
