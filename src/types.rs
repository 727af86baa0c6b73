use vstd::prelude::*;

use crate::json::{push_member, same_shape, Json, MAX_DEPTH};

pub mod completion;
pub mod prompt;
pub mod resource;
pub mod sampling;
pub mod tool;

verus! {

/// The text of a string value.
pub open spec fn text_of(j: Json) -> Option<Seq<char>> {
    match j {
        Json::Str(s) => Some(s@),
        _ => None,
    }
}

/// Member `i` of object `j`.
pub open spec fn entry_at(j: Json, i: int) -> Option<(String, Json)> {
    match j {
        Json::Object(es) => if 0 <= i < es@.len() {
            Some(es@[i])
        } else {
            None
        },
        _ => None,
    }
}

/// Member `i` of object `j` is `key: v`.
pub open spec fn entry(j: Json, i: int, key: Seq<char>, v: Json) -> bool {
    match entry_at(j, i) {
        Some(e) => e.0@ == key && e.1 == v,
        None => false,
    }
}

/// Member `i` of object `j` is named `key` and holds the string `text`.
pub open spec fn str_entry(j: Json, i: int, key: Seq<char>, text: Seq<char>) -> bool {
    match entry_at(j, i) {
        Some(e) => e.0@ == key && text_of(e.1) == Some(text),
        None => false,
    }
}

/// Number of members of object `j`.
pub open spec fn member_count(j: Json) -> int {
    match j {
        Json::Object(es) => es@.len() as int,
        _ => -1,
    }
}

/// Appends `key: "text"` when `text` is present.
pub fn push_opt_str(entries: &mut Vec<(String, Json)>, key: &str, text: &Option<String>)
    ensures
        text is None ==> final(entries)@ == old(entries)@,
        text is Some ==> final(entries)@.len() == old(entries)@.len() + 1
            && final(entries)@.last().0@ == key@ && text_of(final(entries)@.last().1) == Some(
            text->Some_0@,
        ),
        final(entries)@.subrange(0, old(entries)@.len() as int) == old(entries)@,
{
    match text {
        Some(t) => push_member(entries, key, Json::Str(t.clone())),
        None => {
            assert(entries@.subrange(0, entries@.len() as int) =~= entries@);
        },
    }
}

/// 1 for a present optional value, 0 for an absent one.
pub open spec fn present<T>(o: Option<T>) -> int {
    if o is Some {
        1
    } else {
        0
    }
}

/// Member `i` of object `j` is named `key` and has the shape of `orig`.
pub open spec fn shape_entry(j: Json, i: int, key: Seq<char>, orig: Json) -> bool {
    match entry_at(j, i) {
        Some(e) => e.0@ == key && same_shape(orig, e.1),
        None => false,
    }
}

/// Appends `key: value` when `value` is present, for a copy of it.
pub fn push_opt_copy(entries: &mut Vec<(String, Json)>, key: &str, value: &Option<Json>)
    ensures
        value is None ==> final(entries)@ == old(entries)@,
        value is Some ==> final(entries)@.len() == old(entries)@.len() + 1
            && final(entries)@.last().0@ == key@ && same_shape(value->Some_0, final(entries)@.last().1),
        final(entries)@.subrange(0, old(entries)@.len() as int) == old(entries)@,
{
    match value {
        Some(v) => push_member(entries, key, v.copy_nested(MAX_DEPTH)),
        None => {
            assert(entries@.subrange(0, entries@.len() as int) =~= entries@);
        },
    }
}

/// Identity of a client.
pub struct ClientInfo {
    pub name: String,
    pub version: String,
}

/// Identity of a server.
pub struct ServerInfo {
    pub name: String,
    pub version: String,
}

/// `j` is the object `{ name, version }`.
pub open spec fn encodes_identity(name: Seq<char>, version: Seq<char>, j: Json) -> bool {
    member_count(j) == 2 && str_entry(j, 0, "name"@, name) && str_entry(j, 1, "version"@, version)
}

/// The object `{ name, version }`.
pub fn identity_json(name: &str, version: &str) -> (r: Json)
    ensures
        encodes_identity(name@, version@, r),
{
    let mut es: Vec<(String, Json)> = Vec::new();
    push_member(&mut es, "name", Json::from_str(name));
    push_member(&mut es, "version", Json::from_str(version));
    Json::Object(es)
}

} // verus!
