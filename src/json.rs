use vstd::prelude::*;

verus! {

/// A JSON document as the engine sees it.
///
/// Integers that fit in 64 bits are kept as `Int`; any other number keeps its decimal text,
/// so that no value is rounded on its way through the engine.
#[derive(Debug)]
pub enum Json {
    Null,
    Bool(bool),
    Int(i64),
    Number(String),
    Str(String),
    Array(Vec<Json>),
    Object(Vec<(String, Json)>),
}

/// `b` is of the same kind as `a`, with the same scalar, text, length and member names.
pub open spec fn same_shape(a: Json, b: Json) -> bool {
    match (a, b) {
        (Json::Null, Json::Null) => true,
        (Json::Bool(x), Json::Bool(y)) => x == y,
        (Json::Int(x), Json::Int(y)) => x == y,
        (Json::Number(x), Json::Number(y)) => x@ == y@,
        (Json::Str(x), Json::Str(y)) => x@ == y@,
        (Json::Array(x), Json::Array(y)) => x@.len() == y@.len(),
        (Json::Object(x), Json::Object(y)) => x@.len() == y@.len() && forall|i: int|
            0 <= i < x@.len() ==> #[trigger] y@[i].0@ == x@[i].0@,
        _ => false,
    }
}

/// The members of `b` have the same shape as those of `a`, in order.
pub open spec fn same_children(a: Json, b: Json) -> bool {
    match (a, b) {
        (Json::Array(x), Json::Array(y)) => forall|i: int| 0 <= i < x@.len() ==> same_shape(#[trigger] x@[i], y@[i]),
        (Json::Object(x), Json::Object(y)) => forall|i: int|
            0 <= i < x@.len() ==> same_shape(#[trigger] x@[i].1, y@[i].1),
        _ => true,
    }
}

/// The value of the first member named `key`.
pub open spec fn member(entries: Seq<(String, Json)>, key: Seq<char>) -> Option<Json>
    decreases entries.len(),
{
    if entries.len() == 0 {
        None
    } else if entries[0].0@ == key {
        Some(entries[0].1)
    } else {
        member(entries.drop_first(), key)
    }
}

/// The member `key` of an object; `None` for other values and absent members.
pub open spec fn field(j: Json, key: Seq<char>) -> Option<Json> {
    match j {
        Json::Object(entries) => member(entries@, key),
        _ => None,
    }
}

/// The member `key`, where an explicit `null` counts as absent.
pub open spec fn opt_field(j: Json, key: Seq<char>) -> Option<Json> {
    match field(j, key) {
        Some(Json::Null) => None,
        other => other,
    }
}

/// The text of member `key` when it is a string.
pub open spec fn str_field(j: Json, key: Seq<char>) -> Option<Seq<char>> {
    match field(j, key) {
        Some(Json::Str(s)) => Some(s@),
        _ => None,
    }
}

/// Nesting that `copy_nested` reproduces in full; the same limit that serde_json's parser keeps.
pub const MAX_DEPTH: usize = 128;

impl Json {
    /// A copy of this value. Scalars and strings are copied exactly; arrays and objects keep
    /// their length and member names, and below `depth` levels of nesting their members are
    /// replaced by `null`.
    pub fn copy_nested(&self, depth: usize) -> (r: Json)
        ensures
            same_shape(*self, r),
            depth > 0 ==> same_children(*self, r),
        decreases depth,
    {
        match self {
            Json::Null => Json::Null,
            Json::Bool(b) => Json::Bool(*b),
            Json::Int(n) => Json::Int(*n),
            Json::Number(t) => Json::Number(t.clone()),
            Json::Str(t) => Json::Str(t.clone()),
            Json::Array(items) => {
                let mut out: Vec<Json> = Vec::new();
                let mut i: usize = 0;
                while i < items.len()
                    invariant
                        *self == Json::Array(*items),
                        i <= items@.len(),
                        out@.len() == i,
                        depth > 0 ==> forall|j: int| 0 <= j < i ==> same_shape(#[trigger] items@[j], out@[j]),
                    decreases items@.len() - i,
                {
                    if depth == 0 {
                        out.push(Json::Null);
                    } else {
                        out.push(items[i].copy_nested(depth - 1));
                    }
                    i = i + 1;
                }
                Json::Array(out)
            },
            Json::Object(entries) => {
                let mut out: Vec<(String, Json)> = Vec::new();
                let mut i: usize = 0;
                while i < entries.len()
                    invariant
                        *self == Json::Object(*entries),
                        i <= entries@.len(),
                        out@.len() == i,
                        forall|j: int| 0 <= j < i ==> #[trigger] out@[j].0@ == entries@[j].0@,
                        depth > 0 ==> forall|j: int| 0 <= j < i ==> same_shape(#[trigger] entries@[j].1, out@[j].1),
                    decreases entries@.len() - i,
                {
                    let c = if depth == 0 {
                        Json::Null
                    } else {
                        entries[i].1.copy_nested(depth - 1)
                    };
                    out.push((entries[i].0.clone(), c));
                    i = i + 1;
                }
                Json::Object(out)
            },
        }
    }

    /// The member `key` of an object.
    pub fn get(&self, key: &str) -> (r: Option<&Json>)
        ensures
            r matches Some(v) ==> field(*self, key@) == Some(*v),
            r is None ==> field(*self, key@) is None,
    {
        match self {
            Json::Object(entries) => {
                let mut i: usize = 0;
                assert(entries@.subrange(0, entries@.len() as int) =~= entries@);
                while i < entries.len()
                    invariant
                        *self == Json::Object(*entries),
                        i <= entries@.len(),
                        member(entries@, key@) == member(entries@.subrange(i as int, entries@.len() as int), key@),
                    decreases entries@.len() - i,
                {
                    let ghost rest = entries@.subrange(i as int, entries@.len() as int);
                    assert(rest[0] == entries@[i as int]);
                    if crate::text::str_eq(entries[i].0.as_str(), key) {
                        assert(rest[0].0@ == key@);
                        assert(member(rest, key@) == Some(rest[0].1));
                        assert(member(entries@, key@) == Some(entries@[i as int].1));
                        assert(field(*self, key@) == member(entries@, key@));
                        return Some(&entries[i].1);
                    }
                    assert(rest.drop_first() =~= entries@.subrange(i + 1, entries@.len() as int));
                    i = i + 1;
                }
                None
            },
            _ => None,
        }
    }

    /// The member `key`, with an explicit `null` treated as absent.
    pub fn get_opt(&self, key: &str) -> (r: Option<&Json>)
        ensures
            r matches Some(v) ==> opt_field(*self, key@) == Some(*v),
            r is None ==> opt_field(*self, key@) is None,
    {
        match self.get(key) {
            Some(Json::Null) => None,
            other => other,
        }
    }

    /// The text of the string member `key`.
    pub fn get_str(&self, key: &str) -> (r: Option<&String>)
        ensures
            r matches Some(s) ==> str_field(*self, key@) == Some(s@),
            r is None ==> str_field(*self, key@) is None,
    {
        match self.get(key) {
            Some(Json::Str(s)) => Some(s),
            _ => None,
        }
    }

    /// A string value.
    pub fn from_str(s: &str) -> (r: Json)
        ensures
            r matches Json::Str(t) && t@ == s@,
    {
        Json::Str(s.to_owned())
    }
}

/// Removing the first member named `key` leaves the lookups of other names unchanged.
pub proof fn lemma_member_remove(entries: Seq<(String, Json)>, i: int, key: Seq<char>, other: Seq<char>)
    requires
        0 <= i < entries.len(),
        entries[i].0@ == key,
        forall|j: int| 0 <= j < i ==> entries[j].0@ != key,
        other != key,
    ensures
        member(entries.remove(i), other) == member(entries, other),
    decreases entries.len(),
{
    if i == 0 {
        assert(entries.remove(0) =~= entries.drop_first());
    } else {
        assert(entries.remove(i).drop_first() =~= entries.drop_first().remove(i - 1));
        assert(entries.remove(i)[0] == entries[0]);
        lemma_member_remove(entries.drop_first(), i - 1, key, other);
    }
}

/// Takes the first member named `key` out of an object's members.
pub fn take_member(entries: &mut Vec<(String, Json)>, key: &str) -> (r: Option<Json>)
    ensures
        r == member(old(entries)@, key@),
        forall|k: Seq<char>| k != key@ ==> member(final(entries)@, k) == member(old(entries)@, k),
{
    let mut i: usize = 0;
    let ghost all = entries@;
    assert(all.subrange(0, all.len() as int) =~= all);
    while i < entries.len()
        invariant
            entries@ == all,
            old(entries)@ == all,
            i <= all.len(),
            member(all, key@) == member(all.subrange(i as int, all.len() as int), key@),
            forall|j: int| 0 <= j < i ==> all[j].0@ != key@,
        decreases all.len() - i,
    {
        let ghost rest = all.subrange(i as int, all.len() as int);
        assert(rest[0] == all[i as int]);
        if crate::text::str_eq(entries[i].0.as_str(), key) {
            assert(rest[0].0@ == key@);
            assert(member(rest, key@) == Some(rest[0].1));
            let (_, v) = entries.remove(i);
            assert(v == all[i as int].1);
            assert(member(all, key@) == Some(v));
            proof {
                assert forall|k: Seq<char>| k != key@ implies member(final(entries)@, k) == member(all, k) by {
                    lemma_member_remove(all, i as int, key@, k);
                }
            }
            return Some(v);
        }
        assert(rest.drop_first() =~= all.subrange(i + 1, all.len() as int));
        i = i + 1;
    }
    None
}

/// Takes member `key` out, with an explicit `null` treated as absent.
pub fn take_opt_member(entries: &mut Vec<(String, Json)>, key: &str) -> (r: Option<Json>)
    ensures
        r == (match member(old(entries)@, key@) {
            Some(Json::Null) => None,
            other => other,
        }),
        forall|k: Seq<char>| k != key@ ==> member(final(entries)@, k) == member(old(entries)@, k),
{
    match take_member(entries, key) {
        Some(Json::Null) => None,
        other => other,
    }
}

/// Replacing the first member named `key` makes lookups of `key` find the new value and
/// leaves the others unchanged.
pub proof fn lemma_member_update(
    entries: Seq<(String, Json)>,
    i: int,
    e: (String, Json),
    key: Seq<char>,
    other: Seq<char>,
)
    requires
        0 <= i < entries.len(),
        entries[i].0@ == key,
        e.0@ == key,
        forall|j: int| 0 <= j < i ==> entries[j].0@ != key,
    ensures
        member(entries.update(i, e), key) == Some(e.1),
        other != key ==> member(entries.update(i, e), other) == member(entries, other),
    decreases i,
{
    let u = entries.update(i, e);
    if i > 0 {
        assert(u.drop_first() =~= entries.drop_first().update(i - 1, e));
        assert(u[0] == entries[0]);
        lemma_member_update(entries.drop_first(), i - 1, e, key, other);
    } else {
        assert(u.drop_first() =~= entries.drop_first());
    }
}

/// Appending a member of a new name makes it findable and leaves the others unchanged.
pub proof fn lemma_member_append(entries: Seq<(String, Json)>, e: (String, Json), other: Seq<char>)
    requires
        member(entries, e.0@) is None,
    ensures
        member(entries.push(e), e.0@) == Some(e.1),
        other != e.0@ ==> member(entries.push(e), other) == member(entries, other),
    decreases entries.len(),
{
    let p = entries.push(e);
    if entries.len() > 0 {
        assert(p[0] == entries[0]);
        assert(p.drop_first() =~= entries.drop_first().push(e));
        lemma_member_append(entries.drop_first(), e, other);
    } else {
        assert(p[0] == e);
        assert(p.drop_first() =~= Seq::<(String, Json)>::empty());
        assert(member(Seq::<(String, Json)>::empty(), other) is None);
    }
}

/// Sets member `key` to `value`: the first member of that name is replaced, or the member
/// is appended.
pub fn set_member(entries: &mut Vec<(String, Json)>, key: &str, value: Json)
    ensures
        member(final(entries)@, key@) == Some(value),
        forall|k: Seq<char>| k != key@ ==> member(final(entries)@, k) == member(old(entries)@, k),
{
    let ghost all = entries@;
    let mut i: usize = 0;
    assert(all.subrange(0, all.len() as int) =~= all);
    while i < entries.len()
        invariant
            entries@ == all,
            old(entries)@ == all,
            i <= all.len(),
            member(all, key@) == member(all.subrange(i as int, all.len() as int), key@),
            forall|j: int| 0 <= j < i ==> all[j].0@ != key@,
        decreases all.len() - i,
    {
        let ghost rest = all.subrange(i as int, all.len() as int);
        assert(rest[0] == all[i as int]);
        if crate::text::str_eq(entries[i].0.as_str(), key) {
            let e = (key.to_owned(), value);
            let ghost ge = e;
            entries.set(i, e);
            proof {
                lemma_member_update(all, i as int, ge, key@, key@);
                assert forall|k: Seq<char>| k != key@ implies member(final(entries)@, k) == member(all, k) by {
                    lemma_member_update(all, i as int, ge, key@, k);
                }
            }
            return;
        }
        assert(rest.drop_first() =~= all.subrange(i + 1, all.len() as int));
        i = i + 1;
    }
    proof {
        assert(all.subrange(i as int, all.len() as int) =~= Seq::<(String, Json)>::empty());
    }
    let e = (key.to_owned(), value);
    let ghost ge = e;
    entries.push(e);
    proof {
        lemma_member_append(all, ge, key@);
        assert forall|k: Seq<char>| k != key@ implies member(final(entries)@, k) == member(all, k) by {
            lemma_member_append(all, ge, k);
        }
    }
}

/// Appends the member `key: value` to an object under construction.
pub fn push_member(entries: &mut Vec<(String, Json)>, key: &str, value: Json)
    ensures
        final(entries)@.len() == old(entries)@.len() + 1,
        final(entries)@.subrange(0, old(entries)@.len() as int) == old(entries)@,
        final(entries)@.last().0@ == key@,
        final(entries)@.last().1 == value,
{
    entries.push((key.to_owned(), value));
    assert(final(entries)@.subrange(0, old(entries)@.len() as int) =~= old(entries)@);
}

} // verus!
