use vstd::prelude::*;

use crate::text::{
    lemma_lex_irreflexive, lemma_lex_total, lemma_lex_transitive, lex_lt,
    str_lt,
};

verus! {

/// Largest number of entries returned by one list call.
pub const PAGE_SIZE: usize = 50;

/// Keys in strictly increasing lexicographic order (hence distinct).
pub open spec fn sorted_keys(keys: Seq<Seq<char>>) -> bool {
    forall|i: int, j: int| 0 <= i < j < keys.len() ==> lex_lt(#[trigger] keys[i], #[trigger] keys[j])
}

/// Index of the first key after `cursor`; an empty cursor starts at the beginning.
pub open spec fn page_start(keys: Seq<Seq<char>>, cursor: Seq<char>) -> int
    decreases keys.len(),
{
    if cursor.len() == 0 || keys.len() == 0 {
        0
    } else if lex_lt(cursor, keys.last()) {
        page_start(keys.drop_last(), cursor)
    } else {
        keys.len() as int
    }
}

/// One past the index of the last key on the page.
pub open spec fn page_end(keys: Seq<Seq<char>>, cursor: Seq<char>, size: nat) -> int {
    let s = page_start(keys, cursor);
    if s + size < keys.len() {
        s + size
    } else {
        keys.len() as int
    }
}

/// The keys shown on the page that follows `cursor`.
pub open spec fn page_keys(keys: Seq<Seq<char>>, cursor: Seq<char>, size: nat) -> Seq<Seq<char>> {
    keys.subrange(page_start(keys, cursor), page_end(keys, cursor, size))
}

/// The cursor handed back with that page: the page's last key when more remain, else empty.
pub open spec fn next_cursor(keys: Seq<Seq<char>>, cursor: Seq<char>, size: nat) -> Seq<char> {
    let e = page_end(keys, cursor, size);
    if e < keys.len() {
        keys[e - 1]
    } else {
        Seq::empty()
    }
}

/// The keys seen by a caller that starts at `cursor` and follows each returned cursor,
/// for at most `steps` calls, until an empty cursor comes back.
pub open spec fn cursor_walk(keys: Seq<Seq<char>>, cursor: Seq<char>, size: nat, steps: nat) -> Seq<
    Seq<char>,
>
    decreases steps,
{
    if steps == 0 {
        Seq::empty()
    } else {
        let next = next_cursor(keys, cursor, size);
        if next.len() == 0 {
            page_keys(keys, cursor, size)
        } else {
            page_keys(keys, cursor, size) + cursor_walk(keys, next, size, (steps - 1) as nat)
        }
    }
}

pub proof fn lemma_page_start_bounds(keys: Seq<Seq<char>>, cursor: Seq<char>)
    ensures
        0 <= page_start(keys, cursor) <= keys.len(),
    decreases keys.len(),
{
    if cursor.len() > 0 && keys.len() > 0 && lex_lt(cursor, keys.last()) {
        lemma_page_start_bounds(keys.drop_last(), cursor);
    }
}

/// The page after a key begins at the entry that follows it.
pub proof fn lemma_page_start_after_key(keys: Seq<Seq<char>>, i: int)
    requires
        sorted_keys(keys),
        1 <= i <= keys.len(),
        keys[i - 1].len() > 0,
    ensures
        page_start(keys, keys[i - 1]) == i,
    decreases keys.len(),
{
    let c = keys[i - 1];
    if i == keys.len() {
        lemma_lex_irreflexive(c);
    } else {
        assert(lex_lt(c, keys.last()));
        let d = keys.drop_last();
        assert(sorted_keys(d));
        assert(d[i - 1] == c);
        lemma_page_start_after_key(d, i);
    }
}

/// In a sorted registry every key but the first is non-empty.
pub proof fn lemma_later_key_nonempty(keys: Seq<Seq<char>>, i: int)
    requires
        sorted_keys(keys),
        1 <= i < keys.len(),
    ensures
        keys[i].len() > 0,
{
    assert(lex_lt(keys[0], keys[i]));
}

/// The returned cursor is empty exactly when the page reaches the end of the registry.
pub proof fn lemma_next_cursor_empty_iff_exhausted(
    keys: Seq<Seq<char>>,
    cursor: Seq<char>,
    size: nat,
)
    requires
        sorted_keys(keys),
        size >= 2,
    ensures
        (next_cursor(keys, cursor, size).len() == 0) <==> (page_end(keys, cursor, size)
            == keys.len()),
{
    lemma_page_start_bounds(keys, cursor);
    let e = page_end(keys, cursor, size);
    if e < keys.len() {
        lemma_later_key_nonempty(keys, e - 1);
    }
}

proof fn lemma_walk_from(keys: Seq<Seq<char>>, i: int, size: nat, steps: nat)
    requires
        sorted_keys(keys),
        size >= 2,
        0 <= i <= keys.len(),
        i != 1,
        steps >= 1,
        steps * size >= keys.len() - i,
    ensures
        cursor_walk(keys, if i == 0 { Seq::empty() } else { keys[i - 1] }, size, steps)
            == keys.subrange(i, keys.len() as int),
    decreases steps,
{
    let c = if i == 0 { Seq::<char>::empty() } else { keys[i - 1] };
    if i > 0 {
        lemma_later_key_nonempty(keys, i - 1);
        lemma_page_start_after_key(keys, i);
    }
    assert(page_start(keys, c) == i);
    let e = page_end(keys, c, size);
    lemma_next_cursor_empty_iff_exhausted(keys, c, size);
    if e < keys.len() {
        assert((steps - 1) * size == steps * size - size) by (nonlinear_arith);
        assert(steps >= 2) by (nonlinear_arith)
            requires
                steps * size >= keys.len() - i,
                keys.len() - i > size,
                steps >= 1,
        ;
        lemma_walk_from(keys, e, size, (steps - 1) as nat);
        assert(keys.subrange(i, e) + keys.subrange(e, keys.len() as int) =~= keys.subrange(
            i,
            keys.len() as int,
        ));
    }
}

/// Following cursors from the first page visits every key exactly once, in key order.
pub proof fn lemma_cursor_walk_visits_each_key_once(keys: Seq<Seq<char>>, size: nat)
    requires
        sorted_keys(keys),
        size >= 2,
    ensures
        cursor_walk(keys, Seq::empty(), size, (keys.len() + 1) as nat) == keys,
{
    assert((keys.len() + 1) * size >= keys.len()) by (nonlinear_arith)
        requires
            size >= 2,
    ;
    lemma_walk_from(keys, 0, size, (keys.len() + 1) as nat);
    assert(keys.subrange(0, keys.len() as int) =~= keys);
}

/// Entries kept in strictly increasing key order; re-registering a key replaces its entry.
pub struct KeyedList<T> {
    pub entries: Vec<(String, T)>,
}

impl<T> KeyedList<T> {
    pub open spec fn keys(&self) -> Seq<Seq<char>> {
        Seq::new(self.entries@.len(), |i: int| self.entries@[i].0@)
    }

    pub open spec fn wf(&self) -> bool {
        sorted_keys(self.keys())
    }

    /// Whether `key` is registered.
    pub open spec fn has(&self, key: Seq<char>) -> bool {
        exists|i: int| 0 <= i < self.entries@.len() && self.entries@[i].0@ == key
    }

    /// The entry registered under `key`; meaningful when `has(key)`.
    pub open spec fn lookup(&self, key: Seq<char>) -> T {
        self.entries@[self.index_of(key)].1
    }

    pub open spec fn index_of(&self, key: Seq<char>) -> int {
        choose|i: int| 0 <= i < self.entries@.len() && self.entries@[i].0@ == key
    }

    pub fn new() -> (r: Self)
        ensures
            r.wf(),
            r.entries@.len() == 0,
    {
        KeyedList { entries: Vec::new() }
    }

    pub proof fn lemma_index_of(&self, i: int)
        requires
            self.wf(),
            0 <= i < self.entries@.len(),
        ensures
            self.has(self.entries@[i].0@),
            self.index_of(self.entries@[i].0@) == i,
    {
        let k = self.entries@[i].0@;
        assert(self.keys()[i] == k);
        let j = self.index_of(k);
        assert(self.keys()[j] == k);
        if j < i {
            assert(lex_lt(self.keys()[j], self.keys()[i]));
            lemma_lex_irreflexive(k);
        } else if j > i {
            assert(lex_lt(self.keys()[i], self.keys()[j]));
            lemma_lex_irreflexive(k);
        }
    }

    /// Position of `key`, if registered.
    pub fn find(&self, key: &str) -> (r: Option<usize>)
        requires
            self.wf(),
        ensures
            r is None <==> !self.has(key@),
            r matches Some(i) ==> i < self.entries@.len() && self.entries@[i as int].0@ == key@
                && self.index_of(key@) == i,
    {
        let mut i: usize = 0;
        while i < self.entries.len()
            invariant
                self.wf(),
                i <= self.entries@.len(),
                forall|j: int| 0 <= j < i ==> self.entries@[j].0@ != key@,
            decreases self.entries@.len() - i,
        {
            if crate::text::str_eq(self.entries[i].0.as_str(), key) {
                proof {
                    self.lemma_index_of(i as int);
                }
                return Some(i);
            }
            i = i + 1;
        }
        None
    }

    /// Registers `value` under `key`, replacing an earlier entry of that key.
    /// Returns whether an entry was replaced.
    pub fn insert(&mut self, key: String, value: T) -> (replaced: bool)
        requires
            old(self).wf(),
        ensures
            final(self).wf(),
            replaced == old(self).has(key@),
            final(self).has(key@),
            final(self).lookup(key@) == value,
            forall|k: Seq<char>| k != key@ ==> (final(self).has(k) == old(self).has(k)),
            forall|k: Seq<char>|
                k != key@ && #[trigger] old(self).has(k) ==> final(self).lookup(k) == old(
                    self,
                ).lookup(k),
            final(self).entries@.len() == old(self).entries@.len() + if replaced {
                0int
            } else {
                1int
            },
    {
        let ghost old_self = *self;
        let ghost old_keys = self.keys();
        let n = self.entries.len();
        let mut i: usize = 0;
        while i < n
            invariant
                *self == old_self,
                n == self.entries@.len(),
                old_keys == self.keys(),
                self.wf(),
                i <= n,
                forall|j: int| 0 <= j < i ==> lex_lt(#[trigger] old_keys[j], key@),
            ensures
                i < n ==> !lex_lt(old_keys[i as int], key@),
            decreases n - i,
        {
            if !str_lt(self.entries[i].0.as_str(), key.as_str()) {
                break;
            }
            i = i + 1;
        }
        if i < n && crate::text::str_eq(self.entries[i].0.as_str(), key.as_str()) {
            self.entries.set(i, (key, value));
            proof {
                assert(self.keys() =~= old_keys);
                assert(old_self.has(key@)) by {
                    assert(old_self.entries@[i as int].0@ == key@);
                }
                self.lemma_index_of(i as int);
                assert forall|k: Seq<char>| k != key@ implies (self.has(k) == old_self.has(k)) by {
                    if self.has(k) {
                        let j = self.index_of(k);
                        assert(old_self.entries@[j].0@ == k);
                    }
                    if old_self.has(k) {
                        let j = old_self.index_of(k);
                        assert(self.entries@[j].0@ == k);
                    }
                }
                assert forall|k: Seq<char>|
                    k != key@ && #[trigger] old_self.has(k) implies self.lookup(k)
                    == old_self.lookup(k) by {
                    let j = old_self.index_of(k);
                    old_self.lemma_index_of(j);
                    assert(self.entries@[j].0@ == k);
                    self.lemma_index_of(j);
                }
            }
            true
        } else {
            proof {
                if i < n {
                    assert(!lex_lt(old_keys[i as int], key@));
                    assert(old_keys[i as int] != key@);
                    lemma_lex_total(old_keys[i as int], key@);
                }
                assert(!old_self.has(key@)) by {
                    if old_self.has(key@) {
                        let j = old_self.index_of(key@);
                        assert(old_keys[j] == key@);
                        if j < i {
                            lemma_lex_irreflexive(key@);
                        } else if j > i {
                            assert(lex_lt(old_keys[i as int], old_keys[j]));
                            lemma_lex_transitive(key@, old_keys[i as int], key@);
                            lemma_lex_irreflexive(key@);
                        }
                    }
                }
            }
            let ghost kk = key@;
            self.entries.insert(i, (key, value));
            proof {
                let nk = self.keys();
                assert(nk =~= old_keys.insert(i as int, kk));
                assert forall|a: int, b: int| 0 <= a < b < nk.len() implies lex_lt(
                    #[trigger] nk[a],
                    #[trigger] nk[b],
                ) by {
                    if a < i && b < i {
                    } else if a < i && b == i {
                    } else if a < i && b > i {
                        assert(lex_lt(old_keys[a], kk));
                        assert(lex_lt(kk, old_keys[i as int]));
                        if b - 1 > i {
                            assert(lex_lt(old_keys[i as int], old_keys[b - 1]));
                            lemma_lex_transitive(kk, old_keys[i as int], old_keys[b - 1]);
                        }
                        lemma_lex_transitive(old_keys[a], kk, old_keys[b - 1]);
                    } else if a == i {
                        if b - 1 > i {
                            assert(lex_lt(old_keys[i as int], old_keys[b - 1]));
                            lemma_lex_transitive(kk, old_keys[i as int], old_keys[b - 1]);
                        }
                    } else {
                        assert(nk[a] == old_keys[a - 1]);
                        assert(nk[b] == old_keys[b - 1]);
                    }
                }
                assert(self.entries@[i as int].0@ == kk);
                self.lemma_index_of(i as int);
                assert forall|k: Seq<char>| k != kk implies (self.has(k) == old_self.has(k)) by {
                    if self.has(k) {
                        let j = self.index_of(k);
                        if j < i {
                            assert(old_self.entries@[j].0@ == k);
                        } else {
                            assert(j != i);
                            assert(old_self.entries@[j - 1].0@ == k);
                        }
                    }
                    if old_self.has(k) {
                        let j = old_self.index_of(k);
                        if j < i {
                            assert(self.entries@[j].0@ == k);
                        } else {
                            assert(self.entries@[j + 1].0@ == k);
                        }
                    }
                }
                assert forall|k: Seq<char>|
                    k != kk && #[trigger] old_self.has(k) implies self.lookup(k)
                    == old_self.lookup(k) by {
                    let j = old_self.index_of(k);
                    old_self.lemma_index_of(j);
                    if j < i {
                        assert(self.entries@[j].0@ == k);
                        self.lemma_index_of(j);
                    } else {
                        assert(self.entries@[j + 1].0@ == k);
                        self.lemma_index_of(j + 1);
                    }
                }
            }
            false
        }
    }

    /// Removes the entry of `key`, if any, and returns it.
    pub fn remove(&mut self, key: &str) -> (r: Option<T>)
        requires
            old(self).wf(),
        ensures
            final(self).wf(),
            r is Some <==> old(self).has(key@),
            r is None ==> *final(self) == *old(self),
            r matches Some(v) ==> v == old(self).lookup(key@),
            !final(self).has(key@),
            forall|k: Seq<char>| k != key@ ==> (final(self).has(k) == old(self).has(k)),
            forall|k: Seq<char>|
                k != key@ && #[trigger] old(self).has(k) ==> final(self).lookup(k) == old(
                    self,
                ).lookup(k),
            final(self).entries@.len() == old(self).entries@.len() - if r is Some {
                1int
            } else {
                0int
            },
    {
        let ghost old_self = *self;
        match self.find(key) {
            None => None,
            Some(i) => {
                let ghost old_keys = self.keys();
                let (_, v) = self.entries.remove(i);
                proof {
                    let nk = self.keys();
                    assert(nk =~= old_keys.remove(i as int));
                    assert forall|a: int, b: int| 0 <= a < b < nk.len() implies lex_lt(
                        #[trigger] nk[a],
                        #[trigger] nk[b],
                    ) by {
                        let oa = if a < i { a } else { a + 1 };
                        let ob = if b < i { b } else { b + 1 };
                        assert(nk[a] == old_keys[oa]);
                        assert(nk[b] == old_keys[ob]);
                    }
                    assert(!self.has(key@)) by {
                        if self.has(key@) {
                            let j = self.index_of(key@);
                            let oj = if j < i { j } else { j + 1 };
                            assert(old_self.entries@[oj].0@ == key@);
                            old_self.lemma_index_of(oj);
                        }
                    }
                    assert forall|k: Seq<char>| k != key@ implies (self.has(k) == old_self.has(k)) by {
                        if self.has(k) {
                            let j = self.index_of(k);
                            let oj = if j < i { j } else { j + 1 };
                            assert(old_self.entries@[oj].0@ == k);
                        }
                        if old_self.has(k) {
                            let j = old_self.index_of(k);
                            assert(j != i);
                            let nj = if j < i { j } else { j - 1 };
                            assert(self.entries@[nj].0@ == k);
                        }
                    }
                    assert forall|k: Seq<char>|
                        k != key@ && #[trigger] old_self.has(k) implies self.lookup(k)
                        == old_self.lookup(k) by {
                        let j = old_self.index_of(k);
                        old_self.lemma_index_of(j);
                        assert(j != i);
                        let nj = if j < i { j } else { j - 1 };
                        assert(self.entries@[nj].0@ == k);
                        self.lemma_index_of(nj);
                    }
                }
                Some(v)
            },
        }
    }

    /// Bounds of the page that follows `cursor`, and the cursor to hand back with it.
    pub fn page(&self, cursor: &str, size: usize) -> (r: (usize, usize, String))
        requires
            self.wf(),
            size >= 1,
        ensures
            r.0 == page_start(self.keys(), cursor@),
            r.1 == page_end(self.keys(), cursor@, size as nat),
            r.0 <= r.1 <= self.entries@.len(),
            r.2@ == next_cursor(self.keys(), cursor@, size as nat),
    {
        let ghost keys = self.keys();
        let n = self.entries.len();
        let mut i: usize = n;
        if cursor.unicode_len() == 0 {
            i = 0;
        } else {
            assert(keys.subrange(0, n as int) =~= keys);
            loop
                invariant
                    i <= n,
                    n == keys.len(),
                    keys == self.keys(),
                    cursor@.len() > 0,
                    page_start(keys, cursor@) == page_start(keys.subrange(0, i as int), cursor@),
                ensures
                    page_start(keys, cursor@) == i,
                decreases i,
            {
                if i == 0 {
                    break;
                }
                if !str_lt(cursor, self.entries[i - 1].0.as_str()) {
                    assert(keys.subrange(0, i as int).last() == keys[i - 1]);
                    break;
                }
                assert(keys.subrange(0, i as int).drop_last() =~= keys.subrange(0, i - 1));
                assert(keys.subrange(0, i as int).last() == keys[i - 1]);
                i = i - 1;
            }
        }
        proof {
            lemma_page_start_bounds(keys, cursor@);
        }
        let end = if size < n - i {
            i + size
        } else {
            n
        };
        let next = if end < n {
            crate::text::to_owned_string(self.entries[end - 1].0.as_str())
        } else {
            String::new()
        };
        (i, end, next)
    }
}

} // verus!
