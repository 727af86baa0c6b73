use vstd::prelude::*;

use crate::json::Json;
use crate::pagination::KeyedList;
use crate::text::{decimal_text, i64_to_decimal};

verus! {

/// The table key of a request id: a string as it is, an integer in base ten.
/// Other ids cannot be looked up.
pub open spec fn id_key(id: Json) -> Option<Seq<char>> {
    match id {
        Json::Str(s) => Some(s@),
        Json::Int(n) => Some(decimal_text(n as int)),
        Json::Number(t) => Some(t@),
        _ => None,
    }
}

/// The table key of a request id, so that `7` and `"7"` find the same entry.
pub fn request_id_key(id: &Json) -> (r: Option<String>)
    ensures
        r matches Some(s) ==> id_key(*id) == Some(s@),
        r is None ==> id_key(*id) is None,
{
    match id {
        Json::Str(s) => Some(s.clone()),
        Json::Int(n) => Some(i64_to_decimal(*n)),
        Json::Number(t) => Some(t.clone()),
        _ => None,
    }
}

/// Outbound requests awaiting an answer, each with the token of its single waiter.
pub struct PendingTable {
    pub table: KeyedList<u64>,
}

impl PendingTable {
    pub open spec fn wf(&self) -> bool {
        self.table.wf()
    }

    /// Whether a request with table key `key` is outstanding.
    pub open spec fn is_pending(&self, key: Seq<char>) -> bool {
        self.table.has(key)
    }

    /// The waiter of an outstanding request.
    pub open spec fn waiter(&self, key: Seq<char>) -> u64 {
        self.table.lookup(key)
    }

    /// The waiters of every outstanding request, in key order.
    pub open spec fn waiters(&self) -> Seq<u64> {
        Seq::new(self.table.entries@.len(), |i: int| self.table.entries@[i].1)
    }

    pub fn new() -> (r: Self)
        ensures
            r.wf(),
            forall|k: Seq<char>| !r.is_pending(k),
    {
        PendingTable { table: KeyedList::new() }
    }

    /// Records a request sent under `key`; refused, leaving the table as it was, when a
    /// request with that key is still outstanding.
    pub fn register(&mut self, key: String, waiter: u64) -> (ok: bool)
        requires
            old(self).wf(),
        ensures
            final(self).wf(),
            ok == !old(self).is_pending(key@),
            ok ==> final(self).is_pending(key@) && final(self).waiter(key@) == waiter,
            !ok ==> *final(self) == *old(self),
            forall|k: Seq<char>| k != key@ ==> final(self).is_pending(k) == old(self).is_pending(k),
            forall|k: Seq<char>|
                k != key@ && #[trigger] old(self).is_pending(k) ==> final(self).waiter(k) == old(
                    self,
                ).waiter(k),
    {
        if self.table.find(key.as_str()).is_some() {
            return false;
        }
        self.table.insert(key, waiter);
        true
    }

    /// Settles the request answered by a response with `key`: hands back its waiter and
    /// forgets it. `None` for an orphan response.
    pub fn resolve(&mut self, key: &str) -> (r: Option<u64>)
        requires
            old(self).wf(),
        ensures
            final(self).wf(),
            r is Some <==> old(self).is_pending(key@),
            r is None ==> *final(self) == *old(self),
            r matches Some(w) ==> w == old(self).waiter(key@),
            !final(self).is_pending(key@),
            forall|k: Seq<char>| k != key@ ==> final(self).is_pending(k) == old(self).is_pending(k),
            forall|k: Seq<char>|
                k != key@ && #[trigger] old(self).is_pending(k) ==> final(self).waiter(k) == old(
                    self,
                ).waiter(k),
    {
        self.table.remove(key)
    }

    /// Cancels every outstanding request, handing back all their waiters.
    pub fn cancel_all(&mut self) -> (r: Vec<u64>)
        requires
            old(self).wf(),
        ensures
            final(self).wf(),
            r@ == old(self).waiters(),
            forall|k: Seq<char>| !final(self).is_pending(k),
    {
        let mut out: Vec<u64> = Vec::new();
        let mut i: usize = 0;
        while i < self.table.entries.len()
            invariant
                i <= self.table.entries@.len(),
                out@ == self.waiters().subrange(0, i as int),
            decreases self.table.entries@.len() - i,
        {
            out.push(self.table.entries[i].1);
            assert(self.waiters().subrange(0, i + 1) =~= self.waiters().subrange(0, i as int).push(
                self.table.entries@[i as int].1,
            ));
            i = i + 1;
        }
        assert(self.waiters().subrange(0, i as int) =~= self.waiters());
        self.table = KeyedList::new();
        out
    }
}

/// Each outstanding request is settled exactly once. If no response comes, cancelling the
/// table hands its waiter back; once a response has settled it (the state `after` that
/// `resolve` leaves), no entry for it remains, so neither a second response nor a
/// cancellation reaches its waiter through it.
pub proof fn lemma_settled_exactly_once(before: PendingTable, after: PendingTable, key: Seq<char>)
    requires
        before.wf(),
        before.is_pending(key),
        after.wf(),
        !after.is_pending(key),
    ensures
        before.waiters().contains(before.waiter(key)),
        forall|i: int| 0 <= i < after.table.entries@.len() ==> #[trigger] after.table.entries@[i].0@ != key,
{
    let i = before.table.index_of(key);
    assert(before.waiters()[i] == before.waiter(key));
}

/// Source of the ids of outbound requests: each id is used once, in increasing order.
pub struct IdCounter {
    pub next: i64,
}

impl IdCounter {
    pub fn new() -> (r: Self)
        ensures
            r.next == 1,
    {
        IdCounter { next: 1 }
    }

    /// The next id.
    pub fn next_request_id(&mut self) -> (r: i64)
        requires
            old(self).next < i64::MAX,
        ensures
            r == old(self).next,
            final(self).next == old(self).next + 1,
    {
        let r = self.next;
        self.next = self.next + 1;
        r
    }
}

} // verus!
