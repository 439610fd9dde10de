//! The pending-call table and its completion slots.
//!
//! Each call issued by the handler owns a completion slot: a write-once
//! cell that eventually receives the call's protocol-level outcome — the
//! peer's reply, or a connection-lost failure. The table keys slots by call
//! identifier; an entry counts as pending while its slot is unresolved.
//!
//! Resolving a slot twice is impossible: `resolve` demands an unresolved
//! slot, and a resolved slot never changes again, so an observer reading a
//! resolved slot sees the same outcome on every read.

use vstd::prelude::*;

use crate::error::RpcError;
use crate::error::RpcErrorV;
use crate::messages::Id;
use crate::messages::RawResult;
use crate::messages::RawResultV;

verus! {

/// The protocol-level outcome delivered to a call: the peer's raw reply,
/// or the error that ended the call without one.
pub type Reply = Result<RawResult, RpcError>;

/// Model of [`Reply`].
pub type ReplyV = Result<RawResultV, RpcErrorV>;

/// Model of a reply value.
pub open spec fn reply_view(r: Reply) -> ReplyV {
    match r {
        Ok(x) => Ok(x@),
        Err(e) => Err(e@),
    }
}

/// A single-resolution completion slot.
#[derive(Debug)]
pub struct CompletionSlot {
    state: Option<Reply>,
}

impl View for CompletionSlot {
    type V = Option<ReplyV>;

    closed spec fn view(&self) -> Option<ReplyV> {
        match self.state {
            None => None,
            Some(r) => Some(reply_view(r)),
        }
    }
}

impl CompletionSlot {
    /// A fresh, unresolved slot.
    pub fn new() -> (r: CompletionSlot)
        ensures
            r@ is None,
    {
        CompletionSlot { state: None }
    }

    /// A slot born already resolved with the given outcome.
    pub fn resolved(reply: Reply) -> (r: CompletionSlot)
        ensures
            r@ == Some(reply_view(reply)),
    {
        CompletionSlot { state: Some(reply) }
    }

    /// Deliver the outcome. Demands an unresolved slot: a slot can be
    /// resolved at most once.
    pub fn resolve(&mut self, reply: Reply)
        requires
            old(self)@ is None,
        ensures
            final(self)@ == Some(reply_view(reply)),
    {
        self.state = Some(reply);
    }

    /// Observe the outcome, if the slot is resolved. Reading never
    /// changes the slot, so repeated observation yields the same outcome.
    pub fn value(&self) -> (r: Option<&Reply>)
        ensures
            match r {
                Some(x) => self@ == Some(reply_view(*x)),
                None => self@ is None,
            },
    {
        match &self.state {
            Some(x) => Some(x),
            None => None,
        }
    }

    /// Whether the slot is still awaiting its outcome.
    pub fn is_pending(&self) -> (r: bool)
        ensures
            r == (self@ is None),
    {
        match &self.state {
            Some(_) => false,
            None => true,
        }
    }
}

// === Table model ===

/// One table entry in the model: the call identifier and the slot's state.
pub type EntryV = (int, Option<ReplyV>);

/// Whether the entries carry pairwise distinct identifiers.
pub open spec fn table_ids_distinct(t: Seq<EntryV>) -> bool {
    forall|i: int, j: int| 0 <= i < j < t.len() ==> (#[trigger] t[i]).0 != (#[trigger] t[j]).0
}

/// The state of the entry with the given identifier: `None` when no entry
/// carries it, `Some(state)` otherwise.
pub open spec fn table_lookup(t: Seq<EntryV>, id: int) -> Option<Option<ReplyV>>
    decreases t.len(),
{
    if t.len() == 0 {
        None
    } else if t[0].0 == id {
        Some(t[0].1)
    } else {
        table_lookup(t.drop_first(), id)
    }
}

/// The table after delivering `r` to the pending entry with identifier
/// `id`: that entry becomes resolved, every other entry is untouched.
pub open spec fn resolve_model(t: Seq<EntryV>, id: int, r: ReplyV) -> Seq<EntryV> {
    Seq::new(
        t.len(),
        |k: int|
            if t[k].0 == id && t[k].1 is None {
                (t[k].0, Some(r))
            } else {
                t[k]
            },
    )
}

/// The table after a connection loss: every pending entry is resolved
/// with a lost-connection failure, every resolved entry keeps its outcome.
pub open spec fn close_model(t: Seq<EntryV>) -> Seq<EntryV> {
    Seq::new(
        t.len(),
        |k: int|
            if t[k].1 is None {
                (t[k].0, Some(Err(RpcErrorV::LostConnection)))
            } else {
                t[k]
            },
    )
}

/// An identifier absent under lookup is carried by no entry.
pub proof fn lemma_lookup_none(t: Seq<EntryV>, id: int)
    requires
        table_lookup(t, id) is None,
    ensures
        forall|k: int| 0 <= k < t.len() ==> (#[trigger] t[k]).0 != id,
    decreases t.len(),
{
    if t.len() > 0 {
        lemma_lookup_none(t.drop_first(), id);
        assert(forall|k: int| 1 <= k < t.len() ==> t.drop_first()[k - 1] == (#[trigger] t[k]));
    }
}

/// Lookup reads the entry it finds: under distinct identifiers, the entry
/// at any index with the sought identifier has the state lookup reports.
pub proof fn lemma_lookup_index(t: Seq<EntryV>, k: int)
    requires
        table_ids_distinct(t),
        0 <= k < t.len(),
    ensures
        table_lookup(t, t[k].0) == Some(t[k].1),
    decreases t.len(),
{
    if k > 0 {
        assert(t[0].0 != t[k].0);
        assert(t.drop_first()[k - 1] == t[k]);
        assert(table_ids_distinct(t.drop_first())) by {
            assert(forall|i: int, j: int|
                0 <= i < j < t.len() - 1 ==> (#[trigger] t.drop_first()[i]).0 != (
                #[trigger] t.drop_first()[j]).0);
        }
        lemma_lookup_index(t.drop_first(), k - 1);
    }
}

// === The table ===

/// Maps an in-flight call's identifier to its completion slot.
#[derive(Debug)]
pub struct PendingTable {
    calls: Vec<(Id, CompletionSlot)>,
}

impl View for PendingTable {
    type V = Seq<EntryV>;

    closed spec fn view(&self) -> Seq<EntryV> {
        Seq::new(self.calls@.len(), |k: int| (self.calls@[k].0@, self.calls@[k].1@))
    }
}

impl PendingTable {
    /// An empty table.
    pub fn new() -> (r: PendingTable)
        ensures
            r@ == Seq::<EntryV>::empty(),
    {
        let t = PendingTable { calls: Vec::new() };
        proof {
            assert(t@ =~= Seq::<EntryV>::empty());
        }
        t
    }

    /// Insert a new entry. The identifier must not be present: the
    /// identifier generator's uniqueness guarantee makes a collision a
    /// caller bug, so this is an invariant assumption, not a recoverable
    /// failure.
    pub fn register(&mut self, id: Id, slot: CompletionSlot)
        requires
            table_lookup(old(self)@, id@) is None,
        ensures
            final(self)@ == old(self)@.push((id@, slot@)),
    {
        let ghost pre = self@;
        self.calls.push((id, slot));
        proof {
            assert(self@ =~= pre.push((id@, slot@)));
        }
    }

    /// The completion slot of the entry with the given identifier.
    pub fn slot_of(&self, id: Id) -> (r: Option<&CompletionSlot>)
        requires
            table_ids_distinct(self@),
        ensures
            match r {
                Some(s) => table_lookup(self@, id@) == Some(s@),
                None => table_lookup(self@, id@) is None,
            },
    {
        let mut i: usize = 0;
        while i < self.calls.len()
            invariant
                i <= self.calls@.len(),
                table_ids_distinct(self@),
                forall|k: int| 0 <= k < i ==> (#[trigger] self@[k]).0 != id@,
            decreases self.calls@.len() - i,
        {
            if self.calls[i].0 == id {
                let s = &self.calls[i].1;
                proof {
                    lemma_lookup_index(self@, i as int);
                }
                return Some(s);
            }
            i = i + 1;
        }
        proof {
            lemma_lookup_not_found(self@, id@);
        }
        None
    }

    /// Whether an entry with the given identifier is pending.
    pub fn has_pending(&self, id: Id) -> (r: bool)
        requires
            table_ids_distinct(self@),
        ensures
            r == (table_lookup(self@, id@) == Some(None::<ReplyV>)),
    {
        match self.slot_of(id) {
            Some(s) => s.is_pending(),
            None => false,
        }
    }

    /// Deliver `reply` to the pending entry with the given identifier,
    /// resolving it; reports whether such an entry was found. A missing or
    /// already resolved entry leaves the table untouched — the peer may
    /// answer an identifier the client no longer tracks, and that must not
    /// be fatal.
    pub fn resolve(&mut self, id: Id, reply: Reply) -> (r: bool)
        requires
            table_ids_distinct(old(self)@),
        ensures
            final(self)@ == resolve_model(old(self)@, id@, reply_view(reply)),
            r == (table_lookup(old(self)@, id@) == Some(None::<ReplyV>)),
            table_ids_distinct(final(self)@),
    {
        let ghost pre = self@;
        let mut i: usize = 0;
        while i < self.calls.len()
            invariant
                i <= self.calls@.len(),
                pre == old(self)@,
                self@ == pre,
                table_ids_distinct(pre),
                forall|k: int| 0 <= k < i ==> (#[trigger] pre[k]).0 != id@,
            decreases self.calls@.len() - i,
        {
            if self.calls[i].0 == id {
                proof {
                    lemma_lookup_index(pre, i as int);
                }
                let pending = self.calls[i].1.is_pending();
                if pending {
                    let entry = self.calls.remove(i);
                    let (eid, mut slot) = entry;
                    slot.resolve(reply);
                    self.calls.insert(i, (eid, slot));
                    proof {
                        assert(self@ =~= resolve_model(pre, id@, reply_view(reply)));
                        assert(table_ids_distinct(self@));
                    }
                    return true;
                } else {
                    proof {
                        assert(self@ =~= resolve_model(pre, id@, reply_view(reply)));
                    }
                    return false;
                }
            }
            i = i + 1;
        }
        proof {
            lemma_lookup_not_found(pre, id@);
            lemma_lookup_none(pre, id@);
            assert(self@ =~= resolve_model(pre, id@, reply_view(reply)));
        }
        false
    }

    /// Resolve every pending entry with a lost-connection failure. Used
    /// exactly once, when the transport reports closure.
    pub fn drain_all(&mut self)
        ensures
            final(self)@ == close_model(old(self)@),
    {
        let ghost pre = self@;
        let mut i: usize = 0;
        while i < self.calls.len()
            invariant
                i <= self.calls@.len(),
                pre == old(self)@,
                self@.len() == pre.len(),
                forall|k: int| 0 <= k < i ==> self@[k] == close_model(pre)[k],
                forall|k: int| i <= k < pre.len() ==> self@[k] == (#[trigger] pre[k]),
            decreases self.calls@.len() - i,
        {
            let ghost mid = self@;
            let pending = self.calls[i].1.is_pending();
            if pending {
                let entry = self.calls.remove(i);
                let (eid, mut slot) = entry;
                slot.resolve(Err(RpcError::LostConnection));
                self.calls.insert(i, (eid, slot));
                proof {
                    assert(self@ =~= mid.update(
                        i as int,
                        (mid[i as int].0, Some(Err(RpcErrorV::LostConnection))),
                    ));
                }
            }
            i = i + 1;
        }
        proof {
            assert(self@ =~= close_model(pre));
        }
    }
}

/// An identifier carried by no entry is absent under lookup.
pub proof fn lemma_lookup_not_found(t: Seq<EntryV>, id: int)
    requires
        forall|k: int| 0 <= k < t.len() ==> (#[trigger] t[k]).0 != id,
    ensures
        table_lookup(t, id) is None,
    decreases t.len(),
{
    if t.len() > 0 {
        assert(forall|k: int|
            0 <= k < t.len() - 1 ==> (#[trigger] t.drop_first()[k]) == t[k + 1]);
        lemma_lookup_not_found(t.drop_first(), id);
    }
}

/// A found identifier has a witnessing entry with the reported state.
pub proof fn lemma_lookup_found(t: Seq<EntryV>, id: int)
    requires
        table_lookup(t, id) is Some,
    ensures
        exists|k: int|
            0 <= k < t.len() && (#[trigger] t[k]).0 == id && t[k].1 == table_lookup(t, id)->0,
    decreases t.len(),
{
    if t[0].0 == id {
        assert(0 <= 0 < t.len() && (#[trigger] t[0]).0 == id && t[0].1 == table_lookup(t, id)->0);
    } else {
        lemma_lookup_found(t.drop_first(), id);
        let k = choose|k: int|
            0 <= k < t.drop_first().len() && (#[trigger] t.drop_first()[k]).0 == id
                && t.drop_first()[k].1 == table_lookup(t.drop_first(), id)->0;
        assert(t.drop_first()[k] == t[k + 1]);
        assert(0 <= k + 1 < t.len() && (#[trigger] t[k + 1]).0 == id && t[k + 1].1 == table_lookup(
            t,
            id,
        )->0);
    }
}

// === Laws ===

/// Closing is idempotent: draining the table after a connection loss a
/// second time changes nothing, because resolving leaves no pending entry
/// behind.
pub proof fn lemma_close_model_idempotent(t: Seq<EntryV>)
    ensures
        close_model(close_model(t)) == close_model(t),
{
    assert(close_model(close_model(t)) =~= close_model(t));
}

/// A table with no pending entry is untouched by a connection loss: on an
/// already closed handler, closing again has no observable effect.
pub proof fn lemma_close_model_noop_when_resolved(t: Seq<EntryV>)
    requires
        forall|k: int| 0 <= k < t.len() ==> (#[trigger] t[k]).1 is Some,
    ensures
        close_model(t) == t,
{
    assert(close_model(t) =~= t);
}

/// A connection loss resolves every pending call with the lost-connection
/// failure, and leaves every identifier in place.
pub proof fn lemma_close_model_resolves_pending(t: Seq<EntryV>, id: int)
    requires
        table_lookup(t, id) == Some(None::<ReplyV>),
    ensures
        table_lookup(close_model(t), id) == Some(
            Some(Err::<RawResultV, RpcErrorV>(RpcErrorV::LostConnection)),
        ),
    decreases t.len(),
{
    if t[0].0 == id {
        assert(close_model(t)[0] == (t[0].0, Some(
            Err::<RawResultV, RpcErrorV>(RpcErrorV::LostConnection),
        )));
    } else {
        assert(close_model(t).drop_first() =~= close_model(t.drop_first()));
        assert(close_model(t)[0].0 == t[0].0);
        lemma_close_model_resolves_pending(t.drop_first(), id);
    }
}

/// Resolution is permanent: once a call's slot holds an outcome, no
/// further delivery and no connection loss changes it — the outcome is
/// the same on every later observation.
pub proof fn lemma_resolution_permanent(t: Seq<EntryV>, id: int, r: ReplyV, id2: int, r2: ReplyV)
    requires
        table_lookup(t, id) == Some(Some(r)),
    ensures
        table_lookup(resolve_model(t, id2, r2), id) == Some(Some(r)),
        table_lookup(close_model(t), id) == Some(Some(r)),
    decreases t.len(),
{
    if t[0].0 == id {
        assert(resolve_model(t, id2, r2)[0] == t[0]);
        assert(close_model(t)[0] == t[0]);
    } else {
        assert(resolve_model(t, id2, r2).drop_first() =~= resolve_model(t.drop_first(), id2, r2));
        assert(close_model(t).drop_first() =~= close_model(t.drop_first()));
        assert(resolve_model(t, id2, r2)[0].0 == t[0].0);
        assert(close_model(t)[0].0 == t[0].0);
        lemma_resolution_permanent(t.drop_first(), id, r, id2, r2);
    }
}

} // verus!
