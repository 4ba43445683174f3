//! The registry's membership history: the sequence of `Connect` and
//! `Disconnect` operations, in the single total order in which the registry
//! processes them, and what set of ids is live after it.

use vstd::prelude::*;

verus! {

/// One membership operation, as the registry's serialized processing order
/// sees it.
pub enum RegistryOp {
    Connect { id: u128 },
    Disconnect { id: u128 },
}

/// The set of ids live after processing `ops` in order, starting from an
/// empty registry. Each step is exactly the id-set effect that
/// `Registry::connect` and `Registry::disconnect` state in their contracts.
pub open spec fn live_ids(ops: Seq<RegistryOp>) -> Set<u128>
    decreases ops.len(),
{
    if ops.len() == 0 {
        Set::empty()
    } else {
        match ops.last() {
            RegistryOp::Connect { id } => live_ids(ops.drop_last()).insert(id),
            RegistryOp::Disconnect { id } => live_ids(ops.drop_last()).remove(id),
        }
    }
}

/// One more processed operation changes the live set exactly as the
/// corresponding registry operation's contract changes `Registry::id_set`:
/// a connect inserts its id, a disconnect removes it.
pub proof fn lemma_live_ids_step(ops: Seq<RegistryOp>, op: RegistryOp)
    ensures
        live_ids(ops.push(op)) == (match op {
            RegistryOp::Connect { id } => live_ids(ops).insert(id),
            RegistryOp::Disconnect { id } => live_ids(ops).remove(id),
        }),
{
    assert(ops.push(op).drop_last() =~= ops);
    assert(ops.push(op).last() == op);
}

/// True when `ops` holds a `Connect` for `id` that no later `Disconnect` for
/// `id` has matched.
pub open spec fn connected_not_disconnected(ops: Seq<RegistryOp>, id: u128) -> bool {
    exists|j: int|
        0 <= j < ops.len() && #[trigger] ops[j] == (RegistryOp::Connect { id }) && (forall|k: int|
            j < k < ops.len() ==> ops[k] != (RegistryOp::Disconnect { id }))
}

/// Membership invariant: after any sequence of membership operations, the
/// set of live ids is exactly the set of ids that have connected and not yet
/// had a matching disconnect processed.
pub proof fn lemma_live_ids_match_history(ops: Seq<RegistryOp>)
    ensures
        forall|id: u128| live_ids(ops).contains(id) <==> connected_not_disconnected(ops, id),
    decreases ops.len(),
{
    if ops.len() > 0 {
        let t = ops.drop_last();
        lemma_live_ids_match_history(t);
        assert forall|id: u128|
            live_ids(ops).contains(id) <==> connected_not_disconnected(ops, id) by {
            lemma_history_step(ops, id);
        }
    }
}

/// One step of the correspondence: how the last operation of `ops` changes
/// which ids count as connected-and-not-disconnected.
proof fn lemma_history_step(ops: Seq<RegistryOp>, id: u128)
    requires
        ops.len() > 0,
        forall|x: u128|
            live_ids(ops.drop_last()).contains(x) <==> connected_not_disconnected(
                ops.drop_last(),
                x,
            ),
    ensures
        live_ids(ops).contains(id) <==> connected_not_disconnected(ops, id),
{
    let t = ops.drop_last();
    let last = ops.last();
    match last {
        RegistryOp::Connect { id: c } => {
            if id == c {
                assert(live_ids(ops).contains(id));
                assert(ops[ops.len() - 1] == (RegistryOp::Connect { id }));
                assert(connected_not_disconnected(ops, id));
            } else {
                if connected_not_disconnected(t, id) {
                    let j = choose|j: int|
                        0 <= j < t.len() && #[trigger] t[j] == (RegistryOp::Connect { id })
                            && (forall|k: int|
                            j < k < t.len() ==> t[k] != (RegistryOp::Disconnect { id }));
                    assert(ops[j] == (RegistryOp::Connect { id }));
                    assert forall|k: int|
                        j < k < ops.len() implies ops[k] != (RegistryOp::Disconnect { id }) by {
                        if k < ops.len() - 1 {
                            assert(t[k] != (RegistryOp::Disconnect { id }));
                        }
                    }
                    assert(connected_not_disconnected(ops, id));
                }
                if connected_not_disconnected(ops, id) {
                    let j = choose|j: int|
                        0 <= j < ops.len() && #[trigger] ops[j] == (RegistryOp::Connect { id })
                            && (forall|k: int|
                            j < k < ops.len() ==> ops[k] != (RegistryOp::Disconnect { id }));
                    assert(j < ops.len() - 1);
                    assert(t[j] == (RegistryOp::Connect { id }));
                    assert forall|k: int|
                        j < k < t.len() implies t[k] != (RegistryOp::Disconnect { id }) by {
                        assert(ops[k] != (RegistryOp::Disconnect { id }));
                    }
                    assert(connected_not_disconnected(t, id));
                }
            }
        },
        RegistryOp::Disconnect { id: c } => {
            if id == c {
                assert(!live_ids(ops).contains(id));
                if connected_not_disconnected(ops, id) {
                    let j = choose|j: int|
                        0 <= j < ops.len() && #[trigger] ops[j] == (RegistryOp::Connect { id })
                            && (forall|k: int|
                            j < k < ops.len() ==> ops[k] != (RegistryOp::Disconnect { id }));
                    assert(ops[ops.len() - 1] == (RegistryOp::Disconnect { id }));
                    assert(j < ops.len() - 1);
                    assert(false);
                }
            } else {
                if connected_not_disconnected(t, id) {
                    let j = choose|j: int|
                        0 <= j < t.len() && #[trigger] t[j] == (RegistryOp::Connect { id })
                            && (forall|k: int|
                            j < k < t.len() ==> t[k] != (RegistryOp::Disconnect { id }));
                    assert(ops[j] == (RegistryOp::Connect { id }));
                    assert forall|k: int|
                        j < k < ops.len() implies ops[k] != (RegistryOp::Disconnect { id }) by {
                        if k < ops.len() - 1 {
                            assert(t[k] != (RegistryOp::Disconnect { id }));
                        }
                    }
                    assert(connected_not_disconnected(ops, id));
                }
                if connected_not_disconnected(ops, id) {
                    let j = choose|j: int|
                        0 <= j < ops.len() && #[trigger] ops[j] == (RegistryOp::Connect { id })
                            && (forall|k: int|
                            j < k < ops.len() ==> ops[k] != (RegistryOp::Disconnect { id }));
                    assert(j < ops.len() - 1);
                    assert(t[j] == (RegistryOp::Connect { id }));
                    assert forall|k: int|
                        j < k < t.len() implies t[k] != (RegistryOp::Disconnect { id }) by {
                        assert(ops[k] != (RegistryOp::Disconnect { id }));
                    }
                    assert(connected_not_disconnected(t, id));
                }
            }
        },
    }
}

} // verus!
