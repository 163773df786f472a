//! The global properties the recorder promises, written down and proved.
//!
//! Each public proof function here states one law over the same spec
//! functions the executable operations are specified with, so what it says
//! of `sv_add_client` and its kin holds of `State::add_client` and the
//! reducer through their contracts.

use vstd::prelude::*;

use crate::actions::{status_step, Route};
use crate::state::{
    find_client, lemma_find_client, sv_add_client, sv_add_item, sv_remove_client, total_items,
    unique_ids, ClientView, HistoryItemView, Status,
};

verus! {

// ---------------------------------------------------------------------------
// Helpers about `find_client` and `total_items`
// ---------------------------------------------------------------------------

proof fn lemma_find_client_push(cs: Seq<ClientView>, c: ClientView, id: Seq<char>)
    ensures
        find_client(cs.push(c), id) == (if find_client(cs, id) >= 0 {
            find_client(cs, id)
        } else if c.id == id {
            cs.len() as int
        } else {
            -1
        }),
    decreases cs.len(),
{
    if cs.len() == 0 {
        assert(cs.push(c)[0] == c);
        assert(cs.push(c).drop_first() =~= Seq::<ClientView>::empty());
        assert(find_client(Seq::<ClientView>::empty(), id) == -1);
    } else {
        assert(cs.push(c)[0] == cs[0]);
        if cs[0].id != id {
            lemma_find_client_push(cs.drop_first(), c, id);
            assert(cs.push(c).drop_first() =~= cs.drop_first().push(c));
            let r = find_client(cs.drop_first().push(c), id);
            assert(find_client(cs.push(c), id) == (if r < 0 {
                -1
            } else {
                r + 1
            }));
        }
    }
}

proof fn lemma_find_client_update(cs: Seq<ClientView>, j: int, c2: ClientView, id: Seq<char>)
    requires
        0 <= j < cs.len(),
        c2.id == cs[j].id,
    ensures
        find_client(cs.update(j, c2), id) == find_client(cs, id),
    decreases cs.len(),
{
    let cs2 = cs.update(j, c2);
    if j == 0 {
        assert(cs2[0].id == cs[0].id);
        if cs[0].id != id {
            assert(cs2.drop_first() =~= cs.drop_first());
        }
    } else {
        assert(cs2[0] == cs[0]);
        if cs[0].id != id {
            assert(cs2.drop_first() =~= cs.drop_first().update(j - 1, c2));
            lemma_find_client_update(cs.drop_first(), j - 1, c2, id);
        }
    }
}

proof fn lemma_total_items_push(cs: Seq<ClientView>, c: ClientView)
    ensures
        total_items(cs.push(c)) == total_items(cs) + c.history.len(),
{
    assert(cs.push(c).drop_last() =~= cs);
    assert(cs.push(c).last() == c);
}

proof fn lemma_total_items_update(cs: Seq<ClientView>, j: int, c2: ClientView)
    requires
        0 <= j < cs.len(),
    ensures
        total_items(cs.update(j, c2)) + cs[j].history.len() == total_items(cs)
            + c2.history.len(),
    decreases cs.len(),
{
    let cs2 = cs.update(j, c2);
    if j == cs.len() - 1 {
        assert(cs2.drop_last() =~= cs.drop_last());
        assert(cs2.last() == c2);
    } else {
        assert(cs2.drop_last() =~= cs.drop_last().update(j, c2));
        assert(cs2.last() == cs.last());
        lemma_total_items_update(cs.drop_last(), j, c2);
    }
}

/// The whole effect of one registration: a new identifier adds one empty
/// client and no items; a known one changes nothing; no other identifier's
/// presence changes.
pub proof fn lemma_register_effects(cs: Seq<ClientView>, id: Seq<char>)
    ensures
        find_client(cs, id) >= 0 ==> sv_add_client(cs, id) == cs,
        find_client(cs, id) < 0 ==> {
            &&& sv_add_client(cs, id).len() == cs.len() + 1
            &&& total_items(sv_add_client(cs, id)) == total_items(cs)
        },
        forall|y: Seq<char>|
            (#[trigger] find_client(sv_add_client(cs, id), y) >= 0) <==> (find_client(cs, y) >= 0
                || y == id),
{
    if find_client(cs, id) < 0 {
        let c = ClientView::empty(id);
        lemma_total_items_push(cs, c);
        assert forall|y: Seq<char>|
            (#[trigger] find_client(sv_add_client(cs, id), y) >= 0) <==> (find_client(cs, y) >= 0
                || y == id) by {
            lemma_find_client_push(cs, c, y);
        }
    }
}

/// The whole effect of one append: to a known identifier it adds exactly
/// one item and no client; to an unknown one it does nothing; presence of
/// every identifier is unchanged.
pub proof fn lemma_append_effects(cs: Seq<ClientView>, id: Seq<char>, item: HistoryItemView)
    ensures
        find_client(cs, id) < 0 ==> sv_add_item(cs, id, item) == cs,
        find_client(cs, id) >= 0 ==> {
            &&& sv_add_item(cs, id, item).len() == cs.len()
            &&& total_items(sv_add_item(cs, id, item)) == total_items(cs) + 1
        },
        forall|y: Seq<char>|
            (#[trigger] find_client(sv_add_item(cs, id, item), y) >= 0) <==> find_client(cs, y)
                >= 0,
{
    lemma_find_client(cs, id);
    let j = find_client(cs, id);
    if j >= 0 {
        let c2 = ClientView { history: cs[j].history.push(item), ..cs[j] };
        lemma_total_items_update(cs, j, c2);
        assert forall|y: Seq<char>|
            (#[trigger] find_client(sv_add_item(cs, id, item), y) >= 0) <==> find_client(cs, y)
                >= 0 by {
            lemma_find_client_update(cs, j, c2, y);
        }
    }
}

// ---------------------------------------------------------------------------
// Registration is idempotent
// ---------------------------------------------------------------------------

/// Registering the same identifier twice yields the same state as
/// registering it once: the second registration finds the empty client the
/// first one added and leaves everything unchanged.
pub proof fn lemma_add_client_idempotent(cs: Seq<ClientView>, id: Seq<char>)
    ensures
        sv_add_client(sv_add_client(cs, id), id) == sv_add_client(cs, id),
{
    if find_client(cs, id) < 0 {
        lemma_find_client_push(cs, ClientView::empty(id), id);
    }
}

// ---------------------------------------------------------------------------
// Appends to unknown identifiers are dropped
// ---------------------------------------------------------------------------

/// Appending a history item for an identifier no client carries leaves the
/// state unchanged: a no-op, never an error.
pub proof fn lemma_add_item_unknown_client(
    cs: Seq<ClientView>,
    id: Seq<char>,
    item: HistoryItemView,
)
    requires
        find_client(cs, id) < 0,
    ensures
        sv_add_item(cs, id, item) == cs,
{
}

// ---------------------------------------------------------------------------
// Removal is final
// ---------------------------------------------------------------------------

/// After a client is removed, an append under its identifier is dropped:
/// removal followed by an append equals removal alone.
pub proof fn lemma_removed_client_drops_items(
    cs: Seq<ClientView>,
    id: Seq<char>,
    item: HistoryItemView,
)
    requires
        unique_ids(cs),
    ensures
        sv_add_item(sv_remove_client(cs, id), id, item) == sv_remove_client(cs, id),
{
    lemma_find_client(cs, id);
    let j = find_client(cs, id);
    if j >= 0 {
        let removed = cs.remove(j);
        lemma_find_client(removed, id);
        let fc = find_client(removed, id);
        if fc >= 0 {
            if fc < j {
                assert(removed[fc] == cs[fc]);
                assert(cs[fc].id != id);
            } else {
                assert(removed[fc] == cs[fc + 1]);
                assert(cs[j].id == cs[fc + 1].id);
                assert(false);
            }
        }
        lemma_append_effects(removed, id, item);
    }
}

// ---------------------------------------------------------------------------
// Arrival interleaving does not matter
// ---------------------------------------------------------------------------

/// What one connection contributes to the state: its registration, or one
/// appended history item.
pub ghost enum SessionOp {
    Register(Seq<char>),
    Append(Seq<char>, HistoryItemView),
}

/// Apply one contribution.
pub open spec fn apply_session_op(cs: Seq<ClientView>, op: SessionOp) -> Seq<ClientView> {
    match op {
        SessionOp::Register(x) => sv_add_client(cs, x),
        SessionOp::Append(x, item) => sv_add_item(cs, x, item),
    }
}

/// Apply a whole arrival order, first element first.
pub open spec fn apply_session_ops(cs: Seq<ClientView>, ops: Seq<SessionOp>) -> Seq<ClientView>
    decreases ops.len(),
{
    if ops.len() == 0 {
        cs
    } else {
        apply_session_ops(apply_session_op(cs, ops[0]), ops.drop_first())
    }
}

proof fn lemma_apply_session_snoc(cs: Seq<ClientView>, ops: Seq<SessionOp>, op: SessionOp)
    ensures
        apply_session_ops(cs, ops.push(op)) == apply_session_op(apply_session_ops(cs, ops), op),
    decreases ops.len(),
{
    if ops.len() == 0 {
        assert(ops.push(op)[0] == op);
        assert(ops.push(op).drop_first() =~= Seq::<SessionOp>::empty());
        assert(apply_session_ops(apply_session_op(cs, op), Seq::<SessionOp>::empty())
            == apply_session_op(cs, op));
        assert(apply_session_ops(cs, Seq::<SessionOp>::empty()) == cs);
    } else {
        assert(ops.push(op)[0] == ops[0]);
        assert(ops.push(op).drop_first() =~= ops.drop_first().push(op));
        lemma_apply_session_snoc(apply_session_op(cs, ops[0]), ops.drop_first(), op);
        assert(apply_session_ops(cs, ops.push(op)) == apply_session_ops(
            apply_session_op(cs, ops[0]),
            ops.drop_first().push(op),
        ));
    }
}

/// Two connections `a` and `b`, each sending its registration and then one
/// item, in any global interleaving that keeps each connection's own order:
/// the result always has exactly two clients and two history items more
/// than the starting state.
pub proof fn lemma_interleaving_counts(
    cs: Seq<ClientView>,
    ops: Seq<SessionOp>,
    a: Seq<char>,
    b: Seq<char>,
    ia: HistoryItemView,
    ib: HistoryItemView,
    pa: int,
    qa: int,
    pb: int,
    qb: int,
)
    requires
        a != b,
        find_client(cs, a) < 0,
        find_client(cs, b) < 0,
        ops.len() == 4,
        0 <= pa < qa < 4,
        0 <= pb < qb < 4,
        pa != pb && pa != qb && qa != pb && qa != qb,
        ops[pa] == SessionOp::Register(a),
        ops[qa] == SessionOp::Append(a, ia),
        ops[pb] == SessionOp::Register(b),
        ops[qb] == SessionOp::Append(b, ib),
    ensures
        apply_session_ops(cs, ops).len() == cs.len() + 2,
        total_items(apply_session_ops(cs, ops)) == total_items(cs) + 2,
{
    assert(ops.take(0) =~= Seq::<SessionOp>::empty());
    lemma_interleaving_prefix(cs, ops, a, b, ia, ib, pa, qa, pb, qb, 0);
    assert(ops.take(4) =~= ops);
}

/// Invariant of [`lemma_interleaving_counts`], carried from step `k` to the
/// end: after the first `k` arrivals, each connection has contributed its
/// client exactly when its registration has arrived, and its item exactly
/// when its append has arrived.
proof fn lemma_interleaving_prefix(
    cs: Seq<ClientView>,
    ops: Seq<SessionOp>,
    a: Seq<char>,
    b: Seq<char>,
    ia: HistoryItemView,
    ib: HistoryItemView,
    pa: int,
    qa: int,
    pb: int,
    qb: int,
    k: int,
)
    requires
        a != b,
        find_client(cs, a) < 0,
        find_client(cs, b) < 0,
        ops.len() == 4,
        0 <= pa < qa < 4,
        0 <= pb < qb < 4,
        pa != pb && pa != qb && qa != pb && qa != qb,
        ops[pa] == SessionOp::Register(a),
        ops[qa] == SessionOp::Append(a, ia),
        ops[pb] == SessionOp::Register(b),
        ops[qb] == SessionOp::Append(b, ib),
        0 <= k <= 4,
        apply_session_ops(cs, ops.take(k)).len() == cs.len() + (if pa < k {
            1int
        } else {
            0int
        }) + (if pb < k {
            1int
        } else {
            0int
        }),
        total_items(apply_session_ops(cs, ops.take(k))) == total_items(cs) + (if qa < k {
            1int
        } else {
            0int
        }) + (if qb < k {
            1int
        } else {
            0int
        }),
        (find_client(apply_session_ops(cs, ops.take(k)), a) >= 0) <==> pa < k,
        (find_client(apply_session_ops(cs, ops.take(k)), b) >= 0) <==> pb < k,
    ensures
        apply_session_ops(cs, ops).len() == cs.len() + 2,
        total_items(apply_session_ops(cs, ops)) == total_items(cs) + 2,
    decreases 4 - k,
{
    if k == 4 {
        assert(ops.take(4) =~= ops);
    } else {
        let csk = apply_session_ops(cs, ops.take(k));
        assert(ops.take(k + 1) =~= ops.take(k).push(ops[k]));
        lemma_apply_session_snoc(cs, ops.take(k), ops[k]);
        if k == pa {
            lemma_register_effects(csk, a);
        } else if k == qa {
            lemma_append_effects(csk, a, ia);
        } else if k == pb {
            lemma_register_effects(csk, b);
        } else {
            assert(k == qb);
            lemma_append_effects(csk, b, ib);
        }
        lemma_interleaving_prefix(cs, ops, a, b, ia, ib, pa, qa, pb, qb, k + 1);
    }
}

// ---------------------------------------------------------------------------
// Shutdown is terminal
// ---------------------------------------------------------------------------

/// Once the status is `ShuttingDown`, no further applied action moves it:
/// whatever route the next action takes, the status stays `ShuttingDown`.
pub proof fn lemma_shutdown_terminal(r: Route)
    ensures
        status_step(Status::ShuttingDown, r) == Status::ShuttingDown,
{
}

} // verus!
