//! Engine-wide laws, proved once and for all over the state model and the
//! transition functions that the engine's contracts are stated with.

use crate::state::{empty_model, spec_apply, spec_replay, spec_step, spec_validate, StateModel,
    TxError};
use crate::tx::Transaction;
use vstd::prelude::*;

verus! {

/// Determinism: validating the same transaction twice against the same
/// state yields the same result. Any two results that meet `validate_tx`'s
/// contract for one (state, transaction) pair are equal.
pub proof fn lemma_validate_deterministic(
    m: StateModel,
    tx: Transaction,
    r1: Result<(), TxError>,
    r2: Result<(), TxError>,
)
    requires
        r1 == spec_validate(m, tx),
        r2 == spec_validate(m, tx),
    ensures
        r1 == r2,
{
}

/// Validate-apply consistency: a step commits the transaction exactly when
/// validation succeeds at the moment the step executes, and an invalid
/// transaction leaves the state unchanged.
pub proof fn lemma_validate_apply_consistency(m: StateModel, tx: Transaction)
    ensures
        spec_validate(m, tx) is Ok ==> spec_step(m, tx) == spec_apply(m, tx),
        !(spec_validate(m, tx) is Ok) ==> spec_step(m, tx) == m,
{
}

/// One step never unregisters a user or rewrites an identifier: every
/// registered key stays registered, under the same identifier.
proof fn lemma_step_users_permanent(m: StateModel, tx: Transaction, k: Seq<u8>)
    requires
        m.users.contains_key(k),
    ensures
        spec_step(m, tx).users.contains_key(k),
        spec_step(m, tx).users[k] == m.users[k],
{
}

/// The user registry is permanent: across any sequence of steps, every
/// registered key stays registered, under the same identifier.
pub proof fn lemma_replay_users_permanent(m: StateModel, txs: Seq<Transaction>, k: Seq<u8>)
    requires
        m.users.contains_key(k),
    ensures
        spec_replay(m, txs).users.contains_key(k),
        spec_replay(m, txs).users[k] == m.users[k],
    decreases txs.len(),
{
    if txs.len() > 0 {
        lemma_step_users_permanent(m, txs.first(), k);
        lemma_replay_users_permanent(spec_step(m, txs.first()), txs.drop_first(), k);
    }
}

/// Replaying a concatenation replays the two parts in order.
proof fn lemma_replay_concat(m: StateModel, a: Seq<Transaction>, b: Seq<Transaction>)
    ensures
        spec_replay(m, a + b) == spec_replay(spec_replay(m, a), b),
    decreases a.len(),
{
    if a.len() == 0 {
        assert(a + b =~= b);
    } else {
        assert((a + b).first() == a.first());
        assert((a + b).drop_first() =~= a.drop_first() + b);
        lemma_replay_concat(spec_step(m, a.first()), a.drop_first(), b);
    }
}

/// Replaying one transaction is one step.
proof fn lemma_replay_singleton(m: StateModel, tx: Transaction)
    ensures
        spec_replay(m, seq![tx]) == spec_step(m, tx),
{
    assert(seq![tx].len() == 1);
    assert(seq![tx].first() == tx);
    assert(seq![tx].drop_first() =~= Seq::<Transaction>::empty());
    assert(spec_replay(spec_step(m, tx), Seq::<Transaction>::empty()) == spec_step(m, tx));
}

/// Registration uniqueness: in one lineage of states, no two Register
/// transactions for the same signer key both succeed. Once the earlier one
/// has been accepted, validation of the later one fails in the state it
/// meets, whatever transactions ran in between.
pub proof fn lemma_registration_unique(
    m: StateModel,
    txs: Seq<Transaction>,
    i: int,
    j: int,
)
    requires
        0 <= i < j < txs.len(),
        txs[i] is Register,
        txs[j] is Register,
        txs[i].spec_signer_pubkey() == txs[j].spec_signer_pubkey(),
        spec_validate(spec_replay(m, txs.take(i)), txs[i]) is Ok,
    ensures
        !(spec_validate(spec_replay(m, txs.take(j)), txs[j]) is Ok),
{
    let k = txs[i].spec_signer_pubkey();
    let si = spec_replay(m, txs.take(i));
    let si1 = spec_step(si, txs[i]);
    assert(si1.users.contains_key(k));
    assert(txs.take(i + 1) =~= txs.take(i) + seq![txs[i]]);
    lemma_replay_concat(m, txs.take(i), seq![txs[i]]);
    lemma_replay_singleton(si, txs[i]);
    assert(spec_replay(m, txs.take(i + 1)) == si1);
    assert(txs.take(j) =~= txs.take(i + 1) + txs.subrange(i + 1, j));
    lemma_replay_concat(m, txs.take(i + 1), txs.subrange(i + 1, j));
    lemma_replay_users_permanent(si1, txs.subrange(i + 1, j), k);
    assert(spec_replay(m, txs.take(j)).users.contains_key(k));
}

/// One step only ever appends to a channel's log.
proof fn lemma_step_channels_append_only(m: StateModel, tx: Transaction, c: Seq<char>)
    requires
        m.channels.contains_key(c),
    ensures
        spec_step(m, tx).channels.contains_key(c),
        m.channels[c].is_prefix_of(spec_step(m, tx).channels[c]),
{
    let after = spec_step(m, tx).channels[c];
    assert(m.channels[c] =~= after.subrange(0, m.channels[c].len() as int));
}

/// Append-only channels: across any sequence of steps, a channel's log only
/// grows, and the messages already in it are never changed or reordered.
pub proof fn lemma_replay_channels_append_only(
    m: StateModel,
    txs: Seq<Transaction>,
    c: Seq<char>,
)
    requires
        m.channels.contains_key(c),
    ensures
        spec_replay(m, txs).channels.contains_key(c),
        m.channels[c].is_prefix_of(spec_replay(m, txs).channels[c]),
    decreases txs.len(),
{
    if txs.len() == 0 {
        assert(m.channels[c] =~= m.channels[c].subrange(0, m.channels[c].len() as int));
    } else {
        let m1 = spec_step(m, txs.first());
        lemma_step_channels_append_only(m, txs.first(), c);
        lemma_replay_channels_append_only(m1, txs.drop_first(), c);
        let s0 = m.channels[c];
        let s1 = m1.channels[c];
        let s2 = spec_replay(m1, txs.drop_first()).channels[c];
        assert(spec_replay(m, txs) == spec_replay(m1, txs.drop_first()));
        assert forall|x: int| 0 <= x < s0.len() implies s0[x] == s2[x] by {
            assert(s0[x] == s1[x]);
            assert(s1[x] == s2[x]);
        }
        assert(s0 =~= s2.subrange(0, s0.len() as int));
    }
}

/// Replay determinism: applying the same ordered transaction list to two
/// independently constructed empty states yields identical user registries
/// and identical channel contents.
pub proof fn lemma_replay_deterministic(txs: Seq<Transaction>, m1: StateModel, m2: StateModel)
    requires
        m1 == empty_model(),
        m2 == empty_model(),
    ensures
        spec_replay(m1, txs).users == spec_replay(m2, txs).users,
        spec_replay(m1, txs).channels == spec_replay(m2, txs).channels,
{
}

} // verus!
