//! State engine: the user registry and the channel message logs, with the
//! validate and apply operations that are the sole authority over them.
//!
//! The mathematical value of the engine state is a [`StateModel`]: a map from
//! public-key bytes to display identifiers and a map from channel names to
//! message sequences. Every operation's contract is stated against that
//! model, through the pure transition functions [`spec_validate`],
//! [`spec_apply`] and [`spec_step`].

use crate::sig::{ed25519_verifies, verify_signature};
use crate::tx::{spec_unsigned_encoding, PublicKey, Transaction};
use vstd::prelude::*;

verus! {

/// One message of a channel: the sender's display identifier and the text.
/// Immutable once appended.
pub struct Message {
    pub user_id: String,
    pub contents: String,
}

/// Mathematical value of a [`Message`].
pub ghost struct MessageModel {
    pub user_id: Seq<char>,
    pub contents: Seq<char>,
}

impl View for Message {
    type V = MessageModel;

    open spec fn view(&self) -> MessageModel {
        MessageModel { user_id: self.user_id@, contents: self.contents@ }
    }
}

/// The values of a sequence of messages.
pub open spec fn msgs_view(s: Seq<Message>) -> Seq<MessageModel> {
    s.map_values(|m: Message| m@)
}

/// The three caller-visible rejection outcomes of validate and apply. All are
/// deterministic given the same state and transaction, and a rejected
/// transaction has no effect on state.
#[derive(Clone, Copy, Debug, PartialEq, Eq, Structural)]
pub enum TxError {
    /// The signature does not verify against the unsigned payload encoding
    /// under the claimed signer key. Checked before any semantic check.
    BadSignature,
    /// A SendMessage names a signer that is not in the user registry.
    UnknownUser,
    /// A Register names a signer that is already in the user registry.
    UserAlreadyExists,
}

/// Mathematical value of the engine state: the user registry and the
/// channel logs.
pub ghost struct StateModel {
    /// Registry: public-key bytes to display identifier.
    pub users: Map<Seq<u8>, Seq<char>>,
    /// Channel name to its ordered message log.
    pub channels: Map<Seq<char>, Seq<MessageModel>>,
}

/// The state a fresh engine starts from: no users, no channels.
pub open spec fn empty_model() -> StateModel {
    StateModel { users: Map::empty(), channels: Map::empty() }
}

/// The outcome of validating `tx` against state `m`: the signature check
/// first, then the variant's semantic precondition. `Ok` exactly when both
/// pass; otherwise the first failing error.
pub open spec fn spec_validate(m: StateModel, tx: Transaction) -> Result<(), TxError> {
    if !ed25519_verifies(tx.spec_signer_pubkey(), spec_unsigned_encoding(tx), tx.spec_signature()) {
        Err(TxError::BadSignature)
    } else {
        match tx {
            Transaction::Register { .. } => if m.users.contains_key(tx.spec_signer_pubkey()) {
                Err(TxError::UserAlreadyExists)
            } else {
                Ok(())
            },
            Transaction::SendMessage { .. } => if m.users.contains_key(tx.spec_signer_pubkey()) {
                Ok(())
            } else {
                Err(TxError::UnknownUser)
            },
        }
    }
}

/// The state after committing a valid `tx` to `m`. Meaningful when
/// `spec_validate(m, tx)` is `Ok`: Register inserts the signer into the
/// registry; SendMessage appends to the channel's log, creating the channel
/// on its first message.
pub open spec fn spec_apply(m: StateModel, tx: Transaction) -> StateModel {
    match tx {
        Transaction::Register { payload, .. } => StateModel {
            users: m.users.insert(payload.signer_pubkey@, payload.display_id@),
            channels: m.channels,
        },
        Transaction::SendMessage { payload, .. } => {
            let msg = MessageModel {
                user_id: m.users[payload.signer_pubkey@],
                contents: payload.contents@,
            };
            let log = if m.channels.contains_key(payload.channel@) {
                m.channels[payload.channel@]
            } else {
                Seq::empty()
            };
            StateModel { users: m.users, channels: m.channels.insert(payload.channel@, log.push(msg)) }
        },
    }
}

/// One step of the engine: the state after offering `tx` to `m`. A valid
/// transaction is applied; an invalid one leaves the state unchanged.
pub open spec fn spec_step(m: StateModel, tx: Transaction) -> StateModel {
    if spec_validate(m, tx) is Ok {
        spec_apply(m, tx)
    } else {
        m
    }
}

/// The state after offering an ordered list of transactions to `m`, first
/// element first.
pub open spec fn spec_replay(m: StateModel, txs: Seq<Transaction>) -> StateModel
    decreases txs.len(),
{
    if txs.len() == 0 {
        m
    } else {
        spec_replay(spec_step(m, txs.first()), txs.drop_first())
    }
}

/// The registry of a sequence of (key, identifier) entries, later entries
/// winning; with unique keys, the map the entries spell out.
pub open spec fn users_map_of(s: Seq<(PublicKey, String)>) -> Map<Seq<u8>, Seq<char>>
    decreases s.len(),
{
    if s.len() == 0 {
        Map::empty()
    } else {
        users_map_of(s.drop_last()).insert(s.last().0@, s.last().1@)
    }
}

/// The channel map of a sequence of (name, log) entries, later entries
/// winning; with unique names, the map the entries spell out.
pub open spec fn channels_map_of(s: Seq<(String, Vec<Message>)>) -> Map<Seq<char>, Seq<MessageModel>>
    decreases s.len(),
{
    if s.len() == 0 {
        Map::empty()
    } else {
        channels_map_of(s.drop_last()).insert(s.last().0@, msgs_view(s.last().1@))
    }
}

/// The engine state: user registry and channel logs, mutated only by
/// [`State::process_tx`].
pub struct State {
    users: Vec<(PublicKey, String)>,
    channels: Vec<(String, Vec<Message>)>,
}

impl View for State {
    type V = StateModel;

    closed spec fn view(&self) -> StateModel {
        StateModel { users: users_map_of(self.users@), channels: channels_map_of(self.channels@) }
    }
}

impl State {
    /// Well-formedness: each public key registers at most once, each channel
    /// name holds one log, and a channel exists only once it has received a
    /// message. Established by [`State::new`] and preserved by every
    /// operation.
    pub closed spec fn wf(self) -> bool {
        &&& forall|i: int, j: int|
            0 <= i < j < self.users@.len() ==> self.users@[i].0@ != self.users@[j].0@
        &&& forall|i: int, j: int|
            0 <= i < j < self.channels@.len() ==> self.channels@[i].0@ != self.channels@[j].0@
        &&& forall|i: int| 0 <= i < self.channels@.len() ==> self.channels@[i].1@.len() >= 1
    }

    /// Creates an engine with an empty user registry and no channels.
    pub fn new() -> (s: State)
        ensures
            s.wf(),
            s@ == empty_model(),
    {
        let s = State { users: Vec::new(), channels: Vec::new() };
        proof {
            assert(s@.users =~= empty_model().users);
            assert(s@.channels =~= empty_model().channels);
        }
        s
    }

    /// Looks the signer up in the user registry.
    fn find_user(&self, pk: &PublicKey) -> (r: Option<&String>)
        requires
            self.wf(),
        ensures
            match r {
                Some(id) => self@.users.contains_key(pk@) && id@ == self@.users[pk@],
                None => !self@.users.contains_key(pk@),
            },
    {
        let n = self.users.len();
        let mut i: usize = 0;
        while i < n
            invariant
                self.wf(),
                n == self.users@.len(),
                i <= n,
                forall|j: int| 0 <= j < i ==> self.users@[j].0@ != pk@,
            decreases n - i,
        {
            if self.users[i].0.key_eq(pk) {
                proof {
                    lemma_users_map_of_entry(self.users@, i as int);
                }
                return Some(&self.users[i].1);
            }
            i = i + 1;
        }
        proof {
            lemma_users_map_of_contains(self.users@, pk@);
        }
        None
    }

    /// Returns the position of the channel in the log list, if it exists.
    fn find_channel(&self, name: &String) -> (r: Option<usize>)
        requires
            self.wf(),
        ensures
            match r {
                Some(i) => i < self.channels@.len() && self.channels@[i as int].0@ == name@,
                None => !self@.channels.contains_key(name@),
            },
    {
        let n = self.channels.len();
        let mut i: usize = 0;
        while i < n
            invariant
                n == self.channels@.len(),
                i <= n,
                forall|j: int| 0 <= j < i ==> self.channels@[j].0@ != name@,
            decreases n - i,
        {
            if self.channels[i].0 == *name {
                return Some(i);
            }
            i = i + 1;
        }
        proof {
            lemma_channels_map_of_contains(self.channels@, name@);
        }
        None
    }

    /// Read-only view of a channel's message log. `Some` exactly for
    /// channels that have received at least one message; an existing channel
    /// is never empty.
    pub fn read_channel(&self, channel: String) -> (r: Option<&Vec<Message>>)
        requires
            self.wf(),
        ensures
            match r {
                Some(msgs) => self@.channels.contains_key(channel@) && msgs_view(msgs@)
                    == self@.channels[channel@] && msgs@.len() >= 1,
                None => !self@.channels.contains_key(channel@),
            },
    {
        match self.find_channel(&channel) {
            Some(i) => {
                proof {
                    lemma_channels_map_of_entry(self.channels@, i as int);
                }
                Some(&self.channels[i].1)
            },
            None => None,
        }
    }

    /// Snapshot of the currently known channel names, each exactly once, in
    /// unspecified order.
    pub fn list_channels(&self) -> (r: Vec<String>)
        requires
            self.wf(),
        ensures
            forall|i: int| 0 <= i < r@.len() ==> self@.channels.contains_key(#[trigger] r@[i]@),
            forall|k: Seq<char>|
                self@.channels.contains_key(k) ==> exists|i: int| 0 <= i < r@.len() && #[trigger] r@[i]@ == k,
            forall|i: int, j: int| 0 <= i < j < r@.len() ==> r@[i]@ != r@[j]@,
    {
        let n = self.channels.len();
        let mut out: Vec<String> = Vec::new();
        let mut i: usize = 0;
        while i < n
            invariant
                self.wf(),
                n == self.channels@.len(),
                i <= n,
                out@.len() == i,
                forall|j: int| 0 <= j < i ==> out@[j]@ == self.channels@[j].0@,
            decreases n - i,
        {
            out.push(self.channels[i].0.clone());
            i = i + 1;
        }
        proof {
            assert forall|k: Seq<char>| self@.channels.contains_key(k) implies exists|i: int|
                0 <= i < out@.len() && #[trigger] out@[i]@ == k by {
                lemma_channels_map_of_contains(self.channels@, k);
                let w = choose|w: int| 0 <= w < self.channels@.len() && self.channels@[w].0@ == k;
                assert(out@[w]@ == k);
            }
            assert forall|i: int| 0 <= i < out@.len() implies self@.channels.contains_key(
                #[trigger] out@[i]@,
            ) by {
                lemma_channels_map_of_contains(self.channels@, out@[i]@);
            }
        }
        out
    }

    /// Read-only validation of `tx` against the current state: first the
    /// signature over the canonical unsigned encoding, then the variant's
    /// semantic precondition. Returns exactly `spec_validate(self@, *tx)`.
    pub fn validate_tx(&self, tx: &Transaction) -> (r: Result<(), TxError>)
        requires
            self.wf(),
        ensures
            r == spec_validate(self@, *tx),
    {
        let encoding = tx.unsigned_encoding();
        if !verify_signature(tx.signer_pubkey(), &encoding, tx.signature()) {
            return Err(TxError::BadSignature);
        }
        match tx {
            Transaction::Register { payload, .. } => {
                if self.find_user(&payload.signer_pubkey).is_some() {
                    Err(TxError::UserAlreadyExists)
                } else {
                    Ok(())
                }
            },
            Transaction::SendMessage { payload, .. } => {
                if self.find_user(&payload.signer_pubkey).is_none() {
                    Err(TxError::UnknownUser)
                } else {
                    Ok(())
                }
            },
        }
    }
}

impl State {
    /// Validates `tx` against the current state and, when it is valid,
    /// commits it: Register inserts the signer into the user registry;
    /// SendMessage appends to the channel's log, creating the channel on its
    /// first message. On any failure the state is left unchanged; success is
    /// decided by re-validating against the state as it is now, never by a
    /// caller's earlier check.
    pub fn process_tx(&mut self, tx: Transaction) -> (r: Result<(), TxError>)
        requires
            old(self).wf(),
        ensures
            final(self).wf(),
            r == spec_validate(old(self)@, tx),
            final(self)@ == spec_step(old(self)@, tx),
            r is Err ==> final(self)@ == old(self)@,
    {
        let v = self.validate_tx(&tx);
        if let Err(e) = v {
            return Err(e);
        }
        match tx {
            Transaction::Register { payload, .. } => {
                // Defensive re-check of the semantic precondition; validation
                // just passed against this same state, so this cannot fire.
                if self.find_user(&payload.signer_pubkey).is_some() {
                    return Err(TxError::UserAlreadyExists);
                }
                proof {
                    lemma_users_map_of_contains(self.users@, payload.signer_pubkey@);
                    lemma_users_map_of_push(
                        self.users@,
                        (payload.signer_pubkey, payload.display_id),
                    );
                }
                self.users.push((payload.signer_pubkey, payload.display_id));
                Ok(())
            },
            Transaction::SendMessage { payload, .. } => {
                let user_id: String = match self.find_user(&payload.signer_pubkey) {
                    Some(id) => id.clone(),
                    // Validation just passed, so the signer is registered.
                    None => unreached(),
                };
                let msg = Message { user_id, contents: payload.contents };
                match self.find_channel(&payload.channel) {
                    Some(i) => {
                        let ghost pre = self.channels@;
                        let entry: &mut (String, Vec<Message>) = &mut self.channels[i];
                        entry.1.push(msg);
                        proof {
                            let e = self.channels@[i as int];
                            assert(e.0@ == pre[i as int].0@);
                            assert(e.1@ == pre[i as int].1@.push(msg));
                            assert(self.channels@ =~= pre.update(i as int, e));
                            lemma_channels_map_of_update(pre, i as int, e);
                            assert(msgs_view(e.1@) =~= msgs_view(pre[i as int].1@).push(msg@));
                            lemma_channels_map_of_entry(pre, i as int);
                        }
                        Ok(())
                    },
                    None => {
                        let mut log: Vec<Message> = Vec::new();
                        log.push(msg);
                        proof {
                            lemma_channels_map_of_contains(self.channels@, payload.channel@);
                        }
                        let ghost pre = self.channels@;
                        self.channels.push((payload.channel, log));
                        proof {
                            lemma_channels_map_of_push(pre, self.channels@.last());
                            assert(msgs_view(self.channels@.last().1@) =~= Seq::empty().push(
                                msg@,
                            ));
                        }
                        Ok(())
                    },
                }
            },
        }
    }
}

/// Appending a registry entry inserts its key into the registry map.
proof fn lemma_users_map_of_push(s: Seq<(PublicKey, String)>, p: (PublicKey, String))
    ensures
        users_map_of(s.push(p)) == users_map_of(s).insert(p.0@, p.1@),
{
    assert(s.push(p).drop_last() =~= s);
    assert(s.push(p).last() == p);
}

/// Appending a channel entry inserts its name into the channel map.
proof fn lemma_channels_map_of_push(s: Seq<(String, Vec<Message>)>, p: (String, Vec<Message>))
    ensures
        channels_map_of(s.push(p)) == channels_map_of(s).insert(p.0@, msgs_view(p.1@)),
{
    assert(s.push(p).drop_last() =~= s);
    assert(s.push(p).last() == p);
}

/// Replacing the log at one position, keeping its name, updates exactly that
/// name's log in the channel map.
proof fn lemma_channels_map_of_update(
    s: Seq<(String, Vec<Message>)>,
    i: int,
    p: (String, Vec<Message>),
)
    requires
        0 <= i < s.len(),
        forall|a: int, b: int| 0 <= a < b < s.len() ==> s[a].0@ != s[b].0@,
        p.0@ == s[i].0@,
    ensures
        channels_map_of(s.update(i, p)) == channels_map_of(s).insert(p.0@, msgs_view(p.1@)),
    decreases s.len(),
{
    let s2 = s.update(i, p);
    if i == s.len() - 1 {
        assert(s2.drop_last() =~= s.drop_last());
        assert(channels_map_of(s2) =~= channels_map_of(s).insert(p.0@, msgs_view(p.1@)));
    } else {
        lemma_channels_map_of_update(s.drop_last(), i, p);
        assert(s2.drop_last() =~= s.drop_last().update(i, p));
        assert(s2.last() == s.last());
        assert(s[i].0@ != s.last().0@);
        assert(channels_map_of(s2) =~= channels_map_of(s).insert(p.0@, msgs_view(p.1@)));
    }
}

/// An entry of the registry list is in the registry map: with unique keys,
/// under exactly its own identifier.
proof fn lemma_users_map_of_entry(s: Seq<(PublicKey, String)>, i: int)
    requires
        0 <= i < s.len(),
        forall|a: int, b: int| 0 <= a < b < s.len() ==> s[a].0@ != s[b].0@,
    ensures
        users_map_of(s).contains_key(s[i].0@),
        users_map_of(s)[s[i].0@] == s[i].1@,
    decreases s.len(),
{
    if i == s.len() - 1 {
    } else {
        lemma_users_map_of_entry(s.drop_last(), i);
        assert(s.drop_last()[i] == s[i]);
        assert(s[i].0@ != s.last().0@);
    }
}

/// The registry map holds a key exactly when some entry of the list has it.
proof fn lemma_users_map_of_contains(s: Seq<(PublicKey, String)>, k: Seq<u8>)
    ensures
        users_map_of(s).contains_key(k) <==> exists|i: int| 0 <= i < s.len() && s[i].0@ == k,
    decreases s.len(),
{
    if s.len() > 0 {
        lemma_users_map_of_contains(s.drop_last(), k);
        if s.last().0@ == k {
            assert(s[s.len() - 1].0@ == k);
        } else {
            assert forall|i: int| 0 <= i < s.len() && s[i].0@ == k implies users_map_of(
                s,
            ).contains_key(k) by {
                assert(s.drop_last()[i] == s[i]);
            }
            assert(forall|i: int|
                0 <= i < s.drop_last().len() && s.drop_last()[i].0@ == k ==> s[i].0@ == k);
        }
    }
}

/// An entry of the channel list is in the channel map: with unique names,
/// under exactly its own log.
proof fn lemma_channels_map_of_entry(s: Seq<(String, Vec<Message>)>, i: int)
    requires
        0 <= i < s.len(),
        forall|a: int, b: int| 0 <= a < b < s.len() ==> s[a].0@ != s[b].0@,
    ensures
        channels_map_of(s).contains_key(s[i].0@),
        channels_map_of(s)[s[i].0@] == msgs_view(s[i].1@),
    decreases s.len(),
{
    if i == s.len() - 1 {
    } else {
        lemma_channels_map_of_entry(s.drop_last(), i);
        assert(s.drop_last()[i] == s[i]);
        assert(s[i].0@ != s.last().0@);
    }
}

/// The channel map holds a name exactly when some entry of the list has it.
proof fn lemma_channels_map_of_contains(s: Seq<(String, Vec<Message>)>, k: Seq<char>)
    ensures
        channels_map_of(s).contains_key(k) <==> exists|i: int| 0 <= i < s.len() && s[i].0@ == k,
    decreases s.len(),
{
    if s.len() > 0 {
        lemma_channels_map_of_contains(s.drop_last(), k);
        if s.last().0@ == k {
            assert(s[s.len() - 1].0@ == k);
        } else {
            assert forall|i: int| 0 <= i < s.len() && s[i].0@ == k implies channels_map_of(
                s,
            ).contains_key(k) by {
                assert(s.drop_last()[i] == s[i]);
            }
            assert(forall|i: int|
                0 <= i < s.drop_last().len() && s.drop_last()[i].0@ == k ==> s[i].0@ == k);
        }
    }
}

} // verus!
