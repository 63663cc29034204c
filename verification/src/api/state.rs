//! What every request handler works on: the store and the two keys.

use crate::base64::base64url_bytes;
use crate::config::{ConfigKey, InvalidKey};
use crate::invitation::{InvitationKey, SECRET_KEY_BYTES};
use crate::opaque::{is_server_setup, OpaqueServer, SERVER_SETUP_BYTES};
use crate::storage::{
    changed_by, lemma_replay_one, lemma_replay_two, replay, Change, Content, KVStorage, Mutation,
};
use vstd::prelude::*;

verus! {

/// Application state
pub struct AppState {
    pub(crate) storage: KVStorage,
    pub(crate) signature: OpaqueServer,
    pub(crate) invitation_key: InvitationKey,
}

/// Whether `after` is `before` with the changes of `changes` made to the
/// store and recorded, in order, and nothing else touched.
pub open spec fn stepped(before: AppState, after: AppState, changes: Seq<Change>) -> bool {
    &&& after.wf()
    &&& after.setup() == before.setup()
    &&& after.key() == before.key()
    &&& after.content() == replay(before.content(), changes)
    &&& after.pending() == before.pending() + changes
    &&& after.durable() == before.durable()
}

/// A state is itself with no change made.
pub(crate) proof fn lemma_unchanged(state: AppState)
    requires
        state.wf(),
    ensures
        stepped(state, state, Seq::<Change>::empty()),
{
    assert(state.pending() + Seq::<Change>::empty() =~= state.pending());
}

/// One change made to the store of a state is one step of the state.
pub(crate) proof fn lemma_changed_once(before: AppState, after: AppState, change: Change)
    requires
        after.signature == before.signature,
        after.invitation_key == before.invitation_key,
        changed_by(before.storage, after.storage, change),
    ensures
        stepped(before, after, seq![change]),
{
    lemma_replay_one(before.content(), change);
    assert(before.pending() + seq![change] =~= before.pending().push(change));
}

/// Two changes made to the store of a state, one after the other, are two
/// steps of the state.
pub(crate) proof fn lemma_changed_twice(
    before: AppState,
    between: KVStorage,
    after: AppState,
    first: Change,
    second: Change,
)
    requires
        after.signature == before.signature,
        after.invitation_key == before.invitation_key,
        changed_by(before.storage, between, first),
        changed_by(between, after.storage, second),
    ensures
        stepped(before, after, seq![first, second]),
{
    lemma_replay_two(before.content(), first, second);
    assert(before.pending() + seq![first, second] =~= before.pending().push(first).push(second));
}

/// The keys that `key` holds in printed form, if both can be read: the
/// invitation key and the key material of the exchange.
pub open spec fn configured_keys(key: ConfigKey) -> Result<(Seq<u8>, Seq<u8>), InvalidKey> {
    let invitation = base64url_bytes(key.invitation@);
    let opaque = base64url_bytes(key.opaque@);
    if invitation is None || invitation.unwrap().len() != SECRET_KEY_BYTES {
        Err(InvalidKey::Invitation)
    } else if opaque is None || opaque.unwrap().len() != SERVER_SETUP_BYTES || !is_server_setup(
        opaque.unwrap(),
    ) {
        Err(InvalidKey::Opaque)
    } else {
        Ok((invitation.unwrap(), opaque.unwrap()))
    }
}

impl AppState {
    /// What the store holds.
    pub open(crate) spec fn content(&self) -> Content {
        self.storage@
    }

    /// The journal of the store.
    pub open(crate) spec fn pending(&self) -> Seq<Change> {
        self.storage.pending()
    }

    /// What the store held when the journal was last taken.
    pub open(crate) spec fn durable(&self) -> Content {
        self.storage.durable()
    }

    /// The key material of the exchange.
    pub open(crate) spec fn setup(&self) -> Seq<u8> {
        self.signature@
    }

    /// The invitation key.
    pub open(crate) spec fn key(&self) -> Seq<u8> {
        self.invitation_key@
    }

    /// The store is well formed.
    pub open(crate) spec fn wf(&self) -> bool {
        self.storage.wf()
    }

    /// Create a new application state.
    pub fn new(storage: KVStorage, signature: OpaqueServer, invitation_key: InvitationKey) -> (r:
        AppState)
        requires
            storage.wf(),
        ensures
            r.wf(),
            r.content() == storage@,
            r.pending() == storage.pending(),
            r.durable() == storage.durable(),
            r.setup() == signature@,
            r.key() == invitation_key@,
    {
        AppState { storage, signature, invitation_key }
    }

    /// Create the application state from a store and the configured keys.
    pub fn from_config(storage: KVStorage, key: &ConfigKey) -> (r: Result<AppState, InvalidKey>)
        requires
            storage.wf(),
        ensures
            match configured_keys(*key) {
                Ok((invitation, opaque)) => r matches Ok(state) && state.wf() && state.content()
                    == storage@ && state.pending() == storage.pending() && state.durable()
                    == storage.durable() && state.key() == invitation && state.setup() == opaque,
                Err(error) => r matches Err(e) && e == error,
            },
    {
        let invitation_key = match InvitationKey::parse(key.invitation.as_str()) {
            Ok(invitation_key) => invitation_key,
            Err(_) => { return Err(InvalidKey::Invitation); },
        };
        let signature = match OpaqueServer::new(key.opaque.as_str()) {
            Ok(signature) => signature,
            Err(_) => { return Err(InvalidKey::Opaque); },
        };
        Ok(AppState::new(storage, signature, invitation_key))
    }

    /// Returns a reference to the storage.
    pub fn storage(&self) -> (r: &KVStorage)
        requires
            self.wf(),
        ensures
            r.wf(),
            r@ == self.content(),
            r.pending() == self.pending(),
            r.durable() == self.durable(),
    {
        &self.storage
    }

    /// Returns a reference to the server signature.
    pub fn signature(&self) -> (r: &OpaqueServer)
        ensures
            r@ == self.setup(),
    {
        &self.signature
    }

    /// Returns a reference to the inviation key.
    pub fn invitation_key(&self) -> (r: &InvitationKey)
        ensures
            r@ == self.key(),
    {
        &self.invitation_key
    }

    /// Hands over the journal of the store, see
    /// [`KVStorage::take_journal`].
    pub fn take_journal(&mut self) -> (log: Vec<Mutation>)
        requires
            old(self).wf(),
        ensures
            final(self).wf(),
            final(self).setup() == old(self).setup(),
            final(self).key() == old(self).key(),
            final(self).content() == old(self).content(),
            final(self).pending() == Seq::<Change>::empty(),
            final(self).durable() == old(self).content(),
            Seq::new(log@.len(), |i: int| log@[i]@) == old(self).pending(),
            replay(old(self).durable(), old(self).pending()) == old(self).content(),
    {
        self.storage.take_journal()
    }
}

} // verus!
