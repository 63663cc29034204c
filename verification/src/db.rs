//! The database of invitations: the one invitation that lets the
//! administrator register, and the invitations that the administrator hands
//! out afterwards.

use crate::invitation::{
    signed_code, username_fits, verified_invitation, Invitation, InvitationCode, InvitationKey,
    InvitationView, IssueError, ADMIN_LIFETIME_SECONDS, DEFAULT_LIFETIME_SECONDS,
};
use crate::storage::{Change, Content, KVStorage};
use crate::time::{timestamp_in_range, DateTime, Duration, NANOS_PER_SECOND};
use crate::user::{password_key, UserTable};
use vstd::prelude::*;

verus! {

/// Key of the flag that says that the administrator's invitation has been
/// issued.
pub const FIRST_SIGNUP_INVITATION: &'static str = "option:first-signup-invitation";

/// What an attempt to issue the administrator's invitation comes to.
pub enum Bootstrap {
    /// The invitation was issued, and the flag is set.
    Issued,
    /// There was nothing to do: the invitation had been issued before, or the
    /// administrator has registered.
    NothingToDo,
    /// No invitation could be issued, and nothing changed.
    Failed(IssueError),
}

/// Whether the administrator's invitation is still due: it has not been
/// issued, and the administrator has not registered.
pub open spec fn bootstrap_due(content: Content, admin: Seq<char>) -> bool {
    !content.contains_key(FIRST_SIGNUP_INVITATION@) && !content.contains_key(password_key(admin))
}

/// Why no invitation that lasts `lifetime_seconds` from `now` can be issued
/// for `username`, if none can.
pub open spec fn issue_error(username: Seq<char>, lifetime_seconds: int, now: int) -> Option<
    IssueError,
> {
    if !timestamp_in_range(now + lifetime_seconds * NANOS_PER_SECOND) {
        Some(IssueError::ExpiryOutOfRange)
    } else if !username_fits(username) {
        Some(IssueError::UsernameTooLong)
    } else {
        None
    }
}

/// What an attempt to issue the administrator's invitation comes to, in the
/// store `content` at the time `now`.
pub open spec fn bootstrap_outcome(content: Content, admin: Seq<char>, now: int) -> Bootstrap {
    if !bootstrap_due(content, admin) {
        Bootstrap::NothingToDo
    } else {
        match issue_error(admin, ADMIN_LIFETIME_SECONDS as int, now) {
            Some(error) => Bootstrap::Failed(error),
            None => Bootstrap::Issued,
        }
    }
}

/// What the store holds after an attempt to issue the administrator's
/// invitation: the flag more where the invitation was issued, and what it
/// held before otherwise.
pub open spec fn bootstrap_content(content: Content, admin: Seq<char>, now: int) -> Content {
    if bootstrap_outcome(content, admin, now) is Issued {
        content.insert(FIRST_SIGNUP_INVITATION@, seq![1u8])
    } else {
        content
    }
}

/// The journal after an attempt to issue the administrator's invitation.
pub open spec fn bootstrap_pending(
    pending: Seq<Change>,
    content: Content,
    admin: Seq<char>,
    now: int,
) -> Seq<Change> {
    if bootstrap_outcome(content, admin, now) is Issued {
        pending.push((FIRST_SIGNUP_INVITATION@, Some(seq![1u8])))
    } else {
        pending
    }
}

/// The number of invitations issued by one attempt at each time of
/// `times`, one after the other, starting from the store `content`.
pub open spec fn bootstrap_issued(content: Content, admin: Seq<char>, times: Seq<int>) -> nat
    decreases times.len(),
{
    if times.len() == 0 {
        0
    } else {
        let first: nat = if bootstrap_outcome(content, admin, times[0]) is Issued {
            1
        } else {
            0
        };
        first + bootstrap_issued(
            bootstrap_content(content, admin, times[0]),
            admin,
            times.drop_first(),
        )
    }
}

/// The flag and the password files are bound to different keys.
pub proof fn lemma_flag_is_no_password_key(username: Seq<char>)
    ensures
        FIRST_SIGNUP_INVITATION@ != password_key(username),
{
    reveal_strlit("option:first-signup-invitation");
    reveal_strlit("password");
    assert(FIRST_SIGNUP_INVITATION@[0] == 'o');
    assert(password_key(username)[0] == 'p');
}

/// Once the administrator's invitation is no longer due, no attempt issues
/// one.
pub proof fn lemma_bootstrap_settled(content: Content, admin: Seq<char>, times: Seq<int>)
    requires
        !bootstrap_due(content, admin),
    ensures
        bootstrap_issued(content, admin, times) == 0,
    decreases times.len(),
{
    if times.len() > 0 {
        lemma_bootstrap_settled(content, admin, times.drop_first());
    }
}

/// However many attempts are made on a store in which the administrator's
/// invitation is due, at times at which one can be issued, exactly one of
/// them issues an invitation.
pub proof fn lemma_bootstrap_once(content: Content, admin: Seq<char>, times: Seq<int>)
    requires
        times.len() >= 1,
        bootstrap_due(content, admin),
        forall|i: int|
            0 <= i < times.len() ==> issue_error(admin, ADMIN_LIFETIME_SECONDS as int, times[i])
                is None,
    ensures
        bootstrap_issued(content, admin, times) == 1,
{
    lemma_bootstrap_settled(bootstrap_content(content, admin, times[0]), admin, times.drop_first());
}

/// Whether `r` is what an attempt to issue the administrator's invitation
/// returns in the store `content` at the time `now`: the code of an invitation
/// for the administrator that is good for ten minutes, nothing, or the reason
/// why none could be issued.
pub open spec fn is_bootstrap(
    r: Result<Option<InvitationCode>, IssueError>,
    key: Seq<u8>,
    content: Content,
    admin: Seq<char>,
    now: int,
) -> bool {
    match bootstrap_outcome(content, admin, now) {
        Bootstrap::Issued => r matches Ok(Some(code)) && code@ == signed_code(
            key,
            InvitationView {
                username: admin,
                expiration: now + ADMIN_LIFETIME_SECONDS * NANOS_PER_SECOND,
            },
        ) && verified_invitation(key, code@, now) == Some(
            InvitationView {
                username: admin,
                expiration: now + ADMIN_LIFETIME_SECONDS * NANOS_PER_SECOND,
            },
        ),
        Bootstrap::NothingToDo => r matches Ok(None),
        Bootstrap::Failed(error) => r == Err::<Option<InvitationCode>, IssueError>(error),
    }
}

/// Issues the first signup invitation, the one that lets the administrator
/// register.
///
/// The invitation is issued once: the attempt that issues it sets a flag in
/// the same transaction, and every later attempt finds the flag and does
/// nothing. Nothing is issued either once the administrator has registered.
pub fn first_signup_invitation(
    storage: &mut KVStorage,
    key: &InvitationKey,
    username: &str,
    now: DateTime,
) -> (r: Result<Option<InvitationCode>, IssueError>)
    requires
        old(storage).wf(),
    ensures
        final(storage).wf(),
        final(storage)@ == bootstrap_content(old(storage)@, username@, now@),
        final(storage).pending() == bootstrap_pending(
            old(storage).pending(),
            old(storage)@,
            username@,
            now@,
        ),
        final(storage).durable() == old(storage).durable(),
        is_bootstrap(r, key@, old(storage)@, username@, now@),
{
    let mut tx = storage.transaction();
    if tx.has(FIRST_SIGNUP_INVITATION) || tx.user_is_registered(username) {
        tx.rollback();
        return Ok(None);
    }
    let issued = key.issue(username, Duration::seconds(ADMIN_LIFETIME_SECONDS), now);
    match issued {
        Ok(code) => {
            let mut flag: Vec<u8> = Vec::new();
            flag.push(1u8);
            assert(flag@ =~= seq![1u8]);
            tx.set(FIRST_SIGNUP_INVITATION, flag);
            tx.commit();
            Ok(Some(code))
        },
        Err(error) => {
            tx.rollback();
            Err(error)
        },
    }
}

/// The store, as the keeper of the invitations sees it.
pub struct Database {
    storage: KVStorage,
}

impl View for Database {
    type V = Content;

    /// What the store holds.
    closed spec fn view(&self) -> Content {
        self.storage@
    }
}

impl Database {
    /// The journal of the store.
    pub closed spec fn pending(&self) -> Seq<Change> {
        self.storage.pending()
    }

    /// What the store held when the journal was last taken.
    pub closed spec fn durable(&self) -> Content {
        self.storage.durable()
    }

    /// The store is well formed.
    pub closed spec fn wf(&self) -> bool {
        self.storage.wf()
    }

    /// Create a new instance of the database over the given store.
    pub fn new(storage: KVStorage) -> (r: Database)
        requires
            storage.wf(),
        ensures
            r.wf(),
            r@ == storage@,
            r.pending() == storage.pending(),
            r.durable() == storage.durable(),
    {
        Database { storage }
    }

    /// Hands the store back.
    pub fn into_storage(self) -> (storage: KVStorage)
        requires
            self.wf(),
        ensures
            storage.wf(),
            storage@ == self@,
            storage.pending() == self.pending(),
            storage.durable() == self.durable(),
    {
        self.storage
    }

    /// Create the first signup invitation used to register the administrator:
    /// see [`first_signup_invitation`].
    pub fn create_first_signup_invitation(
        &mut self,
        key: &InvitationKey,
        username: &str,
        now: DateTime,
    ) -> (r: Result<Option<InvitationCode>, IssueError>)
        requires
            old(self).wf(),
        ensures
            final(self).wf(),
            final(self)@ == bootstrap_content(old(self)@, username@, now@),
            final(self).pending() == bootstrap_pending(
                old(self).pending(),
                old(self)@,
                username@,
                now@,
            ),
            final(self).durable() == old(self).durable(),
            is_bootstrap(r, key@, old(self)@, username@, now@),
    {
        first_signup_invitation(&mut self.storage, key, username, now)
    }

    /// Get the invitation from its code: the invitation that the code grants
    /// at the time `now`, if it grants one.
    pub fn get_signup_invitation(
        &self,
        key: &InvitationKey,
        code: &InvitationCode,
        now: DateTime,
    ) -> (r: Option<Invitation>)
        ensures
            r is Some <==> verified_invitation(key@, code@, now@) is Some,
            r is Some ==> r.unwrap()@ == verified_invitation(key@, code@, now@).unwrap(),
    {
        match key.verify(code, now) {
            Ok(invitation) => Some(invitation),
            Err(_) => None,
        }
    }

    /// Create a new signup invitation, good for one day from `now`.
    pub fn create_signup_invitation(
        &self,
        key: &InvitationKey,
        username: &str,
        now: DateTime,
    ) -> (r: Result<InvitationCode, IssueError>)
        ensures
            r is Ok <==> issue_error(username@, DEFAULT_LIFETIME_SECONDS as int, now@) is None,
            r is Err ==> Some(r.unwrap_err()) == issue_error(
                username@,
                DEFAULT_LIFETIME_SECONDS as int,
                now@,
            ),
            r is Ok ==> r.unwrap()@ == signed_code(
                key@,
                InvitationView {
                    username: username@,
                    expiration: now@ + DEFAULT_LIFETIME_SECONDS * NANOS_PER_SECOND,
                },
            ),
            r is Ok ==> forall|at: int|
                #![trigger verified_invitation(key@, r.unwrap()@, at)]
                verified_invitation(key@, r.unwrap()@, at) == (if at < now@
                    + DEFAULT_LIFETIME_SECONDS * NANOS_PER_SECOND {
                    Some(
                        InvitationView {
                            username: username@,
                            expiration: now@ + DEFAULT_LIFETIME_SECONDS * NANOS_PER_SECOND,
                        },
                    )
                } else {
                    None
                }),
    {
        key.issue(username, Duration::seconds(DEFAULT_LIFETIME_SECONDS), now)
    }
}

} // verus!
