//! The key-value store that holds every durable record.
//!
//! Keys are texts, values are byte strings, and a key is bound to at most
//! one value. The store lives in memory; every change is also written to a
//! journal, so that whoever keeps the store on disk can bring the disk up to
//! date by replaying what was taken from the journal.

use crate::text::same_text;
use vstd::prelude::*;
use vstd::slice::slice_to_vec;

verus! {

/// What the store holds: a finite map from keys to values.
pub type Content = Map<Seq<char>, Seq<u8>>;

/// One change as the journal records it: the key, and the value it is bound
/// to from now on, or `None` where the key is unbound.
pub type Change = (Seq<char>, Option<Seq<u8>>);

/// One entry of the journal.
pub struct Mutation {
    /// The key that changed.
    pub key: String,
    /// The value it is bound to from now on, or `None` where it is unbound.
    pub value: Option<Vec<u8>>,
}

impl View for Mutation {
    type V = Change;

    open spec fn view(&self) -> Change {
        change_of(self.key@, self.value)
    }
}

/// The change that binds `key` to `value`, or unbinds it where `value` is
/// `None`.
pub open spec fn change_of(key: Seq<char>, value: Option<Vec<u8>>) -> Change {
    (
        key,
        match value {
            Some(value) => Some(value@),
            None => None,
        },
    )
}

/// The content after one change.
pub open spec fn apply(content: Content, change: Change) -> Content {
    match change.1 {
        Some(value) => content.insert(change.0, value),
        None => content.remove(change.0),
    }
}

/// The content after the changes of `log`, in order.
pub open spec fn replay(content: Content, log: Seq<Change>) -> Content
    decreases log.len(),
{
    if log.len() == 0 {
        content
    } else {
        apply(replay(content, log.drop_last()), log.last())
    }
}

/// Replaying a log with one more change is replaying the log and then
/// making the change.
pub proof fn lemma_replay_push(content: Content, log: Seq<Change>, change: Change)
    ensures
        replay(content, log.push(change)) == apply(replay(content, log), change),
{
    assert(log.push(change).drop_last() =~= log);
}

/// Replaying one change is making it.
pub proof fn lemma_replay_one(content: Content, change: Change)
    ensures
        replay(content, seq![change]) == apply(content, change),
{
    lemma_replay_push(content, Seq::<Change>::empty(), change);
    assert(Seq::<Change>::empty().push(change) =~= seq![change]);
}

/// Replaying two changes is making the first and then the second.
pub proof fn lemma_replay_two(content: Content, first: Change, second: Change)
    ensures
        replay(content, seq![first, second]) == apply(apply(content, first), second),
{
    lemma_replay_one(content, first);
    lemma_replay_push(content, seq![first], second);
    assert(seq![first].push(second) =~= seq![first, second]);
}

/// Replaying two logs one after the other is replaying their concatenation.
pub proof fn lemma_replay_concat(content: Content, first: Seq<Change>, second: Seq<Change>)
    ensures
        replay(content, first + second) == replay(replay(content, first), second),
    decreases second.len(),
{
    if second.len() == 0 {
        assert(first + second =~= first);
    } else {
        lemma_replay_concat(content, first, second.drop_last());
        assert((first + second).drop_last() =~= first + second.drop_last());
    }
}

/// Whether `after` is `before` with one more change made and recorded.
pub open spec fn changed_by(before: KVStorage, after: KVStorage, change: Change) -> bool {
    &&& after.wf()
    &&& after@ == apply(before@, change)
    &&& after.pending() == before.pending().push(change)
    &&& after.durable() == before.durable()
}

/// A key and the value bound to it.
struct Entry {
    key: String,
    value: Vec<u8>,
}

/// A key value storage held in memory, with a journal of its changes.
pub struct KVStorage {
    entries: Vec<Entry>,
    journal: Vec<Mutation>,
    content: Ghost<Content>,
    durable: Ghost<Content>,
}

impl View for KVStorage {
    type V = Content;

    /// What the store holds now.
    closed spec fn view(&self) -> Content {
        self.content@
    }
}

impl KVStorage {
    /// The changes made since the journal was last taken, oldest first.
    pub closed spec fn pending(&self) -> Seq<Change> {
        Seq::new(self.journal@.len(), |i: int| self.journal@[i]@)
    }

    /// What the store held when the journal was last taken.
    pub closed spec fn durable(&self) -> Content {
        self.durable@
    }

    /// A store is well formed when no key occurs twice among its entries,
    /// its entries are what it holds, and replaying the journal over what was
    /// durable gives what it holds.
    pub closed spec fn wf(&self) -> bool {
        &&& forall|i: int, j: int|
            0 <= i < j < self.entries@.len() ==> self.entries@[i].key@ != self.entries@[j].key@
        &&& forall|i: int|
            0 <= i < self.entries@.len() ==> self.content@.contains_key(
                #[trigger] self.entries@[i].key@,
            ) && self.content@[self.entries@[i].key@] == self.entries@[i].value@
        &&& forall|key: Seq<char>| #[trigger]
            self.content@.contains_key(key) ==> exists|i: int|
                0 <= i < self.entries@.len() && self.entries@[i].key@ == key
        &&& self.content@.dom().finite()
        &&& replay(self.durable@, self.pending()) == self.content@
    }

    /// What a well-formed store promises to every caller.
    pub proof fn lemma_wf(&self)
        requires
            self.wf(),
        ensures
            self@.dom().finite(),
            replay(self.durable(), self.pending()) == self@,
    {
    }

    /// Create a new, empty key-value storage.
    pub fn new() -> (r: KVStorage)
        ensures
            r.wf(),
            r@ == Content::empty(),
            r.pending() == Seq::<Change>::empty(),
            r.durable() == Content::empty(),
    {
        let r = KVStorage {
            entries: Vec::new(),
            journal: Vec::new(),
            content: Ghost(Map::empty()),
            durable: Ghost(Map::empty()),
        };
        assert(r.pending() =~= Seq::<Change>::empty());
        r
    }

    /// Where the entry of `key` stands, if there is one.
    fn position(&self, key: &str) -> (r: Option<usize>)
        requires
            self.wf(),
        ensures
            r is Some <==> self@.contains_key(key@),
            r is Some ==> r.unwrap() < self.entries@.len() && self.entries@[r.unwrap() as int].key@
                == key@,
    {
        let mut at: usize = 0;
        while at < self.entries.len()
            invariant
                self.wf(),
                at <= self.entries@.len(),
                forall|j: int| 0 <= j < at ==> self.entries@[j].key@ != key@,
            decreases self.entries@.len() - at,
        {
            if same_text(self.entries[at].key.as_str(), key) {
                return Some(at);
            }
            at = at + 1;
        }
        None
    }

    /// Writes one change to the journal.
    fn record(&mut self, key: &str, value: Option<Vec<u8>>)
        requires
            replay(old(self).durable@, old(self).pending()) == old(self).content@,
        ensures
            final(self).entries == old(self).entries,
            final(self).content == old(self).content,
            final(self).durable == old(self).durable,
            final(self).pending() == old(self).pending().push(
                change_of(key@, value),
            ),
            replay(final(self).durable@, final(self).pending()) == apply(
                old(self).content@,
                change_of(key@, value),
            ),
    {
        let ghost change = change_of(key@, value);
        self.journal.push(Mutation { key: key.to_owned(), value });
        proof {
            assert(self.pending() =~= old(self).pending().push(change));
            lemma_replay_push(self.durable@, old(self).pending(), change);
        }
    }

    /// Store the given pair of key-value; a value already bound to the key
    /// is replaced.
    pub fn set(&mut self, key: &str, value: Vec<u8>)
        requires
            old(self).wf(),
        ensures
            final(self).wf(),
            final(self)@ == old(self)@.insert(key@, value@),
            final(self).pending() == old(self).pending().push((key@, Some(value@))),
            final(self).durable() == old(self).durable(),
    {
        let copy = slice_to_vec(value.as_slice());
        let ghost bound = value@;
        let ghost place: int;
        match self.position(key) {
            Some(at) => {
                self.entries.set(at, Entry { key: key.to_owned(), value });
                proof {
                    place = at as int;
                }
            },
            None => {
                self.entries.push(Entry { key: key.to_owned(), value });
                proof {
                    place = self.entries@.len() - 1;
                }
            },
        }
        self.record(key, Some(copy));
        self.content = Ghost(self.content@.insert(key@, bound));
        proof {
            assert(self.entries@[place].key@ == key@);
            assert forall|k: Seq<char>| #[trigger]
                self.content@.contains_key(k) implies exists|i: int|
                0 <= i < self.entries@.len() && self.entries@[i].key@ == k by {
                if k != key@ {
                    assert(old(self).content@.contains_key(k));
                    let i = choose|i: int|
                        0 <= i < old(self).entries@.len() && old(self).entries@[i].key@ == k;
                    assert(self.entries@[i].key@ == k);
                }
            }
        }
    }

    /// Retrieve a value from the storage.
    pub fn get(&self, key: &str) -> (r: Option<Vec<u8>>)
        requires
            self.wf(),
        ensures
            r is Some <==> self@.contains_key(key@),
            r is Some ==> r.unwrap()@ == self@[key@],
    {
        match self.position(key) {
            Some(at) => Some(slice_to_vec(self.entries[at].value.as_slice())),
            None => None,
        }
    }

    /// Whether a value is bound to the key.
    pub fn has(&self, key: &str) -> (r: bool)
        requires
            self.wf(),
        ensures
            r == self@.contains_key(key@),
    {
        self.position(key).is_some()
    }

    /// Remove the value bound to the key, if there is one; removing an
    /// unbound key changes nothing.
    pub fn delete(&mut self, key: &str)
        requires
            old(self).wf(),
        ensures
            final(self).wf(),
            final(self)@ == old(self)@.remove(key@),
            final(self).pending() == old(self).pending().push((key@, None)),
            final(self).durable() == old(self).durable(),
    {
        let _ = self.extract(key);
    }

    /// Retrieve the value bound to the key and remove it, as one step.
    pub fn extract(&mut self, key: &str) -> (r: Option<Vec<u8>>)
        requires
            old(self).wf(),
        ensures
            final(self).wf(),
            r is Some <==> old(self)@.contains_key(key@),
            r is Some ==> r.unwrap()@ == old(self)@[key@],
            final(self)@ == old(self)@.remove(key@),
            final(self).pending() == old(self).pending().push((key@, None)),
            final(self).durable() == old(self).durable(),
    {
        let found = match self.position(key) {
            Some(at) => {
                let entry = self.entries.remove(at);
                assert(entry.key@ == key@);
                Some(entry.value)
            },
            None => None,
        };
        self.record(key, None);
        self.content = Ghost(self.content@.remove(key@));
        proof {
            assert forall|k: Seq<char>| #[trigger]
                self.content@.contains_key(k) implies exists|i: int|
                0 <= i < self.entries@.len() && self.entries@[i].key@ == k by {
                assert(old(self).content@.contains_key(k));
                let i = choose|i: int|
                    0 <= i < old(self).entries@.len() && old(self).entries@[i].key@ == k;
                if found is Some {
                    let at = choose|at: int|
                        0 <= at < old(self).entries@.len() && old(self).entries@[at].key@ == key@;
                    if i < at {
                        assert(self.entries@[i].key@ == k);
                    } else {
                        assert(self.entries@[i - 1].key@ == k);
                    }
                } else {
                    assert(self.entries@[i].key@ == k);
                }
            }
        }
        found
    }

    /// The number of keys that are bound.
    pub fn len(&self) -> (r: usize)
        requires
            self.wf(),
        ensures
            r == self@.dom().len(),
    {
        proof {
            self.lemma_count();
        }
        self.entries.len()
    }

    /// A well-formed store has as many entries as keys.
    proof fn lemma_count(&self)
        requires
            self.wf(),
        ensures
            self.entries@.len() == self@.dom().len(),
    {
        lemma_keys_count(self.entries@, self.content@);
    }

    /// A copy of the store, journal included.
    fn duplicate(&self) -> (copy: KVStorage)
        requires
            self.wf(),
        ensures
            copy.wf(),
            copy@ == self@,
            copy.pending() == self.pending(),
            copy.durable() == self.durable(),
    {
        let mut entries: Vec<Entry> = Vec::new();
        let mut at: usize = 0;
        while at < self.entries.len()
            invariant
                at <= self.entries@.len(),
                entries@.len() == at,
                forall|j: int|
                    0 <= j < at ==> entries@[j].key@ == self.entries@[j].key@ && entries@[j].value@
                        == self.entries@[j].value@,
            decreases self.entries@.len() - at,
        {
            let entry = &self.entries[at];
            entries.push(
                Entry { key: entry.key.clone(), value: slice_to_vec(entry.value.as_slice()) },
            );
            at = at + 1;
        }
        let mut journal: Vec<Mutation> = Vec::new();
        let mut at: usize = 0;
        while at < self.journal.len()
            invariant
                at <= self.journal@.len(),
                journal@.len() == at,
                forall|j: int| 0 <= j < at ==> journal@[j]@ == self.journal@[j]@,
            decreases self.journal@.len() - at,
        {
            let mutation = &self.journal[at];
            let value = match &mutation.value {
                Some(value) => Some(slice_to_vec(value.as_slice())),
                None => None,
            };
            journal.push(Mutation { key: mutation.key.clone(), value });
            at = at + 1;
        }
        let copy = KVStorage { entries, journal, content: self.content, durable: self.durable };
        proof {
            assert(copy.pending() =~= self.pending());
            assert forall|key: Seq<char>| #[trigger]
                copy.content@.contains_key(key) implies exists|i: int|
                0 <= i < copy.entries@.len() && copy.entries@[i].key@ == key by {
                let i = choose|i: int|
                    0 <= i < self.entries@.len() && self.entries@[i].key@ == key;
                assert(copy.entries@[i].key@ == key);
            }
        }
        copy
    }

    /// Start a new transaction. Nothing that is done in the transaction
    /// touches the store until [`WriteTransaction::commit`], which makes every
    /// change at once; after [`WriteTransaction::rollback`] the store is as it
    /// was.
    pub fn transaction(&mut self) -> (tx: WriteTransaction<'_>)
        requires
            old(self).wf(),
        ensures
            tx.wf(),
            *tx.storage == *old(self),
            tx@ == old(self)@,
            tx.pending() == old(self).pending(),
            *final(tx.storage) == *final(self),
    {
        let staged = self.duplicate();
        WriteTransaction { storage: self, staged }
    }

    /// Hands over the journal: the changes made since it was last taken,
    /// oldest first. What the store holds now counts as durable from here
    /// on: it is what was durable before with these changes replayed.
    pub fn take_journal(&mut self) -> (log: Vec<Mutation>)
        requires
            old(self).wf(),
        ensures
            final(self).wf(),
            final(self)@ == old(self)@,
            final(self).pending() == Seq::<Change>::empty(),
            final(self).durable() == old(self)@,
            Seq::new(log@.len(), |i: int| log@[i]@) == old(self).pending(),
            replay(old(self).durable(), old(self).pending()) == old(self)@,
    {
        let mut log: Vec<Mutation> = Vec::new();
        core::mem::swap(&mut log, &mut self.journal);
        self.durable = Ghost(self.content@);
        proof {
            assert(self.pending() =~= Seq::<Change>::empty());
            assert(Seq::new(log@.len(), |i: int| log@[i]@) =~= old(self).pending());
            assert(self.entries == old(self).entries);
        }
        log
    }
}

/// A transaction under way: the store, untouched, and a copy of it with the
/// changes made since the transaction started.
pub struct WriteTransaction<'a> {
    /// The store as it was when the transaction started.
    pub storage: &'a mut KVStorage,
    /// The store as the transaction sees it.
    pub staged: KVStorage,
}

impl<'a> View for WriteTransaction<'a> {
    type V = Content;

    /// What the store holds as the transaction sees it.
    open spec fn view(&self) -> Content {
        self.staged@
    }
}

/// Whether `after` is the transaction `before` with one more change made
/// and recorded, and the store still untouched.
pub open spec fn staged_by(before: WriteTransaction, after: WriteTransaction, change: Change)
    -> bool {
    &&& after.wf()
    &&& changed_by(before.staged, after.staged, change)
    &&& *after.storage == *before.storage
}

impl<'a> WriteTransaction<'a> {
    /// The journal with the changes of the transaction.
    pub open spec fn pending(&self) -> Seq<Change> {
        self.staged.pending()
    }

    /// The store and its copy are well formed, and the same was durable
    /// for both.
    pub open spec fn wf(&self) -> bool {
        &&& self.storage.wf()
        &&& self.staged.wf()
        &&& self.storage.durable() == self.staged.durable()
    }

    /// Store the given pair of key-value.
    pub fn set(&mut self, key: &str, value: Vec<u8>)
        requires
            old(self).wf(),
        ensures
            staged_by(*old(self), *final(self), (key@, Some(value@))),
            final(self)@ == old(self)@.insert(key@, value@),
            *final(final(self).storage) == *final(old(self).storage),
    {
        self.staged.set(key, value);
    }

    /// Retrieve a value from the storage.
    pub fn get(&self, key: &str) -> (r: Option<Vec<u8>>)
        requires
            self.wf(),
        ensures
            r is Some <==> self@.contains_key(key@),
            r is Some ==> r.unwrap()@ == self@[key@],
    {
        self.staged.get(key)
    }

    /// Whether a value is bound to the key.
    pub fn has(&self, key: &str) -> (r: bool)
        requires
            self.wf(),
        ensures
            r == self@.contains_key(key@),
    {
        self.staged.has(key)
    }

    /// Remove the value bound to the key, if there is one.
    pub fn delete(&mut self, key: &str)
        requires
            old(self).wf(),
        ensures
            staged_by(*old(self), *final(self), (key@, None)),
            final(self)@ == old(self)@.remove(key@),
            *final(final(self).storage) == *final(old(self).storage),
    {
        self.staged.delete(key);
    }

    /// Retrieve the value bound to the key and remove it, as one step.
    pub fn extract(&mut self, key: &str) -> (r: Option<Vec<u8>>)
        requires
            old(self).wf(),
        ensures
            staged_by(*old(self), *final(self), (key@, None)),
            r is Some <==> old(self)@.contains_key(key@),
            r is Some ==> r.unwrap()@ == old(self)@[key@],
            final(self)@ == old(self)@.remove(key@),
            *final(final(self).storage) == *final(old(self).storage),
    {
        self.staged.extract(key)
    }

    /// Commit the transaction: the store takes every change at once.
    pub fn commit(self)
        requires
            self.wf(),
        ensures
            *final(self.storage) == self.staged,
    {
        *self.storage = self.staged;
    }

    /// Rollback the transaction: the store stays as it was when the
    /// transaction started, journal included.
    pub fn rollback(self)
        requires
            self.wf(),
        ensures
            *final(self.storage) == *old(self.storage),
    {
    }
}

/// A list of entries without a repeated key has as many entries as the map
/// of its bindings has keys.
proof fn lemma_keys_count(entries: Seq<Entry>, content: Content)
    requires
        forall|i: int, j: int| 0 <= i < j < entries.len() ==> entries[i].key@ != entries[j].key@,
        forall|i: int|
            0 <= i < entries.len() ==> content.contains_key(#[trigger] entries[i].key@),
        forall|key: Seq<char>| #[trigger]
            content.contains_key(key) ==> exists|i: int|
                0 <= i < entries.len() && entries[i].key@ == key,
        content.dom().finite(),
    ensures
        entries.len() == content.dom().len(),
    decreases entries.len(),
{
    if entries.len() == 0 {
        assert(content.dom() =~= Set::empty());
    } else {
        let last = entries.last();
        let rest = entries.drop_last();
        let smaller = content.remove(last.key@);
        assert forall|key: Seq<char>| #[trigger] smaller.contains_key(key) implies exists|i: int|
            0 <= i < rest.len() && rest[i].key@ == key by {
            let i = choose|i: int| 0 <= i < entries.len() && entries[i].key@ == key;
            assert(rest[i].key@ == key);
        }
        assert forall|i: int| 0 <= i < rest.len() implies smaller.contains_key(
            #[trigger] rest[i].key@,
        ) by {
            assert(entries[i].key@ == rest[i].key@);
        }
        lemma_keys_count(rest, smaller);
        assert(content.contains_key(entries[entries.len() - 1].key@));
    }
}

} // verus!
