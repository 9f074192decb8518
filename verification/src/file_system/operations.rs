use crate::http_server::server::{Key, KeyValue, Status};
use crate::text::concat3;
use std::sync::{Arc, PoisonError, RwLock, RwLockReadGuard, RwLockWriteGuard, TryLockError};
use vstd::prelude::*;

verus! {

/// How many locks guard the files of the store; each key is guarded by one of them.
pub const NUMBER_OF_LOCKS: usize = 10;

/// `std::sync::RwLock`, carried as an opaque value: nothing inside it is modelled.
#[verifier::external_type_specification]
#[verifier::external_body]
#[verifier::reject_recursive_types(T)]
pub struct ExRwLock<T: ?Sized>(std::sync::RwLock<T>);

/// `std::sync::RwLockReadGuard`, carried as an opaque value.
#[verifier::external_type_specification]
#[verifier::external_body]
#[verifier::reject_recursive_types(T)]
pub struct ExRwLockReadGuard<'a, T: ?Sized>(std::sync::RwLockReadGuard<'a, T>);

/// `std::sync::RwLockWriteGuard`, carried as an opaque value.
#[verifier::external_type_specification]
#[verifier::external_body]
#[verifier::reject_recursive_types(T)]
pub struct ExRwLockWriteGuard<'a, T: ?Sized + 'a>(std::sync::RwLockWriteGuard<'a, T>);

/// `std::sync::PoisonError`, carried as an opaque value.
#[verifier::external_type_specification]
#[verifier::external_body]
#[verifier::reject_recursive_types(T)]
pub struct ExPoisonError<T>(std::sync::PoisonError<T>);

/// Calls `std::sync::RwLock::new`; nothing is claimed of the lock it makes.
#[verifier::external_body]
fn rwlock_new(value: i32) -> RwLock<i32> {
    RwLock::new(value)
}

/// Calls `std::sync::RwLock::try_read`, which does not block: `None` when the lock
/// cannot be had for reading now (`TryLockError::WouldBlock`), otherwise the
/// guard or the poisoning error. Which of these comes back depends on what other
/// threads did with the lock, so nothing is claimed of the result.
#[verifier::external_body]
fn rwlock_try_read(lock: &RwLock<i32>) -> Option<
    Result<RwLockReadGuard<'_, i32>, PoisonError<RwLockReadGuard<'_, i32>>>,
> {
    match lock.try_read() {
        Ok(guard) => Some(Ok(guard)),
        Err(TryLockError::Poisoned(e)) => Some(Err(e)),
        Err(TryLockError::WouldBlock) => None,
    }
}

/// Calls `std::sync::RwLock::try_write`, which does not block: `None` when the
/// lock cannot be had exclusively now (`TryLockError::WouldBlock`), otherwise the
/// guard or the poisoning error. Which of these comes back depends on what other
/// threads did with the lock, so nothing is claimed of the result.
#[verifier::external_body]
fn rwlock_try_write(lock: &RwLock<i32>) -> Option<
    Result<RwLockWriteGuard<'_, i32>, PoisonError<RwLockWriteGuard<'_, i32>>>,
> {
    match lock.try_write() {
        Ok(guard) => Some(Ok(guard)),
        Err(TryLockError::Poisoned(e)) => Some(Err(e)),
        Err(TryLockError::WouldBlock) => None,
    }
}

/// The lock that guards a key: the key's length in bytes, modulo the number of locks.
pub open spec fn lock_bucket(key: &str) -> int {
    (key.len() % NUMBER_OF_LOCKS) as int
}

/// Where the file of `key` lives in the store at `store`: `store/key`.
pub open spec fn key_file_path(store: Seq<char>, key: Seq<char>) -> Seq<char> {
    store + "/"@ + key
}

/// The file pattern that matches every key that starts with `prefix`: `store/prefix*`.
pub open spec fn prefix_glob(store: Seq<char>, prefix: Seq<char>) -> Seq<char> {
    store + "/"@ + prefix + "*"@
}

/// The index of the lock that guards `key`.
pub fn lock_index(key: &str) -> (i: usize)
    ensures
        i == lock_bucket(key),
        i < NUMBER_OF_LOCKS,
{
    key.len() % NUMBER_OF_LOCKS
}

/// Keys of the same length in bytes are guarded by the same lock, whether they
/// are read or written: the lock of a key depends on its length alone.
pub proof fn keys_of_equal_length_share_a_lock(k1: &str, k2: &str)
    requires
        k1.len() == k2.len(),
    ensures
        lock_bucket(k1) == lock_bucket(k2),
        0 <= lock_bucket(k1) < NUMBER_OF_LOCKS,
{
}

/// The files of a store, and the locks that serialise access to them.
pub struct FileGateway {
    store_location: String,
    locks: Arc<Vec<RwLock<i32>>>,
}

impl FileGateway {
    #[verifier::type_invariant]
    spec fn has_all_locks(self) -> bool {
        self.locks.len() == NUMBER_OF_LOCKS
    }

    /// The directory in which the store keeps its files.
    pub closed spec fn store(self) -> Seq<char> {
        self.store_location@
    }

    /// How many locks the gateway holds.
    pub closed spec fn lock_count(self) -> nat {
        self.locks@.len()
    }

    /// The lock numbered `i`.
    pub closed spec fn lock_at(self, i: int) -> RwLock<i32> {
        self.locks[i]
    }

    /// The lock that guards `key`, for readers and writers alike.
    pub fn lock_for_key(&self, key: &str) -> (lock: &RwLock<i32>)
        ensures
            *lock == self.lock_at(lock_bucket(key)),
    {
        proof {
            use_type_invariant(self);
        }
        let index = lock_index(key);
        &self.locks[index]
    }

    /// A gateway to the store in the directory `store_location`, with
    /// `NUMBER_OF_LOCKS` locks, none of them held.
    pub fn new(store_location: String) -> (gateway: Self)
        ensures
            gateway.store() == store_location@,
            gateway.lock_count() == NUMBER_OF_LOCKS,
    {
        let mut rwlocks: Vec<RwLock<i32>> = Vec::new();
        let mut i: usize = 0;
        while i < NUMBER_OF_LOCKS
            invariant
                i <= NUMBER_OF_LOCKS,
                rwlocks.len() == i,
            decreases NUMBER_OF_LOCKS - i,
        {
            rwlocks.push(rwlock_new(0));
            i = i + 1;
        }
        let locks = Arc::new(rwlocks);
        Self { store_location, locks }
    }

    /// The directory in which the store keeps its files.
    pub fn store_location(&self) -> (s: &String)
        ensures
            s@ == self.store(),
    {
        &self.store_location
    }

    /// The path of the file that holds `key`.
    pub fn key_path(&self, key: &str) -> (path: String)
        ensures
            path@ == key_file_path(self.store(), key@),
    {
        concat3(self.store_location.as_str(), "/", key)
    }

    /// The file pattern that matches the files of all keys that start with `prefix`.
    pub fn prefix_pattern(&self, prefix: &str) -> (pattern: String)
        ensures
            pattern@ == prefix_glob(self.store(), prefix@),
    {
        let mut pattern = concat3(self.store_location.as_str(), "/", prefix);
        pattern.append("*");
        pattern
    }

    /// Tries, without blocking, to take for reading the lock that `lock_for_key`
    /// gives for `key`: `None` while the lock is held for writing (by any thread,
    /// this one too), otherwise the guard or the poisoning error. No clause states
    /// which of these comes back (that depends on other threads), nor which lock a
    /// guard belongs to (a guard is opaque).
    pub fn read_lock_key(&self, key: &str) -> Option<
        Result<RwLockReadGuard<'_, i32>, PoisonError<RwLockReadGuard<'_, i32>>>,
    > {
        rwlock_try_read(self.lock_for_key(key))
    }

    /// Tries, without blocking, to take exclusively the lock that `lock_for_key`
    /// gives for `key`, the one `read_lock_key` tries: `None` while the lock is
    /// held (by any thread, this one too), otherwise the guard or the poisoning
    /// error. No clause states which of these comes back (that depends on other
    /// threads), nor which lock a guard belongs to (a guard is opaque).
    pub fn write_lock_key(&self, key: &str) -> Option<
        Result<RwLockWriteGuard<'_, i32>, PoisonError<RwLockWriteGuard<'_, i32>>>,
    > {
        rwlock_try_write(self.lock_for_key(key))
    }
}

/// What became of an attempt to write a key's file.
pub enum WriteOutcome {
    /// The key's lock was poisoned, so nothing was tried.
    LockPoisoned,
    /// The file could not be opened; the text describes the error.
    OpenFailed(String),
    /// The file was opened but writing it failed; the text describes the error.
    WriteFailed(String),
    /// The value was written.
    Written,
}

/// What became of an attempt to read a key's file.
pub enum ReadOutcome {
    /// The key's lock was poisoned, so nothing was tried.
    LockPoisoned,
    /// The store holds no file for the key.
    Missing,
    /// The file exists but could not be read.
    Unreadable,
    /// The file holds this value.
    Contents(String),
}

/// What became of an attempt to delete a key's file.
pub enum DeleteOutcome {
    /// The key's lock was poisoned, so nothing was tried.
    LockPoisoned,
    /// The store held no file for the key.
    Missing,
    /// The file was removed.
    Removed,
    /// The file exists but could not be removed.
    Failed,
}

pub open spec fn write_error_text(outcome: WriteOutcome) -> Seq<char> {
    match outcome {
        WriteOutcome::LockPoisoned => "Error"@,
        WriteOutcome::OpenFailed(e) => "Failed to create key file open options with error "@ + e@,
        WriteOutcome::WriteFailed(e) => "Failed to create key file with error "@ + e@,
        WriteOutcome::Written => Seq::empty(),
    }
}

/// The answer to a write of a key's file: success once the value is written,
/// otherwise the error text that says which step failed.
pub fn write_file_result(outcome: WriteOutcome) -> (r: Result<(), String>)
    ensures
        r is Ok <==> outcome is Written,
        r matches Err(e) ==> e@ == write_error_text(outcome),
{
    match outcome {
        WriteOutcome::LockPoisoned => Err(String::from_str("Error")),
        WriteOutcome::OpenFailed(e) => {
            let mut msg = String::from_str("Failed to create key file open options with error ");
            msg.append(e.as_str());
            Err(msg)
        },
        WriteOutcome::WriteFailed(e) => {
            let mut msg = String::from_str("Failed to create key file with error ");
            msg.append(e.as_str());
            Err(msg)
        },
        WriteOutcome::Written => Ok(()),
    }
}

/// The answer to a read of `key`: the key and its value when the file was read;
/// `NotFound` when there is no file or it cannot be read; `InternalServerError`
/// when the key's lock was poisoned.
pub fn read_file_result(key: String, outcome: ReadOutcome) -> (r: Result<KeyValue, Status>)
    ensures
        match outcome {
            ReadOutcome::LockPoisoned => r == Err::<KeyValue, Status>(Status::InternalServerError),
            ReadOutcome::Missing => r == Err::<KeyValue, Status>(Status::NotFound),
            ReadOutcome::Unreadable => r == Err::<KeyValue, Status>(Status::NotFound),
            ReadOutcome::Contents(v) => r matches Ok(kv) && kv.key@ == key@ && kv.value@ == v@,
        },
{
    match outcome {
        ReadOutcome::LockPoisoned => Err(Status::InternalServerError),
        ReadOutcome::Missing => Err(Status::NotFound),
        ReadOutcome::Unreadable => Err(Status::NotFound),
        ReadOutcome::Contents(value) => Ok(KeyValue::new(key, value)),
    }
}

/// The text of a deletion's answer: the key on success, or the status.
pub open spec fn answer_text(r: Result<String, Status>) -> Result<Seq<char>, Status> {
    match r {
        Ok(k) => Ok(k@),
        Err(s) => Err(s),
    }
}

/// The answer to a deletion of `key` after `outcome`.
pub open spec fn delete_answer(key: Seq<char>, outcome: DeleteOutcome) -> Result<Seq<char>, Status> {
    match outcome {
        DeleteOutcome::LockPoisoned => Err(Status::InternalServerError),
        DeleteOutcome::Missing => Ok(key),
        DeleteOutcome::Removed => Ok(key),
        DeleteOutcome::Failed => Err(Status::NotModified),
    }
}

/// The file of the key is gone after the deletion: removed, or never there.
pub open spec fn file_gone(outcome: DeleteOutcome) -> bool {
    outcome is Missing || outcome is Removed
}

/// The answers to the deletions of `keys` after `outcomes`, in order.
pub open spec fn delete_answers(keys: Seq<Seq<char>>, outcomes: Seq<DeleteOutcome>) -> Seq<
    Result<Seq<char>, Status>,
> {
    Seq::new(keys.len(), |i: int| delete_answer(keys[i], outcomes[i]))
}

/// Deleting keys is answered the same whether or not their files were there: when
/// every file is gone afterwards, each key is answered as deleted. So a request
/// repeated on a store from which its keys were removed gets the same answer.
pub proof fn delete_answers_ignore_presence(
    keys: Seq<Seq<char>>,
    first: Seq<DeleteOutcome>,
    second: Seq<DeleteOutcome>,
)
    requires
        keys.len() == first.len(),
        keys.len() == second.len(),
        forall|i: int| 0 <= i < keys.len() ==> file_gone(#[trigger] first[i]),
        forall|i: int| 0 <= i < keys.len() ==> file_gone(#[trigger] second[i]),
    ensures
        delete_answers(keys, first) == delete_answers(keys, second),
        forall|i: int|
            0 <= i < keys.len() ==> #[trigger] delete_answers(keys, first)[i] == Ok::<
                Seq<char>,
                Status,
            >(keys[i]),
{
    assert forall|i: int| 0 <= i < keys.len() implies #[trigger] delete_answers(keys, first)[i]
        == Ok::<Seq<char>, Status>(keys[i]) && delete_answers(keys, second)[i] == Ok::<
        Seq<char>,
        Status,
    >(keys[i]) by {
        assert(file_gone(first[i]));
        assert(file_gone(second[i]));
    }
    assert(delete_answers(keys, first) =~= delete_answers(keys, second));
}

/// The answer to a deletion of `key`: the key itself when the file was removed or
/// was not there at all (a missing key counts as deleted); `NotModified` when the
/// file could not be removed; `InternalServerError` when the key's lock was poisoned.
pub fn delete_file_result(key: String, outcome: DeleteOutcome) -> (r: Result<String, Status>)
    ensures
        answer_text(r) == delete_answer(key@, outcome),
        match outcome {
            DeleteOutcome::LockPoisoned => r == Err::<String, Status>(Status::InternalServerError),
            DeleteOutcome::Missing => r matches Ok(k) && k@ == key@,
            DeleteOutcome::Removed => r matches Ok(k) && k@ == key@,
            DeleteOutcome::Failed => r == Err::<String, Status>(Status::NotModified),
        },
{
    match outcome {
        DeleteOutcome::LockPoisoned => Err(Status::InternalServerError),
        DeleteOutcome::Missing => Ok(key),
        DeleteOutcome::Removed => Ok(key),
        DeleteOutcome::Failed => Err(Status::NotModified),
    }
}

/// The names of the files that a directory listing found, in the order found;
/// entries that could not be read are left out.
pub open spec fn listed_names(entries: Seq<Option<String>>) -> Seq<Seq<char>>
    decreases entries.len(),
{
    if entries.len() == 0 {
        Seq::empty()
    } else {
        let rest = listed_names(entries.drop_last());
        match entries.last() {
            Some(name) => rest.push(name@),
            None => rest,
        }
    }
}

pub open spec fn key_texts(keys: Seq<Key>) -> Seq<Seq<char>> {
    keys.map_values(|k: Key| k.key@)
}

/// The keys that a listing of the store found: each readable entry's file name
/// becomes a key, in the order of the listing; unreadable entries are skipped.
pub fn keys_from_listing(entries: Vec<Option<String>>) -> (keys: Vec<Key>)
    ensures
        key_texts(keys@) == listed_names(entries@),
{
    let mut keys: Vec<Key> = Vec::new();
    let n = entries.len();
    let mut i: usize = 0;
    while i < n
        invariant
            n == entries.len(),
            i <= n,
            key_texts(keys@) == listed_names(entries@.take(i as int)),
        decreases n - i,
    {
        assert(entries@.take(i + 1).drop_last() =~= entries@.take(i as int));
        match &entries[i] {
            Some(name) => {
                let ghost before = keys@;
                keys.push(Key::new(name.clone()));
                assert(key_texts(keys@) =~= key_texts(before).push(name@));
            },
            None => {},
        }
        i = i + 1;
    }
    assert(entries@.take(n as int) =~= entries@);
    keys
}

} // verus!
