use vstd::prelude::*;
use vstd::rwlock::{RwLock, RwLockPredicate};

use std::sync::Arc;

use crate::table::{value_or_key, FlatTable};

verus! {

/// The lock's invariant: whatever it holds is a well-formed table.
pub struct TableWf {}

impl RwLockPredicate<FlatTable> for TableWf {
    open spec fn inv(self, v: FlatTable) -> bool {
        v.wf()
    }
}

/// A locale's table, shared between its entry and every live view of it.
/// Readers share the lock; a reload takes it exclusively and swaps the whole
/// table, so no reader ever sees a half-built one.
pub type SharedTable = Arc<RwLock<FlatTable, TableWf>>;

/// Puts a table behind a new lock.
pub fn share(table: FlatTable) -> (r: SharedTable)
    requires
        table.wf(),
{
    Arc::new(RwLock::new(table, Ghost(TableWf {})))
}

/// `r` is what looking `key` up gives on some well-formed table. This is all
/// that is promised of a read through the lock: its contents are not
/// tracked, so the value read is not tied to any particular write.
pub open spec fn read_gives(r: Option<String>, key: Seq<char>) -> bool {
    exists|t: FlatTable|
        #![trigger t@.contains_key(key)]
        t.wf() && match r {
            Some(v) => t@.contains_key(key) && t@[key] == v@,
            None => !t@.contains_key(key),
        }
}

/// Looks `key` up in the table as it stands now.
pub fn shared_get(shared: &SharedTable, key: &str) -> (r: Option<String>)
    ensures
        read_gives(r, key@),
{
    let handle = shared.acquire_read();
    let table = handle.borrow();
    let r = match table.get(key) {
        Some(v) => Some(v.clone()),
        None => None,
    };
    proof {
        assert(table@.contains_key(key@) == (r is Some));
    }
    handle.release_read();
    r
}

/// A copy of the table as it stands now.
pub fn shared_snapshot(shared: &SharedTable) -> (r: FlatTable)
    ensures
        r.wf(),
{
    let handle = shared.acquire_read();
    let r = handle.borrow().copy();
    handle.release_read();
    r
}

/// `r` lists, each once, the keys of some well-formed table; as with
/// `read_gives`, nothing ties them to a particular write.
pub open spec fn keys_read(r: Seq<String>) -> bool {
    &&& forall|i: int, j: int| 0 <= i < j < r.len() ==> r[i]@ != r[j]@
    &&& exists|t: FlatTable|
        t.wf() && forall|k: Seq<char>| #[trigger] t@.contains_key(k) <==> exists|i: int|
            0 <= i < r.len() && #[trigger] r[i]@ == k
}

/// `r` is what `get_or_default` of `key` gives on some well-formed table.
/// As with `read_gives`, nothing ties it to a particular write.
pub open spec fn read_default_gives(r: Seq<char>, key: Seq<char>) -> bool {
    exists|t: FlatTable| #![trigger value_or_key(t@, key)] t.wf() && r == value_or_key(t@, key)
}

/// Looks `key` up in the table as it stands now, falling back to `key`.
pub fn shared_get_or_default(shared: &SharedTable, key: &str) -> (r: String)
    ensures
        read_default_gives(r@, key@),
{
    let handle = shared.acquire_read();
    let table = handle.borrow();
    let r = table.get_or_default(key);
    handle.release_read();
    r
}

/// The keys of the table as it stands now, each once.
pub fn shared_keys(shared: &SharedTable) -> (r: Vec<String>)
    ensures
        keys_read(r@),
{
    let handle = shared.acquire_read();
    let table = handle.borrow();
    let r = table.keys();
    assert(table.wf());
    handle.release_read();
    r
}

/// Replaces the whole table under the exclusive lock.
pub fn replace_table(shared: &SharedTable, fresh: FlatTable)
    requires
        fresh.wf(),
{
    let (_previous, handle) = shared.acquire_write();
    handle.release_write(fresh);
}

} // verus!
