use vstd::prelude::*;

use crate::shared::{
    keys_read, read_default_gives, read_gives, shared_get, shared_get_or_default, shared_keys, SharedTable,
};
use crate::table::{value_or_key, FlatTable};

verus! {


/// `get_or_default` falls back to the key exactly when `get` finds nothing,
/// and otherwise gives what `get` gives.
pub proof fn law_default_is_key_or_value(t: Map<Seq<char>, Seq<char>>, key: Seq<char>)
    ensures
        !t.contains_key(key) ==> value_or_key(t, key) == key,
        t.contains_key(key) ==> value_or_key(t, key) == t[key],
{
}

/// Read access to one locale's strings.
pub trait GetData {
    /// The value stored under `key`.
    fn get(&self, key: &str) -> Option<String>;

    /// The value stored under `key`, or `key` itself when there is none.
    fn get_or_default(&self, key: &str) -> String;
}

/// A copy of a locale's table taken at one moment; later reloads do not
/// reach it.
pub struct UnWatchData {
    holder: FlatTable,
}

impl UnWatchData {
    #[verifier::type_invariant]
    spec fn holds_wf_table(&self) -> bool {
        self.holder.wf()
    }

    pub closed spec fn view(&self) -> Map<Seq<char>, Seq<char>> {
        self.holder@
    }

    /// A snapshot holding a copy of `holder`.
    pub fn new(holder: &FlatTable) -> (r: UnWatchData)
        requires
            holder.wf(),
        ensures
            r@ == holder@,
    {
        UnWatchData { holder: holder.copy() }
    }

    /// A snapshot that takes `holder` over.
    pub fn from_table(holder: FlatTable) -> (r: UnWatchData)
        requires
            holder.wf(),
        ensures
            r@ == holder@,
    {
        UnWatchData { holder }
    }

    /// The value stored under `key`.
    pub fn get(&self, key: &str) -> (r: Option<String>)
        ensures
            r is None <==> !self@.contains_key(key@),
            r matches Some(v) ==> v@ == self@[key@],
    {
        proof {
            use_type_invariant(self);
        }
        match self.holder.get(key) {
            Some(v) => Some(v.clone()),
            None => None,
        }
    }

    /// The value stored under `key`, or `key` itself when there is none.
    pub fn get_or_default(&self, key: &str) -> (r: String)
        ensures
            r@ == value_or_key(self@, key@),
    {
        proof {
            use_type_invariant(self);
        }
        self.holder.get_or_default(key)
    }

    /// All keys, each once, in no particular order.
    pub fn keys(&self) -> (r: Vec<String>)
        ensures
            forall|i: int, j: int| 0 <= i < j < r@.len() ==> r@[i]@ != r@[j]@,
            forall|k: Seq<char>| self@.contains_key(k) <==> exists|i: int|
                0 <= i < r@.len() && #[trigger] r@[i]@ == k,
    {
        proof {
            use_type_invariant(self);
        }
        self.holder.keys()
    }
}

impl GetData for UnWatchData {
    fn get(&self, key: &str) -> (r: Option<String>) {
        UnWatchData::get(self, key)
    }

    fn get_or_default(&self, key: &str) -> (r: String) {
        UnWatchData::get_or_default(self, key)
    }
}

/// A live view of a locale's shared table: every read sees the table as the
/// latest completed reload left it.
pub struct Data {
    holder: SharedTable,
}

impl Data {
    pub closed spec fn table(&self) -> SharedTable {
        self.holder
    }

    /// A live view of `holder`.
    pub fn new(holder: SharedTable) -> (r: Data)
        ensures
            r.table() == holder,
    {
        Data { holder }
    }

    /// The value stored under `key` in the table as it stands now.
    pub fn get(&self, key: &str) -> (r: Option<String>)
        ensures
            read_gives(r, key@),
    {
        shared_get(&self.holder, key)
    }

    /// The value stored under `key` in the table as it stands now, or `key`
    /// itself when there is none.
    pub fn get_or_default(&self, key: &str) -> (r: String)
        ensures
            read_default_gives(r@, key@),
    {
        shared_get_or_default(&self.holder, key)
    }

    /// The keys of the table as it stands now, each once.
    pub fn keys(&self) -> (r: Vec<String>)
        ensures
            keys_read(r@),
    {
        shared_keys(&self.holder)
    }
}

impl GetData for Data {
    fn get(&self, key: &str) -> (r: Option<String>) {
        Data::get(self, key)
    }

    fn get_or_default(&self, key: &str) -> (r: String) {
        Data::get_or_default(self, key)
    }
}

} // verus!
