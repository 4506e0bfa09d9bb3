use vstd::prelude::*;

verus! {

/// The map that a sequence of (key, value) pairs describes when later pairs
/// overwrite earlier ones with the same key.
pub open spec fn map_of<V>(s: Seq<(Seq<char>, V)>) -> Map<Seq<char>, V>
    decreases s.len(),
{
    if s.len() == 0 {
        Map::empty()
    } else {
        map_of(s.drop_last()).insert(s.last().0, s.last().1)
    }
}

/// What `get_or_default` gives on a table: the value under `key`, or the key
/// itself when it is absent.
pub open spec fn value_or_key(t: Map<Seq<char>, Seq<char>>, key: Seq<char>) -> Seq<char> {
    if t.contains_key(key) {
        t[key]
    } else {
        key
    }
}

/// No key occurs twice in the sequence.
pub open spec fn keys_unique<V>(s: Seq<(Seq<char>, V)>) -> bool {
    forall|i: int, j: int| 0 <= i < j < s.len() ==> s[i].0 != s[j].0
}

/// A key is in the described map exactly when some pair carries it.
pub proof fn lemma_map_of_dom<V>(s: Seq<(Seq<char>, V)>, k: Seq<char>)
    ensures
        map_of(s).contains_key(k) <==> exists|i: int| 0 <= i < s.len() && s[i].0 == k,
    decreases s.len(),
{
    if s.len() > 0 {
        lemma_map_of_dom(s.drop_last(), k);
        if map_of(s.drop_last()).contains_key(k) {
            let i = choose|i: int| 0 <= i < s.drop_last().len() && s.drop_last()[i].0 == k;
            assert(s[i].0 == k);
        }
        if exists|i: int| 0 <= i < s.len() && s[i].0 == k {
            let i = choose|i: int| 0 <= i < s.len() && s[i].0 == k;
            if i < s.len() - 1 {
                assert(s.drop_last()[i].0 == k);
            }
        }
    }
}

/// With unique keys, each pair's key maps to that pair's value.
pub proof fn lemma_map_of_value<V>(s: Seq<(Seq<char>, V)>, i: int)
    requires
        keys_unique(s),
        0 <= i < s.len(),
    ensures
        map_of(s).contains_key(s[i].0),
        map_of(s)[s[i].0] == s[i].1,
    decreases s.len(),
{
    if i < s.len() - 1 {
        assert(keys_unique(s.drop_last()));
        assert(s.drop_last()[i] == s[i]);
        lemma_map_of_value(s.drop_last(), i);
    }
}

/// The last pair with a given key decides its value.
pub proof fn lemma_map_of_last_value<V>(s: Seq<(Seq<char>, V)>, i: int)
    requires
        0 <= i < s.len(),
        forall|j: int| i < j < s.len() ==> s[j].0 != s[i].0,
    ensures
        map_of(s)[s[i].0] == s[i].1,
    decreases s.len(),
{
    if i < s.len() - 1 {
        assert(s.drop_last()[i] == s[i]);
        lemma_map_of_last_value(s.drop_last(), i);
    }
}

/// Changing the value of one pair keeps the keys unique and changes the
/// described map at that key only.
pub proof fn lemma_map_of_update<V>(before: Seq<(Seq<char>, V)>, i: int, v: V)
    requires
        keys_unique(before),
        0 <= i < before.len(),
    ensures
        keys_unique(before.update(i, (before[i].0, v))),
        map_of(before.update(i, (before[i].0, v))) == map_of(before).insert(before[i].0, v),
{
    let k = before[i].0;
    let after = before.update(i, (k, v));
    assert forall|a: int, b: int| 0 <= a < b < after.len() implies after[a].0 != after[b].0 by {
        assert(after[a].0 == before[a].0);
        assert(after[b].0 == before[b].0);
    }
    assert forall|q: Seq<char>| #[trigger] map_of(after).contains_key(q) == map_of(before).insert(
        k,
        v,
    ).contains_key(q) by {
        lemma_map_of_dom(after, q);
        lemma_map_of_dom(before, q);
        if q == k {
            assert(after[i].0 == q);
        }
        if exists|j: int| 0 <= j < before.len() && before[j].0 == q {
            let j = choose|j: int| 0 <= j < before.len() && before[j].0 == q;
            assert(after[j].0 == q);
        }
    }
    assert forall|q: Seq<char>| #[trigger] map_of(after).contains_key(q) implies map_of(after)[q]
        == map_of(before).insert(k, v)[q] by {
        lemma_map_of_dom(after, q);
        let j = choose|j: int| 0 <= j < after.len() && after[j].0 == q;
        lemma_map_of_value(after, j);
        if j != i {
            assert(after[j] == before[j]);
            lemma_map_of_value(before, j);
        } else {
            assert(after[j] == (k, v));
        }
    }
    assert(map_of(after) =~= map_of(before).insert(k, v));
}

/// Appending a pair with a new key keeps the keys unique.
pub proof fn lemma_push_new_key<V>(before: Seq<(Seq<char>, V)>, k: Seq<char>, v: V)
    requires
        keys_unique(before),
        !map_of(before).contains_key(k),
    ensures
        keys_unique(before.push((k, v))),
        map_of(before.push((k, v))) == map_of(before).insert(k, v),
{
    lemma_map_of_dom(before, k);
    let after = before.push((k, v));
    assert(after.drop_last() =~= before);
    assert forall|a: int, b: int| 0 <= a < b < after.len() implies after[a].0 != after[b].0 by {
        assert(before[a].0 == after[a].0);
        if b < after.len() - 1 {
            assert(before[b].0 == after[b].0);
        }
    }
}

/// The dot-path keyed string table of one locale.
pub struct FlatTable {
    entries: Vec<(String, String)>,
}

impl FlatTable {
    /// The pairs of the table, as plain values.
    pub closed spec fn pairs(&self) -> Seq<(Seq<char>, Seq<char>)> {
        self.entries@.map_values(|p: (String, String)| (p.0@, p.1@))
    }

    pub closed spec fn wf(&self) -> bool {
        keys_unique(self.pairs())
    }

    pub open spec fn view(&self) -> Map<Seq<char>, Seq<char>> {
        map_of(self.pairs())
    }

    proof fn lemma_view_dom(&self, k: Seq<char>)
        ensures
            self@.contains_key(k) <==> exists|i: int|
                0 <= i < self.entries@.len() && #[trigger] self.entries@[i].0@ == k,
    {
        lemma_map_of_dom(self.pairs(), k);
        if self@.contains_key(k) {
            let i = choose|i: int| 0 <= i < self.pairs().len() && self.pairs()[i].0 == k;
            assert(self.entries@[i].0@ == k);
        }
        if exists|i: int| 0 <= i < self.entries@.len() && #[trigger] self.entries@[i].0@ == k {
            let i = choose|i: int| 0 <= i < self.entries@.len() && #[trigger] self.entries@[i].0@ == k;
            assert(self.pairs()[i].0 == k);
        }
    }

    /// An empty table.
    pub fn new() -> (r: FlatTable)
        ensures
            r.wf(),
            r@ == Map::<Seq<char>, Seq<char>>::empty(),
    {
        let r = FlatTable { entries: Vec::new() };
        assert(r.pairs() =~= Seq::<(Seq<char>, Seq<char>)>::empty());
        r
    }

    /// Where `key` stands among the entries, if anywhere.
    fn find(&self, key: &str) -> (r: Option<usize>)
        requires
            self.wf(),
        ensures
            match r {
                Some(i) => i < self.entries@.len() && self.entries@[i as int].0@ == key@,
                None => !self@.contains_key(key@),
            },
    {
        let wanted = key.to_owned();
        let mut i: usize = 0;
        while i < self.entries.len()
            invariant
                i <= self.entries@.len(),
                wanted@ == key@,
                forall|j: int| 0 <= j < i ==> self.entries@[j].0@ != key@,
            decreases self.entries@.len() - i,
        {
            if self.entries[i].0 == wanted {
                return Some(i);
            }
            i = i + 1;
        }
        proof {
            self.lemma_view_dom(key@);
        }
        None
    }

    /// The value stored under `key`.
    pub fn get(&self, key: &str) -> (r: Option<&String>)
        requires
            self.wf(),
        ensures
            r is None <==> !self@.contains_key(key@),
            r matches Some(v) ==> v@ == self@[key@],
    {
        match self.find(key) {
            Some(i) => {
                proof {
                    assert(self.pairs()[i as int] == (self.entries@[i as int].0@, self.entries@[i as int].1@));
                    lemma_map_of_value(self.pairs(), i as int);
                }
                Some(&self.entries[i].1)
            },
            None => None,
        }
    }

    /// The value stored under `key`, or `key` itself when there is none.
    pub fn get_or_default(&self, key: &str) -> (r: String)
        requires
            self.wf(),
        ensures
            r@ == value_or_key(self@, key@),
    {
        match self.get(key) {
            Some(v) => v.clone(),
            None => key.to_owned(),
        }
    }

    /// Whether `key` is present.
    pub fn contains_key(&self, key: &str) -> (r: bool)
        requires
            self.wf(),
        ensures
            r == self@.contains_key(key@),
    {
        self.get(key).is_some()
    }

    /// Stores `value` under `key`, replacing any earlier value.
    pub fn insert(&mut self, key: String, value: String)
        requires
            old(self).wf(),
        ensures
            final(self).wf(),
            final(self)@ == old(self)@.insert(key@, value@),
    {
        let ghost before = self.pairs();
        match self.find(key.as_str()) {
            Some(i) => {
                proof {
                    lemma_map_of_update(before, i as int, value@);
                }
                self.entries.set(i, (key, value));
                assert(self.pairs() =~= before.update(i as int, (before[i as int].0, value@)));
            },
            None => {
                proof {
                    lemma_push_new_key(before, key@, value@);
                }
                self.entries.push((key, value));
                assert(self.pairs() =~= before.push((key@, value@)));
            },
        }
    }

    /// All keys of the table, each once, in no particular order.
    pub fn keys(&self) -> (r: Vec<String>)
        requires
            self.wf(),
        ensures
            forall|i: int, j: int| 0 <= i < j < r@.len() ==> r@[i]@ != r@[j]@,
            forall|k: Seq<char>| self@.contains_key(k) <==> exists|i: int|
                0 <= i < r@.len() && #[trigger] r@[i]@ == k,
    {
        let mut r: Vec<String> = Vec::new();
        let mut i: usize = 0;
        while i < self.entries.len()
            invariant
                i <= self.entries@.len(),
                r@.len() == i,
                forall|j: int| 0 <= j < i ==> #[trigger] r@[j]@ == self.entries@[j].0@,
            decreases self.entries@.len() - i,
        {
            r.push(self.entries[i].0.clone());
            i = i + 1;
        }
        proof {
            assert forall|a: int, b: int| 0 <= a < b < r@.len() implies r@[a]@ != r@[b]@ by {
                assert(self.pairs()[a].0 == r@[a]@);
                assert(self.pairs()[b].0 == r@[b]@);
            }
            assert forall|k: Seq<char>| self@.contains_key(k) <==> exists|i: int|
                0 <= i < r@.len() && #[trigger] r@[i]@ == k by {
                self.lemma_view_dom(k);
                if exists|i: int| 0 <= i < r@.len() && #[trigger] r@[i]@ == k {
                    let i = choose|i: int| 0 <= i < r@.len() && #[trigger] r@[i]@ == k;
                    assert(self.entries@[i].0@ == k);
                }
                if self@.contains_key(k) {
                    let i = choose|i: int| 0 <= i < self.entries@.len() && #[trigger] self.entries@[i].0@ == k;
                    assert(r@[i]@ == k);
                }
            }
        }
        r
    }

    /// A separate table with the same contents.
    pub fn copy(&self) -> (r: FlatTable)
        requires
            self.wf(),
        ensures
            r.wf(),
            r@ == self@,
    {
        let mut entries: Vec<(String, String)> = Vec::new();
        let mut i: usize = 0;
        while i < self.entries.len()
            invariant
                i <= self.entries@.len(),
                entries@.len() == i,
                forall|j: int| 0 <= j < i ==> #[trigger] entries@[j] == self.entries@[j],
            decreases self.entries@.len() - i,
        {
            let k = self.entries[i].0.clone();
            let v = self.entries[i].1.clone();
            entries.push((k, v));
            i = i + 1;
        }
        let r = FlatTable { entries };
        assert(r.entries@ =~= self.entries@);
        r
    }
}

} // verus!
