use vstd::prelude::*;

use crate::table::{
    keys_unique, lemma_map_of_dom, lemma_map_of_last_value, lemma_map_of_value, map_of, FlatTable,
};

verus! {

broadcast use {vstd::seq::group_seq_axioms, vstd::std_specs::vec::group_vec_axioms};

/// A node of a parsed localization document: a string, or named children.
pub enum Node {
    Scalar(String),
    Mapping(Vec<(String, Node)>),
}

/// The key path of a child called `name` under the path `prefix`
/// (`None` at the root, where the first segment gets no leading dot).
pub open spec fn child_path(prefix: Option<Seq<char>>, name: Seq<char>) -> Seq<char> {
    match prefix {
        Some(p) => p + seq!['.'] + name,
        None => name,
    }
}

/// The leaves of a node in depth-first order, each as (dot-joined path, value).
pub open spec fn leaves(n: Node, prefix: Option<Seq<char>>) -> Seq<(Seq<char>, Seq<char>)>
    decreases n, 1int,
{
    match n {
        Node::Scalar(v) => seq![(prefix.unwrap_or(Seq::empty()), v@)],
        Node::Mapping(cs) => children_leaves(cs@, cs@.len() as int, prefix),
    }
}

/// The leaves of the first `k` children, in order.
pub open spec fn children_leaves(
    cs: Seq<(String, Node)>,
    k: int,
    prefix: Option<Seq<char>>,
) -> Seq<(Seq<char>, Seq<char>)>
    decreases cs, k,
{
    if k <= 0 || k > cs.len() {
        Seq::empty()
    } else {
        children_leaves(cs, k - 1, prefix) + leaves(cs[k - 1].1, Some(child_path(prefix, cs[k - 1].0@)))
    }
}

/// The leaves of an optional document; an absent one has none.
pub open spec fn document_leaves(doc: Option<Node>) -> Seq<(Seq<char>, Seq<char>)> {
    match doc {
        Some(n) => leaves(n, None),
        None => Seq::empty(),
    }
}

/// The table that flattening a document gives: later leaves overwrite earlier
/// ones with the same path.
pub open spec fn flattened(doc: Option<Node>) -> Map<Seq<char>, Seq<char>> {
    map_of(document_leaves(doc))
}

/// `m` with the pairs of `s` inserted in order.
pub open spec fn insert_all(
    m: Map<Seq<char>, Seq<char>>,
    s: Seq<(Seq<char>, Seq<char>)>,
) -> Map<Seq<char>, Seq<char>>
    decreases s.len(),
{
    if s.len() == 0 {
        m
    } else {
        insert_all(m, s.drop_last()).insert(s.last().0, s.last().1)
    }
}

proof fn lemma_insert_all_concat(
    m: Map<Seq<char>, Seq<char>>,
    a: Seq<(Seq<char>, Seq<char>)>,
    b: Seq<(Seq<char>, Seq<char>)>,
)
    ensures
        insert_all(m, a + b) == insert_all(insert_all(m, a), b),
    decreases b.len(),
{
    if b.len() == 0 {
        assert(a + b =~= a);
    } else {
        assert((a + b).drop_last() =~= a + b.drop_last());
        lemma_insert_all_concat(m, a, b.drop_last());
    }
}

proof fn lemma_insert_all_empty(s: Seq<(Seq<char>, Seq<char>)>)
    ensures
        insert_all(Map::empty(), s) == map_of(s),
    decreases s.len(),
{
    if s.len() > 0 {
        lemma_insert_all_empty(s.drop_last());
    }
}

/// The path of a child called `name` under `prefix`.
fn join_path(prefix: Option<&String>, name: &String) -> (r: String)
    ensures
        r@ == child_path(
            match prefix {
                Some(p) => Some(p@),
                None => None,
            },
            name@,
        ),
{
    match prefix {
        Some(p) => {
            let mut r = p.clone();
            r.append(".");
            r.append(name.as_str());
            proof {
                reveal_strlit(".");
            }
            r
        },
        None => name.clone(),
    }
}

/// Inserts the leaves of `n` under `prefix` into `table`, in depth-first order.
fn flatten_into(n: &Node, prefix: Option<&String>, table: &mut FlatTable)
    requires
        old(table).wf(),
    ensures
        final(table).wf(),
        final(table)@ == insert_all(
            old(table)@,
            leaves(
                *n,
                match prefix {
                    Some(p) => Some(p@),
                    None => None,
                },
            ),
        ),
    decreases *n,
{
    let ghost p = match prefix {
        Some(p) => Some(p@),
        None => None,
    };
    match n {
        Node::Scalar(v) => {
            let key = match prefix {
                Some(p) => p.clone(),
                None => String::new(),
            };
            table.insert(key, v.clone());
            proof {
                let s = leaves(*n, p);
                assert(s.drop_last() =~= Seq::<(Seq<char>, Seq<char>)>::empty());
                assert(insert_all(old(table)@, s.drop_last()) == old(table)@);
            }
        },
        Node::Mapping(cs) => {
            let ghost start = table@;
            let mut i: usize = 0;
            while i < cs.len()
                invariant
                    i <= cs@.len(),
                    *n == Node::Mapping(*cs),
                    p == match prefix {
                        Some(q) => Some(q@),
                        None => None,
                    },
                    table.wf(),
                    table@ == insert_all(start, children_leaves(cs@, i as int, p)),
                decreases cs@.len() - i,
            {
                let path = join_path(prefix, &cs[i].0);
                proof {
                    let v = n->Mapping_0;
                    assert(decreases_to!(*n => n->Mapping_0));
                    assert(decreases_to!(v => v@));
                    assert(decreases_to!(v@ => v@[i as int]));
                    assert(decreases_to!(v@[i as int] => v@[i as int].1));
                }
                let ghost before = table@;
                flatten_into(&cs[i].1, Some(&path), table);
                proof {
                    lemma_insert_all_concat(
                        start,
                        children_leaves(cs@, i as int, p),
                        leaves(cs@[i as int].1, Some(child_path(p, cs@[i as int].0@))),
                    );
                    assert(children_leaves(cs@, i + 1, p) == children_leaves(cs@, i as int, p)
                        + leaves(cs@[i as int].1, Some(child_path(p, cs@[i as int].0@))));
                }
                i = i + 1;
            }
        },
    }
}

/// Flattens a document into a table of dot-joined paths; an absent document
/// gives an empty table.
pub fn flatten(doc: &Option<Node>) -> (r: FlatTable)
    ensures
        r.wf(),
        r@ == flattened(*doc),
{
    let mut table = FlatTable::new();
    match doc {
        Some(n) => flatten_into(n, None, &mut table),
        None => {},
    }
    proof {
        lemma_insert_all_empty(document_leaves(*doc));
    }
    table
}

/// Flattening is total and keeps every leaf: a path is a key of the flattened
/// table exactly when some leaf of the document lies under it; each leaf whose
/// path no later leaf repeats keeps its value; where no two leaves share a
/// path, every leaf's value stands under its path; an absent document gives an
/// empty table.
pub proof fn law_flatten_keeps_leaves(doc: Option<Node>, k: Seq<char>)
    ensures
        flattened(doc).contains_key(k) <==> exists|i: int|
            0 <= i < document_leaves(doc).len() && #[trigger] document_leaves(doc)[i].0 == k,
        forall|i: int|
            0 <= i < document_leaves(doc).len() && (forall|j: int|
                i < j < document_leaves(doc).len() ==> document_leaves(doc)[j].0
                    != document_leaves(doc)[i].0) ==> flattened(doc)[document_leaves(doc)[i].0]
                == #[trigger] document_leaves(doc)[i].1,
        keys_unique(document_leaves(doc)) ==> forall|i: int|
            0 <= i < document_leaves(doc).len() ==> flattened(doc)[document_leaves(doc)[i].0]
                == #[trigger] document_leaves(doc)[i].1,
        doc is None ==> flattened(doc) == Map::<Seq<char>, Seq<char>>::empty(),
{
    let s = document_leaves(doc);
    lemma_map_of_dom(s, k);
    assert forall|i: int|
        0 <= i < s.len() && (forall|j: int| i < j < s.len() ==> s[j].0 != s[i].0) implies map_of(
        s,
    )[s[i].0] == #[trigger] s[i].1 by {
        lemma_map_of_last_value(s, i);
    }
    assert forall|i: int| keys_unique(s) && 0 <= i < s.len() implies map_of(s)[s[i].0]
        == #[trigger] s[i].1 by {
        lemma_map_of_value(s, i);
    }
}

} // verus!
