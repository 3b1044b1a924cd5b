//! String-keyed association lists: the library's model of a string map.
//!
//! An entry list is viewed as a sequence of `(key, value)` character
//! sequences; a well-formed list never holds a key twice.

use vstd::prelude::*;
use crate::text::str_eq;

verus! {

/// The character-level view of an entry list.
pub open spec fn entries_view(es: Seq<(String, String)>) -> Seq<(Seq<char>, Seq<char>)> {
    es.map_values(|e: (String, String)| (e.0@, e.1@))
}

/// No key occurs twice.
pub open spec fn keys_unique(es: Seq<(Seq<char>, Seq<char>)>) -> bool {
    forall|i: int, j: int| 0 <= i < j < es.len() ==> es[i].0 != es[j].0
}

/// Position of `k` among the keys, if present.
pub open spec fn key_index(es: Seq<(Seq<char>, Seq<char>)>, k: Seq<char>) -> Option<int>
    decreases es.len(),
{
    if es.len() == 0 {
        None
    } else if es.last().0 == k {
        Some(es.len() - 1)
    } else {
        key_index(es.drop_last(), k)
    }
}

/// Value stored under `k`, if any.
pub open spec fn lookup(es: Seq<(Seq<char>, Seq<char>)>, k: Seq<char>) -> Option<Seq<char>> {
    match key_index(es, k) {
        Some(i) => Some(es[i].1),
        None => None,
    }
}

/// `es` with `k` bound to `v`: the existing entry is overwritten in place,
/// or a new entry is appended.
pub open spec fn assoc_insert_spec(
    es: Seq<(Seq<char>, Seq<char>)>,
    k: Seq<char>,
    v: Seq<char>,
) -> Seq<(Seq<char>, Seq<char>)> {
    match key_index(es, k) {
        Some(i) => es.update(i, (k, v)),
        None => es.push((k, v)),
    }
}

/// What `key_index` finds is an entry with that key, and when nothing is
/// found no entry has it.
pub proof fn lemma_key_index(es: Seq<(Seq<char>, Seq<char>)>, k: Seq<char>)
    ensures
        key_index(es, k) matches Some(i) ==> 0 <= i < es.len() && es[i].0 == k && forall|j: int|
            i < j < es.len() ==> es[j].0 != k,
        key_index(es, k) is None ==> forall|j: int| 0 <= j < es.len() ==> es[j].0 != k,
    decreases es.len(),
{
    if es.len() > 0 && es.last().0 != k {
        lemma_key_index(es.drop_last(), k);
        assert(forall|j: int| 0 <= j < es.len() - 1 ==> es.drop_last()[j] == es[j]);
    }
}

/// In a list without repeated keys, an entry's key leads back to it.
pub proof fn lemma_key_index_unique(es: Seq<(Seq<char>, Seq<char>)>, i: int)
    requires
        keys_unique(es),
        0 <= i < es.len(),
    ensures
        key_index(es, es[i].0) == Some(i),
{
    lemma_key_index(es, es[i].0);
}

/// Inserting keeps keys unique, binds the key, and leaves other keys alone.
pub proof fn lemma_insert(es: Seq<(Seq<char>, Seq<char>)>, k: Seq<char>, v: Seq<char>)
    requires
        keys_unique(es),
    ensures
        keys_unique(assoc_insert_spec(es, k, v)),
        lookup(assoc_insert_spec(es, k, v), k) == Some(v),
        forall|k2: Seq<char>| k2 != k ==> lookup(assoc_insert_spec(es, k, v), k2) == lookup(es, k2),
{
    lemma_key_index(es, k);
    let n = assoc_insert_spec(es, k, v);
    assert(forall|j: int| 0 <= j < es.len() ==> #[trigger] n[j].0 == es[j].0);
    assert(keys_unique(n));
    lemma_key_index(n, k);
    match key_index(es, k) {
        Some(i) => {
            lemma_key_index_unique(n, i);
        },
        None => {
            lemma_key_index_unique(n, es.len() as int);
        },
    }
    assert forall|k2: Seq<char>| k2 != k implies lookup(n, k2) == lookup(es, k2) by {
        lemma_key_index(es, k2);
        lemma_key_index(n, k2);
        match key_index(es, k2) {
            Some(i) => {
                lemma_key_index_unique(n, i);
            },
            None => {
                match key_index(n, k2) {
                    Some(j) => {
                        assert(j < es.len());
                    },
                    None => {},
                }
            },
        }
    }
}

/// Position of key `k` in the entry list, if present.
pub fn find_key(es: &Vec<(String, String)>, k: &str) -> (r: Option<usize>)
    ensures
        r matches Some(i) ==> key_index(entries_view(es@), k@) == Some(i as int),
        r is None ==> key_index(entries_view(es@), k@) is None,
{
    let ghost ev = entries_view(es@);
    let mut i = es.len();
    assert(ev.take(i as int) =~= ev);
    while i > 0
        invariant
            i <= es.len(),
            ev == entries_view(es@),
            key_index(ev, k@) == key_index(ev.take(i as int), k@),
        decreases i,
    {
        let ghost t = ev.take(i as int);
        assert(t.drop_last() =~= ev.take(i - 1));
        assert(t.last() == ev[i - 1]);
        assert(ev[i - 1] == (es@[i - 1].0@, es@[i - 1].1@));
        if str_eq(es[i - 1].0.as_str(), k) {
            return Some(i - 1);
        }
        i -= 1;
    }
    assert(ev.take(0) =~= Seq::<(Seq<char>, Seq<char>)>::empty());
    None
}

/// The value stored under `k`, if any.
pub fn get_value(es: &Vec<(String, String)>, k: &str) -> (r: Option<String>)
    ensures
        match r {
            Some(v) => lookup(entries_view(es@), k@) == Some(v@),
            None => lookup(entries_view(es@), k@) is None,
        },
{
    proof { lemma_key_index(entries_view(es@), k@); }
    match find_key(es, k) {
        Some(i) => {
            assert(entries_view(es@)[i as int] == (es@[i as int].0@, es@[i as int].1@));
            Some(es[i].1.clone())
        },
        None => None,
    }
}

/// Bind `k` to `v`, overwriting an existing entry in place or appending one.
pub fn assoc_insert(es: &mut Vec<(String, String)>, k: String, v: String)
    ensures
        entries_view(final(es)@) == assoc_insert_spec(entries_view(old(es)@), k@, v@),
{
    let ghost ov = entries_view(es@);
    proof { lemma_key_index(ov, k@); }
    match find_key(es, k.as_str()) {
        Some(i) => {
            let ghost kv = k@;
            let ghost vv = v@;
            es[i] = (k, v);
            assert(entries_view(es@) =~= ov.update(i as int, (kv, vv)));
        },
        None => {
            let ghost kv = k@;
            let ghost vv = v@;
            es.push((k, v));
            assert(entries_view(es@) =~= ov.push((kv, vv)));
        },
    }
}

} // verus!

verus! {

/// A copy of an entry list.
pub fn clone_entries(es: &Vec<(String, String)>) -> (r: Vec<(String, String)>)
    ensures
        r@ == es@,
{
    let mut r: Vec<(String, String)> = Vec::new();
    let mut i: usize = 0;
    while i < es.len()
        invariant
            i <= es.len(),
            r@ == es@.take(i as int),
        decreases es.len() - i,
    {
        let k = es[i].0.clone();
        let v = es[i].1.clone();
        r.push((k, v));
        i += 1;
        assert(r@ =~= es@.take(i as int));
    }
    assert(es@.take(i as int) =~= es@);
    r
}

} // verus!
