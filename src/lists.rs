//! Lists without repeated elements, and association lists read as maps.
//!
//! The fact base keeps each collection as a `Vec`. A set is a list without
//! repetitions, merged by appending the elements not yet present; a map is a list
//! of pairs with distinct keys, merged by overwriting.
use vstd::prelude::*;

use crate::function_def::{FunctionDef, FunctionId};

verus! {

/// `acc` followed by the elements of `items` that are not already there, in order.
pub open spec fn append_new<T>(acc: Seq<T>, items: Seq<T>) -> Seq<T>
    decreases items.len(),
{
    if items.len() == 0 {
        acc
    } else {
        let r = append_new(acc, items.drop_last());
        if r.contains(items.last()) {
            r
        } else {
            r.push(items.last())
        }
    }
}

/// What an association list means: later pairs override earlier ones.
pub open spec fn pairs_map<K, V>(s: Seq<(K, V)>) -> Map<K, V>
    decreases s.len(),
{
    if s.len() == 0 {
        Map::empty()
    } else {
        pairs_map(s.drop_last()).insert(s.last().0, s.last().1)
    }
}

/// The keys of an association list.
pub open spec fn keys_of<K, V>(s: Seq<(K, V)>) -> Seq<K> {
    s.map_values(|p: (K, V)| p.0)
}

/// An element of a non-empty list is in its front part or is its last element.
pub proof fn lemma_contains_split_last<T>(s: Seq<T>)
    requires
        s.len() > 0,
    ensures
        forall|x: T| #[trigger] s.contains(x) <==> s.drop_last().contains(x) || x == s.last(),
{
    assert forall|x: T| #[trigger] s.contains(x) implies s.drop_last().contains(x) || x == s.last() by {
        let i = choose|i: int| 0 <= i < s.len() && s[i] == x;
        if i < s.len() - 1 {
            assert(s.drop_last()[i] == x);
        }
    }
    assert forall|x: T| s.drop_last().contains(x) implies #[trigger] s.contains(x) by {
        let i = choose|i: int| 0 <= i < s.len() - 1 && s.drop_last()[i] == x;
        assert(s[i] == x);
    }
    assert(s[s.len() - 1] == s.last());
}

/// An element is in the merged list exactly when it is in either list.
pub proof fn lemma_append_new_contains<T>(acc: Seq<T>, items: Seq<T>)
    ensures
        forall|x: T| #[trigger]
            append_new(acc, items).contains(x) <==> acc.contains(x) || items.contains(x),
    decreases items.len(),
{
    if items.len() > 0 {
        lemma_append_new_contains(acc, items.drop_last());
        lemma_contains_split_last(items);
        let r = append_new(acc, items.drop_last());
        if !r.contains(items.last()) {
            lemma_contains_split_last(r.push(items.last()));
            assert(r.push(items.last()).drop_last() =~= r);
        }
    }
}

/// Merging `items` then `x` is merging `items.push(x)`.
pub proof fn lemma_append_new_push<T>(acc: Seq<T>, items: Seq<T>, x: T)
    ensures
        append_new(acc, items.push(x)) == append_new(append_new(acc, items), seq![x]),
{
    assert(items.push(x).drop_last() =~= items);
    assert(seq![x].drop_last() =~= Seq::<T>::empty());
    assert(append_new(append_new(acc, items), seq![x].drop_last()) == append_new(acc, items));
}

/// Merging a single element adds it unless it is there.
pub proof fn lemma_append_new_single<T>(acc: Seq<T>, x: T)
    ensures
        append_new(acc, seq![x]) == if acc.contains(x) {
            acc
        } else {
            acc.push(x)
        },
{
    assert(seq![x].drop_last() =~= Seq::<T>::empty());
    assert(append_new(acc, seq![x].drop_last()) == acc);
}

/// Merging into a list without repetitions gives a list without repetitions.
pub proof fn lemma_append_new_distinct<T>(acc: Seq<T>, items: Seq<T>)
    requires
        acc.no_duplicates(),
    ensures
        append_new(acc, items).no_duplicates(),
    decreases items.len(),
{
    if items.len() > 0 {
        lemma_append_new_distinct(acc, items.drop_last());
    }
}

/// Appending elements that are all present already changes nothing.
pub proof fn lemma_append_new_absorbs<T>(acc: Seq<T>, items: Seq<T>)
    requires
        forall|x: T| items.contains(x) ==> acc.contains(x),
    ensures
        append_new(acc, items) == acc,
    decreases items.len(),
{
    if items.len() > 0 {
        assert forall|x: T| items.drop_last().contains(x) implies acc.contains(x) by {
            let i = choose|i: int| 0 <= i < items.len() - 1 && items.drop_last()[i] == x;
            assert(items[i] == x);
        }
        lemma_append_new_absorbs(acc, items.drop_last());
        assert(items.contains(items.last())) by {
            assert(items[items.len() - 1] == items.last());
        }
    }
}

/// Merging the same list in twice is merging it once.
pub proof fn lemma_append_new_idempotent<T>(acc: Seq<T>, items: Seq<T>)
    ensures
        append_new(append_new(acc, items), items) == append_new(acc, items),
{
    lemma_append_new_contains(acc, items);
    lemma_append_new_absorbs(append_new(acc, items), items);
}

/// The keys of the map are the keys of the list.
pub proof fn lemma_pairs_map_dom<K, V>(s: Seq<(K, V)>)
    ensures
        forall|k: K| #[trigger] pairs_map(s).contains_key(k) <==> keys_of(s).contains(k),
    decreases s.len(),
{
    if s.len() > 0 {
        lemma_pairs_map_dom(s.drop_last());
        assert(keys_of(s.drop_last()) =~= keys_of(s).drop_last());
        lemma_contains_split_last(keys_of(s));
        assert(keys_of(s).last() == s.last().0);
        assert forall|k: K| #[trigger] pairs_map(s).contains_key(k) <==> keys_of(s).contains(k) by {
            assert(pairs_map(s).contains_key(k) <==> pairs_map(s.drop_last()).contains_key(k) || k == s.last().0);
        }
    }
}

/// In a list with distinct keys, the pair at `i` gives the value of its key.
pub proof fn lemma_pairs_map_index<K, V>(s: Seq<(K, V)>, i: int)
    requires
        keys_of(s).no_duplicates(),
        0 <= i < s.len(),
    ensures
        pairs_map(s).contains_key(s[i].0),
        pairs_map(s)[s[i].0] == s[i].1,
    decreases s.len(),
{
    if i < s.len() - 1 {
        assert(keys_of(s.drop_last()) =~= keys_of(s).drop_last());
        lemma_pairs_map_index(s.drop_last(), i);
        assert(keys_of(s)[i] != keys_of(s)[s.len() - 1]);
    }
}

/// Overwriting the pair of a present key updates the map at that key.
pub proof fn lemma_pairs_map_update<K, V>(s: Seq<(K, V)>, i: int, v: V)
    requires
        keys_of(s).no_duplicates(),
        0 <= i < s.len(),
    ensures
        pairs_map(s.update(i, (s[i].0, v))) == pairs_map(s).insert(s[i].0, v),
        keys_of(s.update(i, (s[i].0, v))) == keys_of(s),
    decreases s.len(),
{
    let t = s.update(i, (s[i].0, v));
    assert(keys_of(t) =~= keys_of(s));
    if i == s.len() - 1 {
        assert(t.drop_last() =~= s.drop_last());
        assert(pairs_map(t) =~= pairs_map(s).insert(s[i].0, v));
    } else {
        assert(keys_of(s.drop_last()) =~= keys_of(s).drop_last());
        lemma_pairs_map_update(s.drop_last(), i, v);
        assert(t.drop_last() =~= s.drop_last().update(i, (s[i].0, v)));
        assert(keys_of(s)[i] != keys_of(s)[s.len() - 1]);
        assert(pairs_map(t) =~= pairs_map(s).insert(s[i].0, v));
    }
}

/// Whether a list of strings holds one with the contents of `s`.
pub fn contains_string(v: &Vec<String>, s: &String) -> (r: bool)
    ensures
        r == v.deep_view().contains(s@),
{
    let mut i: usize = 0;
    while i < v.len()
        invariant
            i <= v.len(),
            forall|j: int| 0 <= j < i ==> v.deep_view()[j] != s@,
        decreases v.len() - i,
    {
        if v[i] == *s {
            assert(v.deep_view()[i as int] == s@);
            return true;
        }
        i += 1;
    }
    false
}

/// Whether a list of definitions holds one equal to `d`.
pub fn contains_def(v: &Vec<FunctionDef>, d: &FunctionDef) -> (r: bool)
    ensures
        r == v.deep_view().contains(d@),
{
    let mut i: usize = 0;
    while i < v.len()
        invariant
            i <= v.len(),
            forall|j: int| 0 <= j < i ==> v.deep_view()[j] != d@,
        decreases v.len() - i,
    {
        if v[i] == *d {
            assert(v.deep_view()[i as int] == d@);
            return true;
        }
        i += 1;
    }
    false
}

/// Adds `s` at the end unless it is there already; returns whether it was added.
pub fn insert_string(v: &mut Vec<String>, s: String) -> (added: bool)
    ensures
        final(v).deep_view() == append_new(old(v).deep_view(), seq![s@]),
        added == !old(v).deep_view().contains(s@),
{
    proof {
        assert(seq![s@].drop_last() =~= Seq::<Seq<char>>::empty());
        assert(append_new(old(v).deep_view(), seq![s@].drop_last()) == old(v).deep_view());
    }
    if contains_string(v, &s) {
        false
    } else {
        v.push(s);
        assert(v.deep_view() =~= old(v).deep_view().push(s@));
        true
    }
}

/// Adds `d` at the end unless it is there already; returns whether it was added.
pub fn insert_def(v: &mut Vec<FunctionDef>, d: FunctionDef) -> (added: bool)
    ensures
        final(v).deep_view() == append_new(old(v).deep_view(), seq![d@]),
        added == !old(v).deep_view().contains(d@),
{
    proof {
        assert(seq![d@].drop_last() =~= Seq::<FunctionId>::empty());
        assert(append_new(old(v).deep_view(), seq![d@].drop_last()) == old(v).deep_view());
    }
    if contains_def(v, &d) {
        false
    } else {
        v.push(d);
        assert(v.deep_view() =~= old(v).deep_view().push(d@));
        true
    }
}

/// Appends the strings of `items` that `v` does not hold yet, in order.
pub fn extend_strings(v: &mut Vec<String>, items: &Vec<String>)
    ensures
        final(v).deep_view() == append_new(old(v).deep_view(), items.deep_view()),
{
    let mut i: usize = 0;
    while i < items.len()
        invariant
            i <= items.len(),
            v.deep_view() == append_new(old(v).deep_view(), items.deep_view().subrange(0, i as int)),
        decreases items.len() - i,
    {
        insert_string(v, items[i].clone());
        proof {
            let s = items.deep_view().subrange(0, i as int);
            assert(items.deep_view().subrange(0, i as int + 1) =~= s.push(items.deep_view()[i as int]));
            lemma_append_new_push(old(v).deep_view(), s, items.deep_view()[i as int]);
        }
        i += 1;
    }
    assert(items.deep_view().subrange(0, items.len() as int) =~= items.deep_view());
}

/// Appends the definitions of `items` that `v` does not hold yet, in order.
pub fn extend_defs(v: &mut Vec<FunctionDef>, items: &Vec<FunctionDef>)
    ensures
        final(v).deep_view() == append_new(old(v).deep_view(), items.deep_view()),
{
    let mut i: usize = 0;
    while i < items.len()
        invariant
            i <= items.len(),
            v.deep_view() == append_new(old(v).deep_view(), items.deep_view().subrange(0, i as int)),
        decreases items.len() - i,
    {
        insert_def(v, items[i].duplicate());
        proof {
            let s = items.deep_view().subrange(0, i as int);
            assert(items.deep_view().subrange(0, i as int + 1) =~= s.push(items.deep_view()[i as int]));
            lemma_append_new_push(old(v).deep_view(), s, items.deep_view()[i as int]);
        }
        i += 1;
    }
    assert(items.deep_view().subrange(0, items.len() as int) =~= items.deep_view());
}

/// The position of `key` in an association list, if it is there.
pub fn find_key<V: DeepView>(v: &Vec<(String, V)>, key: &String) -> (r: Option<usize>)
    ensures
        match r {
            Some(i) => i < v.len() && v.deep_view()[i as int].0 == key@,
            None => !keys_of(v.deep_view()).contains(key@),
        },
{
    let mut i: usize = 0;
    while i < v.len()
        invariant
            i <= v.len(),
            forall|j: int| 0 <= j < i ==> keys_of(v.deep_view())[j] != key@,
        decreases v.len() - i,
    {
        if v[i].0 == *key {
            return Some(i);
        }
        i += 1;
    }
    None
}

/// Sets the value of `key`, replacing the pair that holds it or adding one at the end.
pub fn upsert<V: DeepView>(v: &mut Vec<(String, V)>, key: String, value: V)
    requires
        keys_of(old(v).deep_view()).no_duplicates(),
    ensures
        keys_of(final(v).deep_view()).no_duplicates(),
        pairs_map(final(v).deep_view()) == pairs_map(old(v).deep_view()).insert(
            key@,
            value.deep_view(),
        ),
{
    let ghost k = key@;
    let ghost val = value.deep_view();
    match find_key(v, &key) {
        Some(i) => {
            v.set(i, (key, value));
            proof {
                let s = old(v).deep_view();
                assert(v.deep_view() =~= s.update(i as int, (s[i as int].0, val)));
                lemma_pairs_map_update(s, i as int, val);
            }
        },
        None => {
            v.push((key, value));
            proof {
                let s = old(v).deep_view();
                assert(v.deep_view() =~= s.push((k, val)));
                assert(v.deep_view().drop_last() =~= s);
                assert(keys_of(v.deep_view()) =~= keys_of(s).push(k));
            }
        },
    }
}

/// Moves the pairs of `items` into `v` in order; a key already in `v` takes the new value.
pub fn extend_pairs<V: DeepView>(v: &mut Vec<(String, V)>, items: Vec<(String, V)>)
    requires
        keys_of(old(v).deep_view()).no_duplicates(),
    ensures
        keys_of(final(v).deep_view()).no_duplicates(),
        pairs_map(final(v).deep_view()) == pairs_map(old(v).deep_view()).union_prefer_right(
            pairs_map(items.deep_view()),
        ),
{
    let ghost all = items.deep_view();
    assert(all.len() == items.len());
    let mut rest = items;
    let mut done: usize = 0;
    while rest.len() > 0
        invariant
            done + rest.len() == all.len(),
            all.len() <= usize::MAX,
            rest.deep_view() == all.subrange(done as int, all.len() as int),
            keys_of(v.deep_view()).no_duplicates(),
            pairs_map(v.deep_view()) == pairs_map(old(v).deep_view()).union_prefer_right(
                pairs_map(all.subrange(0, done as int)),
            ),
        decreases rest.len(),
    {
        let ghost before = rest.deep_view();
        let (key, value) = rest.remove(0);
        proof {
            assert(before[0] == (key@, value.deep_view()));
            assert(rest.deep_view() =~= before.subrange(1, before.len() as int));
        }
        upsert(v, key, value);
        proof {
            let t = all.subrange(0, done as int + 1);
            assert(t.len() == done + 1);
            assert(t.drop_last() =~= all.subrange(0, done as int));
            assert(t.last() == all[done as int]);
            assert(pairs_map(old(v).deep_view()).union_prefer_right(pairs_map(t)) =~= pairs_map(
                old(v).deep_view(),
            ).union_prefer_right(pairs_map(all.subrange(0, done as int))).insert(t.last().0, t.last().1));
        }
        done += 1;
        proof {
            assert(rest.deep_view() =~= all.subrange(done as int, all.len() as int));
        }
    }
    assert(all.subrange(0, all.len() as int) =~= all);
}

/// The value that an association list with distinct keys gives `key`, if any.
pub fn lookup<'a>(v: &'a Vec<(String, String)>, key: &String) -> (r: Option<&'a String>)
    requires
        keys_of(v.deep_view()).no_duplicates(),
    ensures
        match r {
            Some(value) => pairs_map(v.deep_view()).contains_key(key@) && pairs_map(
                v.deep_view(),
            )[key@] == value@,
            None => !pairs_map(v.deep_view()).contains_key(key@),
        },
{
    proof {
        lemma_pairs_map_dom(v.deep_view());
    }
    match find_key(v, key) {
        Some(i) => {
            proof {
                lemma_pairs_map_index(v.deep_view(), i as int);
            }
            Some(&v[i].1)
        },
        None => None,
    }
}

} // verus!
