use vstd::prelude::*;

verus! {

/// No two entries of an association list share a key.
pub open spec fn keys_distinct<V>(ps: Seq<(String, V)>) -> bool {
    forall|i: int, j: int|
        0 <= i < ps.len() && 0 <= j < ps.len() && i != j ==> ps[i].0@ != ps[j].0@
}

/// The map that an association list denotes; a later entry shadows an earlier one.
pub open spec fn assoc_map<V: View>(ps: Seq<(String, V)>) -> Map<Seq<char>, V::V>
    decreases ps.len(),
{
    if ps.len() == 0 {
        Map::empty()
    } else {
        assoc_map(ps.drop_last()).insert(ps.last().0@, ps.last().1@)
    }
}

pub proof fn lemma_assoc_dom<V: View>(ps: Seq<(String, V)>, k: Seq<char>)
    ensures
        assoc_map(ps).contains_key(k) <==> exists|i: int| 0 <= i < ps.len() && ps[i].0@ == k,
    decreases ps.len(),
{
    if ps.len() > 0 {
        lemma_assoc_dom(ps.drop_last(), k);
        if assoc_map(ps).contains_key(k) && k != ps.last().0@ {
            let i = choose|i: int| 0 <= i < ps.len() - 1 && ps.drop_last()[i].0@ == k;
            assert(ps[i].0@ == k);
        }
        if exists|i: int| 0 <= i < ps.len() && ps[i].0@ == k {
            let i = choose|i: int| 0 <= i < ps.len() && ps[i].0@ == k;
            if i < ps.len() - 1 {
                assert(ps.drop_last()[i].0@ == k);
            }
        }
    }
}

pub proof fn lemma_assoc_index<V: View>(ps: Seq<(String, V)>, i: int)
    requires
        keys_distinct(ps),
        0 <= i < ps.len(),
    ensures
        assoc_map(ps).contains_key(ps[i].0@),
        assoc_map(ps)[ps[i].0@] == ps[i].1@,
    decreases ps.len(),
{
    if i < ps.len() - 1 {
        assert(keys_distinct(ps.drop_last()));
        lemma_assoc_index(ps.drop_last(), i);
        assert(ps.drop_last()[i] == ps[i]);
    }
}

pub proof fn lemma_assoc_push<V: View>(ps: Seq<(String, V)>, e: (String, V))
    ensures
        assoc_map(ps.push(e)) == assoc_map(ps).insert(e.0@, e.1@),
{
    assert(ps.push(e).drop_last() =~= ps);
}

pub proof fn lemma_assoc_update<V: View>(ps: Seq<(String, V)>, i: int, e: (String, V))
    requires
        keys_distinct(ps),
        0 <= i < ps.len(),
        e.0@ == ps[i].0@,
    ensures
        assoc_map(ps.update(i, e)) == assoc_map(ps).insert(e.0@, e.1@),
        keys_distinct(ps.update(i, e)),
    decreases ps.len(),
{
    let qs = ps.update(i, e);
    if i == ps.len() - 1 {
        assert(qs.drop_last() =~= ps.drop_last());
        assert(assoc_map(qs) =~= assoc_map(ps).insert(e.0@, e.1@));
    } else {
        assert(keys_distinct(ps.drop_last()));
        lemma_assoc_update(ps.drop_last(), i, e);
        assert(qs.drop_last() =~= ps.drop_last().update(i, e));
        assert(ps.last().0@ != e.0@);
        assert(assoc_map(qs) =~= assoc_map(ps).insert(e.0@, e.1@));
    }
}

/// The position of `key` in an association list, if it is there.
pub fn find_key<V>(ps: &Vec<(String, V)>, key: &String) -> (r: Option<usize>)
    ensures
        match r {
            Some(i) => i < ps@.len() && ps@[i as int].0@ == key@,
            None => forall|i: int| 0 <= i < ps@.len() ==> ps@[i].0@ != key@,
        },
{
    let mut i: usize = 0;
    while i < ps.len()
        invariant
            i <= ps@.len(),
            forall|j: int| 0 <= j < i ==> ps@[j].0@ != key@,
        decreases ps@.len() - i,
    {
        if ps[i].0 == *key {
            return Some(i);
        }
        i = i + 1;
    }
    None
}

} // verus!
