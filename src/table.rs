//! Lookup by name in the tables that describe an instruction set.
use vstd::prelude::*;

verus! {

/// An entry that is looked up by its name.
pub trait Named {
    spec fn key(&self) -> Seq<char>;

    fn name(&self) -> (r: &String)
        ensures
            r@ == self.key(),
    ;
}

/// The name of each entry.
pub open spec fn keys<T: Named>(v: Seq<T>) -> Seq<Seq<char>> {
    v.map_values(|e: T| e.key())
}

/// The position of the first occurrence of `k` in `ks`.
pub open spec fn first_index(ks: Seq<Seq<char>>, k: Seq<char>) -> Option<int>
    decreases ks.len(),
{
    if ks.len() == 0 {
        None
    } else {
        match first_index(ks.drop_last(), k) {
            Some(i) => Some(i),
            None => if ks.last() == k {
                Some(ks.len() - 1)
            } else {
                None
            },
        }
    }
}

/// The first entry of `v` named `k`.
pub open spec fn entry<T: Named>(v: Seq<T>, k: Seq<char>) -> Option<T> {
    match first_index(keys(v), k) {
        Some(i) => Some(v[i]),
        None => None,
    }
}

pub proof fn lemma_first_index_bounds(ks: Seq<Seq<char>>, k: Seq<char>)
    ensures
        first_index(ks, k) matches Some(i) ==> 0 <= i < ks.len() && ks[i] == k,
    decreases ks.len(),
{
    if ks.len() > 0 {
        lemma_first_index_bounds(ks.drop_last(), k);
    }
}

/// A name found in a prefix is found at the same place in the whole.
pub proof fn lemma_first_index_prefix(ks: Seq<Seq<char>>, k: Seq<char>, j: int)
    requires
        0 <= j <= ks.len(),
        first_index(ks.take(j), k) is Some,
    ensures
        first_index(ks, k) == first_index(ks.take(j), k),
    decreases ks.len(),
{
    if j < ks.len() {
        assert(ks.drop_last().take(j) =~= ks.take(j));
        lemma_first_index_prefix(ks.drop_last(), k, j);
    } else {
        assert(ks.take(j) =~= ks);
    }
}

/// The position of the first entry of `v` named `k`.
pub fn find<T: Named>(v: &Vec<T>, k: &String) -> (r: Option<usize>)
    ensures
        match r {
            Some(i) => first_index(keys(v@), k@) == Some(i as int),
            None => first_index(keys(v@), k@) is None,
        },
{
    let mut i: usize = 0;
    while i < v.len()
        invariant
            i <= v.len(),
            first_index(keys(v@).take(i as int), k@) is None,
        decreases v.len() - i,
    {
        proof {
            assert(keys(v@).take(i + 1).drop_last() =~= keys(v@).take(i as int));
        }
        let same = v[i].name().eq(k);
        proof {
            assert(keys(v@).take(i + 1).last() == v@[i as int].key());
        }
        if same {
            proof {
                lemma_first_index_prefix(keys(v@), k@, i + 1);
            }
            return Some(i);
        }
        i += 1;
    }
    proof {
        assert(keys(v@).take(i as int) =~= keys(v@));
    }
    None
}

} // verus!
