//! Lookup by text key in small ordered tables.
use vstd::prelude::*;
use vstd::string::*;
use crate::text::str_eq;

verus! {

/// `i` is the first position of `keys` holding `k`.
pub open spec fn is_first_index(keys: Seq<Seq<char>>, k: Seq<char>, i: int) -> bool {
    &&& 0 <= i < keys.len()
    &&& keys[i] == k
    &&& forall|j: int| 0 <= j < i ==> #[trigger] keys[j] != k
}

/// The first position of `keys` holding `k`, or -1.
pub open spec fn index_of_key(keys: Seq<Seq<char>>, k: Seq<char>) -> int {
    if exists|i: int| is_first_index(keys, k, i) {
        choose|i: int| is_first_index(keys, k, i)
    } else {
        -1
    }
}

/// The first position holding a key is the one `index_of_key` names.
pub proof fn lemma_index_of_key(keys: Seq<Seq<char>>, k: Seq<char>, i: int)
    requires
        is_first_index(keys, k, i),
    ensures
        index_of_key(keys, k) == i,
{
    let c = choose|c: int| is_first_index(keys, k, c);
    assert(is_first_index(keys, k, c));
    if c < i {
        assert(keys[c] != k);
    } else if c > i {
        assert(keys[i] != k);
    }
}

/// A key held nowhere has no position.
pub proof fn lemma_key_missing(keys: Seq<Seq<char>>, k: Seq<char>)
    requires
        !keys.contains(k),
    ensures
        index_of_key(keys, k) == -1,
{
    if exists|i: int| is_first_index(keys, k, i) {
        let c = choose|c: int| is_first_index(keys, k, c);
        assert(keys[c] == k);
    }
}

/// A key held somewhere has a first position.
pub proof fn lemma_key_held(keys: Seq<Seq<char>>, k: Seq<char>, j: int)
    requires
        0 <= j < keys.len(),
        keys[j] == k,
    ensures
        0 <= index_of_key(keys, k) <= j,
        is_first_index(keys, k, index_of_key(keys, k)),
    decreases j,
{
    if exists|m: int| 0 <= m < j && #[trigger] keys[m] == k {
        let m = choose|m: int| 0 <= m < j && #[trigger] keys[m] == k;
        lemma_key_held(keys, k, m);
    } else {
        assert(is_first_index(keys, k, j));
        lemma_index_of_key(keys, k, j);
    }
}

/// `keys` with `k` added at the end unless it is already there.
pub open spec fn insert_key(keys: Seq<Seq<char>>, k: Seq<char>) -> Seq<Seq<char>> {
    if keys.contains(k) {
        keys
    } else {
        keys.push(k)
    }
}

/// The keys of `ks` in order of first appearance, each once.
pub open spec fn distinct_keys(ks: Seq<Seq<char>>) -> Seq<Seq<char>>
    decreases ks.len(),
{
    if ks.len() == 0 {
        Seq::empty()
    } else {
        insert_key(distinct_keys(ks.drop_last()), ks.last())
    }
}

/// The first position of `k` among the texts of `keys`.
pub fn find_key(keys: &Vec<String>, k: &str) -> (r: Option<usize>)
    ensures
        r matches Some(i) ==> is_first_index(keys@.map_values(|s: String| s@), k@, i as int)
            && index_of_key(keys@.map_values(|s: String| s@), k@) == i,
        r is None ==> !keys@.map_values(|s: String| s@).contains(k@) && index_of_key(
            keys@.map_values(|s: String| s@),
            k@,
        ) == -1,
{
    let ghost ks = keys@.map_values(|s: String| s@);
    let mut i: usize = 0;
    while i < keys.len()
        invariant
            i <= keys.len(),
            ks == keys@.map_values(|s: String| s@),
            forall|j: int| 0 <= j < i ==> #[trigger] ks[j] != k@,
        decreases keys.len() - i,
    {
        if str_eq(keys[i].as_str(), k) {
            proof {
                lemma_index_of_key(ks, k@, i as int);
            }
            return Some(i);
        }
        i = i + 1;
    }
    proof {
        assert(!ks.contains(k@)) by {
            if ks.contains(k@) {
                let j = choose|j: int| 0 <= j < ks.len() && ks[j] == k@;
                assert(ks[j] != k@);
            }
        }
        lemma_key_missing(ks, k@);
    }
    None
}

} // verus!
