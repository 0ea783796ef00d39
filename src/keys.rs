use vstd::prelude::*;

verus! {

/// No two entries share a key.
pub open spec fn distinct_keys<V>(s: Seq<(String, V)>) -> bool {
    forall|i: int, j: int| 0 <= i < j < s.len() ==> #[trigger] s[i].0@ != #[trigger] s[j].0@
}

/// Some entry has the key `k`.
pub open spec fn has_key<V>(s: Seq<(String, V)>, k: Seq<char>) -> bool {
    exists|i: int| 0 <= i < s.len() && #[trigger] s[i].0@ == k
}

/// The position of the first entry with key `k`, or -1.
pub open spec fn key_index<V>(s: Seq<(String, V)>, k: Seq<char>) -> int
    decreases s.len(),
{
    if s.len() == 0 {
        -1
    } else if s[0].0@ == k {
        0
    } else if key_index(s.drop_first(), k) == -1 {
        -1
    } else {
        key_index(s.drop_first(), k) + 1
    }
}

pub proof fn lemma_key_index<V>(s: Seq<(String, V)>, k: Seq<char>)
    ensures
        -1 <= key_index(s, k) < s.len(),
        key_index(s, k) == -1 <==> !has_key(s, k),
        key_index(s, k) >= 0 ==> s[key_index(s, k)].0@ == k,
        key_index(s, k) >= 0 ==> forall|j: int|
            0 <= j < key_index(s, k) ==> #[trigger] s[j].0@ != k,
    decreases s.len(),
{
    if s.len() > 0 {
        let p = s.drop_first();
        lemma_key_index(p, k);
        if s[0].0@ != k {
            if has_key(s, k) {
                let i = choose|i: int| 0 <= i < s.len() && #[trigger] s[i].0@ == k;
                assert(p[i - 1].0@ == k);
            }
            if has_key(p, k) {
                let i = choose|i: int| 0 <= i < p.len() && #[trigger] p[i].0@ == k;
                assert(s[i + 1].0@ == k);
            }
            if key_index(p, k) >= 0 {
                assert forall|j: int| 0 <= j < key_index(s, k) implies #[trigger] s[j].0@ != k by {
                    if j > 0 {
                        assert(s[j] == p[j - 1]);
                    }
                }
            }
        }
    }
}

/// The entry at `i` is the one found for its key when no earlier entry
/// has that key.
pub proof fn lemma_key_index_first<V>(s: Seq<(String, V)>, i: int)
    requires
        0 <= i < s.len(),
        forall|j: int| 0 <= j < i ==> #[trigger] s[j].0@ != s[i].0@,
    ensures
        key_index(s, s[i].0@) == i,
{
    let k = s[i].0@;
    lemma_key_index(s, k);
    assert(has_key(s, k));
    let m = key_index(s, k);
    if m > i {
        assert(s[i].0@ != k);
    }
}

/// Finds the first entry whose key is `key`.
pub fn find_key<V>(entries: &Vec<(String, V)>, key: &String) -> (r: Option<usize>)
    ensures
        match r {
            Some(i) => i < entries@.len() && entries@[i as int].0@ == key@ && i as int == key_index(
                entries@,
                key@,
            ),
            None => key_index(entries@, key@) == -1,
        },
{
    proof {
        lemma_key_index(entries@, key@);
    }
    let mut i: usize = 0;
    while i < entries.len()
        invariant
            i <= entries@.len(),
            forall|j: int| 0 <= j < i ==> #[trigger] entries@[j].0@ != key@,
        decreases entries@.len() - i,
    {
        if entries[i].0 == *key {
            proof {
                lemma_key_index_first(entries@, i as int);
            }
            return Some(i);
        }
        i = i + 1;
    }
    proof {
        if has_key(entries@, key@) {
            let j = choose|j: int| 0 <= j < entries@.len() && #[trigger] entries@[j].0@ == key@;
            assert(entries@[j].0@ != key@);
        }
    }
    None
}

} // verus!
