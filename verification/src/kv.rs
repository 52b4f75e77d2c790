use vstd::prelude::*;

verus! {

/// Association lists with `String` keys back the per-metric tables of
/// the engines. Keys are unique, so a lookup is determined by the key
/// view alone. Operations on distinct keys leave each other's entries
/// untouched, which the lemmas below make available to the engines.

pub open spec fn keys_unique<V>(s: Seq<(String, V)>) -> bool {
    forall|i: int, j: int| 0 <= i < j < s.len() ==> #[trigger] s[i].0@ != #[trigger] s[j].0@
}

/// The value stored under key view `k`, latest entry winning.
pub open spec fn assoc_lookup<V>(s: Seq<(String, V)>, k: Seq<char>) -> Option<V>
    decreases s.len(),
{
    if s.len() == 0 {
        None
    } else if s.last().0@ == k {
        Some(s.last().1)
    } else {
        assoc_lookup(s.drop_last(), k)
    }
}

pub proof fn lemma_assoc_lookup_at<V>(s: Seq<(String, V)>, i: int)
    requires
        keys_unique(s),
        0 <= i < s.len(),
    ensures
        assoc_lookup(s, s[i].0@) == Some(s[i].1),
    decreases s.len(),
{
    if i < s.len() - 1 {
        assert(s.drop_last()[i] == s[i]);
        lemma_assoc_lookup_at(s.drop_last(), i);
    }
}

pub proof fn lemma_assoc_lookup_none<V>(s: Seq<(String, V)>, k: Seq<char>)
    requires
        forall|i: int| 0 <= i < s.len() ==> #[trigger] s[i].0@ != k,
    ensures
        assoc_lookup(s, k) is None,
    decreases s.len(),
{
    if s.len() > 0 {
        assert(forall|i: int|
            0 <= i < s.drop_last().len() ==> #[trigger] s.drop_last()[i].0@ != k);
        lemma_assoc_lookup_none(s.drop_last(), k);
    }
}

/// Replacing the value at index `i` updates that key and no other.
pub proof fn lemma_assoc_update<V>(s: Seq<(String, V)>, i: int, v: V, k: Seq<char>)
    requires
        keys_unique(s),
        0 <= i < s.len(),
    ensures
        keys_unique(s.update(i, (s[i].0, v))),
        assoc_lookup(s.update(i, (s[i].0, v)), k) == (if k == s[i].0@ {
            Some(v)
        } else {
            assoc_lookup(s, k)
        }),
    decreases s.len(),
{
    let s2 = s.update(i, (s[i].0, v));
    assert forall|a: int, b: int| 0 <= a < b < s2.len() implies #[trigger] s2[a].0@
        != #[trigger] s2[b].0@ by {
        assert(s[a].0@ != s[b].0@);
    }
    if i == s.len() - 1 {
        assert(s2.drop_last() =~= s.drop_last());
    } else {
        assert(s2.last() == s.last());
        assert(s2.drop_last() =~= s.drop_last().update(i, (s.drop_last()[i].0, v)));
        lemma_assoc_update(s.drop_last(), i, v, k);
        if s.last().0@ == k {
            assert(s[i].0@ != k);
        }
    }
}

/// Appending a fresh key adds that binding and no other.
pub proof fn lemma_assoc_push<V>(s: Seq<(String, V)>, key: String, v: V, k: Seq<char>)
    requires
        keys_unique(s),
        forall|i: int| 0 <= i < s.len() ==> #[trigger] s[i].0@ != key@,
    ensures
        keys_unique(s.push((key, v))),
        assoc_lookup(s.push((key, v)), k) == (if k == key@ {
            Some(v)
        } else {
            assoc_lookup(s, k)
        }),
{
    let s2 = s.push((key, v));
    assert forall|a: int, b: int| 0 <= a < b < s2.len() implies #[trigger] s2[a].0@
        != #[trigger] s2[b].0@ by {
        if b < s.len() {
            assert(s[a].0@ != s[b].0@);
        } else {
            assert(s2[b].0@ == key@);
            assert(s2[a] == s[a]);
        }
    }
    assert(s2.drop_last() =~= s);
}

/// Removing index `i` drops that key's binding and no other.
pub proof fn lemma_assoc_remove<V>(s: Seq<(String, V)>, i: int, k: Seq<char>)
    requires
        keys_unique(s),
        0 <= i < s.len(),
    ensures
        keys_unique(s.remove(i)),
        assoc_lookup(s.remove(i), k) == (if k == s[i].0@ {
            None::<V>
        } else {
            assoc_lookup(s, k)
        }),
    decreases s.len(),
{
    let s2 = s.remove(i);
    assert forall|a: int, b: int| 0 <= a < b < s2.len() implies #[trigger] s2[a].0@
        != #[trigger] s2[b].0@ by {
        let a0 = if a < i {
            a
        } else {
            a + 1
        };
        let b0 = if b < i {
            b
        } else {
            b + 1
        };
        assert(s2[a] == s[a0]);
        assert(s2[b] == s[b0]);
        assert(s[a0].0@ != s[b0].0@);
    }
    if i == s.len() - 1 {
        assert(s2 =~= s.drop_last());
        if s.last().0@ != k {
        } else {
            assert forall|j: int| 0 <= j < s2.len() implies #[trigger] s2[j].0@ != k by {
                assert(s2[j] == s[j]);
                assert(s[j].0@ != s[i].0@);
            }
            lemma_assoc_lookup_none(s2, k);
        }
    } else {
        assert(s2.last() == s.last());
        assert(s2.drop_last() =~= s.drop_last().remove(i));
        lemma_assoc_remove(s.drop_last(), i, k);
        if s.last().0@ == k {
            assert(s[i].0@ != s[s.len() - 1].0@);
        }
    }
}

/// A present binding has an index holding exactly it.
pub proof fn lemma_assoc_lookup_some_index<V>(s: Seq<(String, V)>, k: Seq<char>)
    requires
        keys_unique(s),
        assoc_lookup(s, k) is Some,
    ensures
        exists|i: int|
            0 <= i < s.len() && (#[trigger] s[i].0@) == k && assoc_lookup(s, k) == Some(s[i].1),
    decreases s.len(),
{
    if s.len() > 0 {
        if s.last().0@ == k {
            assert(s[s.len() - 1].0@ == k);
        } else {
            lemma_assoc_lookup_some_index(s.drop_last(), k);
            let i = choose|i: int|
                0 <= i < s.drop_last().len() && (#[trigger] s.drop_last()[i].0@) == k
                    && assoc_lookup(s.drop_last(), k) == Some(s.drop_last()[i].1);
            assert(s[i] == s.drop_last()[i]);
        }
    }
}

/// Two lists with the same keys in the same places resolve every
/// lookup at the same index.
pub proof fn lemma_assoc_same_keys<V>(s1: Seq<(String, V)>, s2: Seq<(String, V)>, k: Seq<char>)
    requires
        keys_unique(s1),
        s1.len() == s2.len(),
        forall|i: int| 0 <= i < s1.len() ==> (#[trigger] s1[i].0@) == (#[trigger] s2[i].0@),
    ensures
        keys_unique(s2),
        assoc_lookup(s1, k) is None <==> assoc_lookup(s2, k) is None,
        forall|i: int|
            0 <= i < s1.len() && (#[trigger] s1[i].0@) == k ==> assoc_lookup(s1, k) == Some(
                s1[i].1,
            ) && assoc_lookup(s2, k) == Some(s2[i].1),
{
    assert forall|a: int, b: int| 0 <= a < b < s2.len() implies #[trigger] s2[a].0@
        != #[trigger] s2[b].0@ by {
        assert(s1[a].0@ != s1[b].0@);
    }
    if assoc_lookup(s1, k) is Some {
        lemma_assoc_lookup_some_index(s1, k);
    }
    if assoc_lookup(s2, k) is Some {
        lemma_assoc_lookup_some_index(s2, k);
        let i = choose|i: int|
            0 <= i < s2.len() && (#[trigger] s2[i].0@) == k && assoc_lookup(s2, k) == Some(
                s2[i].1,
            );
        assert(s1[i].0@ == k);
        lemma_assoc_lookup_at(s1, i);
    }
    assert forall|i: int| 0 <= i < s1.len() && (#[trigger] s1[i].0@) == k implies assoc_lookup(
        s1,
        k,
    ) == Some(s1[i].1) && assoc_lookup(s2, k) == Some(s2[i].1) by {
        lemma_assoc_lookup_at(s1, i);
        lemma_assoc_lookup_at(s2, i);
    }
}

/// Index of the entry whose key equals `key`, if any.
pub fn assoc_find<V>(entries: &Vec<(String, V)>, key: &String) -> (r: Option<usize>)
    requires
        keys_unique(entries@),
    ensures
        match r {
            Some(i) => {
                &&& i < entries@.len()
                &&& entries@[i as int].0@ == key@
                &&& assoc_lookup(entries@, key@) == Some(entries@[i as int].1)
            },
            None => {
                &&& assoc_lookup(entries@, key@) is None
                &&& forall|i: int| 0 <= i < entries@.len() ==> #[trigger] entries@[i].0@ != key@
            },
        },
{
    let n = entries.len();
    let mut j: usize = 0;
    while j < n
        invariant
            n == entries@.len(),
            keys_unique(entries@),
            0 <= j <= n,
            forall|i: int| 0 <= i < j ==> #[trigger] entries@[i].0@ != key@,
        decreases n - j,
    {
        if entries[j].0 == *key {
            proof {
                lemma_assoc_lookup_at(entries@, j as int);
            }
            return Some(j);
        }
        j = j + 1;
    }
    proof {
        lemma_assoc_lookup_none(entries@, key@);
    }
    None
}

} // verus!
