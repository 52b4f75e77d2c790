use vstd::prelude::*;

verus! {

/// Association lists keyed by 128-bit integers back the per-identifier
/// tables of the correlation engine. Keys are unique, so a lookup is
/// determined by the key alone; operations on distinct keys leave
/// each other's entries untouched.

pub open spec fn ukeys_unique<V>(s: Seq<(u128, V)>) -> bool {
    forall|i: int, j: int| 0 <= i < j < s.len() ==> #[trigger] s[i].0 != #[trigger] s[j].0
}

/// The value stored under key `k`, latest entry winning.
pub open spec fn uassoc_lookup<V>(s: Seq<(u128, V)>, k: u128) -> Option<V>
    decreases s.len(),
{
    if s.len() == 0 {
        None
    } else if s.last().0 == k {
        Some(s.last().1)
    } else {
        uassoc_lookup(s.drop_last(), k)
    }
}

pub proof fn lemma_uassoc_lookup_at<V>(s: Seq<(u128, V)>, i: int)
    requires
        ukeys_unique(s),
        0 <= i < s.len(),
    ensures
        uassoc_lookup(s, s[i].0) == Some(s[i].1),
    decreases s.len(),
{
    if i < s.len() - 1 {
        assert(s.drop_last()[i] == s[i]);
        lemma_uassoc_lookup_at(s.drop_last(), i);
    }
}

pub proof fn lemma_uassoc_lookup_none<V>(s: Seq<(u128, V)>, k: u128)
    requires
        forall|i: int| 0 <= i < s.len() ==> #[trigger] s[i].0 != k,
    ensures
        uassoc_lookup(s, k) is None,
    decreases s.len(),
{
    if s.len() > 0 {
        assert(forall|i: int|
            0 <= i < s.drop_last().len() ==> #[trigger] s.drop_last()[i].0 != k);
        lemma_uassoc_lookup_none(s.drop_last(), k);
    }
}

/// Replacing the value at index `i` updates that key and no other.
pub proof fn lemma_uassoc_update<V>(s: Seq<(u128, V)>, i: int, v: V, k: u128)
    requires
        ukeys_unique(s),
        0 <= i < s.len(),
    ensures
        ukeys_unique(s.update(i, (s[i].0, v))),
        uassoc_lookup(s.update(i, (s[i].0, v)), k) == (if k == s[i].0 {
            Some(v)
        } else {
            uassoc_lookup(s, k)
        }),
    decreases s.len(),
{
    let s2 = s.update(i, (s[i].0, v));
    assert forall|a: int, b: int| 0 <= a < b < s2.len() implies #[trigger] s2[a].0
        != #[trigger] s2[b].0 by {
        assert(s[a].0 != s[b].0);
    }
    if i == s.len() - 1 {
        assert(s2.drop_last() =~= s.drop_last());
    } else {
        assert(s2.last() == s.last());
        assert(s2.drop_last() =~= s.drop_last().update(i, (s.drop_last()[i].0, v)));
        lemma_uassoc_update(s.drop_last(), i, v, k);
        if s.last().0 == k {
            assert(s[i].0 != k);
        }
    }
}

/// Appending a fresh key adds that binding and no other.
pub proof fn lemma_uassoc_push<V>(s: Seq<(u128, V)>, key: u128, v: V, k: u128)
    requires
        ukeys_unique(s),
        forall|i: int| 0 <= i < s.len() ==> #[trigger] s[i].0 != key,
    ensures
        ukeys_unique(s.push((key, v))),
        uassoc_lookup(s.push((key, v)), k) == (if k == key {
            Some(v)
        } else {
            uassoc_lookup(s, k)
        }),
{
    let s2 = s.push((key, v));
    assert forall|a: int, b: int| 0 <= a < b < s2.len() implies #[trigger] s2[a].0
        != #[trigger] s2[b].0 by {
        if b < s.len() {
            assert(s[a].0 != s[b].0);
        } else {
            assert(s2[b].0 == key);
            assert(s2[a] == s[a]);
        }
    }
    assert(s2.drop_last() =~= s);
}

/// Removing index `i` drops that key's binding and no other.
pub proof fn lemma_uassoc_remove<V>(s: Seq<(u128, V)>, i: int, k: u128)
    requires
        ukeys_unique(s),
        0 <= i < s.len(),
    ensures
        ukeys_unique(s.remove(i)),
        uassoc_lookup(s.remove(i), k) == (if k == s[i].0 {
            None::<V>
        } else {
            uassoc_lookup(s, k)
        }),
    decreases s.len(),
{
    let s2 = s.remove(i);
    assert forall|a: int, b: int| 0 <= a < b < s2.len() implies #[trigger] s2[a].0
        != #[trigger] s2[b].0 by {
        let a0 = if a < i {
            a
        } else {
            a + 1
        };
        let b0 = if b < i {
            b
        } else {
            b + 1
        };
        assert(s2[a] == s[a0]);
        assert(s2[b] == s[b0]);
        assert(s[a0].0 != s[b0].0);
    }
    if i == s.len() - 1 {
        assert(s2 =~= s.drop_last());
        if s.last().0 != k {
        } else {
            assert forall|j: int| 0 <= j < s2.len() implies #[trigger] s2[j].0 != k by {
                assert(s2[j] == s[j]);
                assert(s[j].0 != s[i].0);
            }
            lemma_uassoc_lookup_none(s2, k);
        }
    } else {
        assert(s2.last() == s.last());
        assert(s2.drop_last() =~= s.drop_last().remove(i));
        lemma_uassoc_remove(s.drop_last(), i, k);
        if s.last().0 == k {
            assert(s[i].0 != s[s.len() - 1].0);
        }
    }
}

/// A present binding has an index holding exactly it.
pub proof fn lemma_uassoc_lookup_some_index<V>(s: Seq<(u128, V)>, k: u128)
    requires
        ukeys_unique(s),
        uassoc_lookup(s, k) is Some,
    ensures
        exists|i: int|
            0 <= i < s.len() && (#[trigger] s[i].0) == k && uassoc_lookup(s, k) == Some(s[i].1),
    decreases s.len(),
{
    if s.len() > 0 {
        if s.last().0 == k {
            assert(s[s.len() - 1].0 == k);
        } else {
            lemma_uassoc_lookup_some_index(s.drop_last(), k);
            let i = choose|i: int|
                0 <= i < s.drop_last().len() && (#[trigger] s.drop_last()[i].0) == k
                    && uassoc_lookup(s.drop_last(), k) == Some(s.drop_last()[i].1);
            assert(s[i] == s.drop_last()[i]);
        }
    }
}

/// Two lists with the same keys in the same places resolve every
/// lookup at the same index.
pub proof fn lemma_uassoc_same_keys<V>(s1: Seq<(u128, V)>, s2: Seq<(u128, V)>, k: u128)
    requires
        ukeys_unique(s1),
        s1.len() == s2.len(),
        forall|i: int| 0 <= i < s1.len() ==> (#[trigger] s1[i].0) == (#[trigger] s2[i].0),
    ensures
        ukeys_unique(s2),
        uassoc_lookup(s1, k) is None <==> uassoc_lookup(s2, k) is None,
        forall|i: int|
            0 <= i < s1.len() && (#[trigger] s1[i].0) == k ==> uassoc_lookup(s1, k) == Some(
                s1[i].1,
            ) && uassoc_lookup(s2, k) == Some(s2[i].1),
{
    assert forall|a: int, b: int| 0 <= a < b < s2.len() implies #[trigger] s2[a].0
        != #[trigger] s2[b].0 by {
        assert(s1[a].0 != s1[b].0);
    }
    if uassoc_lookup(s1, k) is Some {
        lemma_uassoc_lookup_some_index(s1, k);
    }
    if uassoc_lookup(s2, k) is Some {
        lemma_uassoc_lookup_some_index(s2, k);
        let i = choose|i: int|
            0 <= i < s2.len() && (#[trigger] s2[i].0) == k && uassoc_lookup(s2, k) == Some(
                s2[i].1,
            );
        assert(s1[i].0 == k);
        lemma_uassoc_lookup_at(s1, i);
    }
    assert forall|i: int| 0 <= i < s1.len() && (#[trigger] s1[i].0) == k implies uassoc_lookup(
        s1,
        k,
    ) == Some(s1[i].1) && uassoc_lookup(s2, k) == Some(s2[i].1) by {
        lemma_uassoc_lookup_at(s1, i);
        lemma_uassoc_lookup_at(s2, i);
    }
}

/// Index of the entry whose key equals `key`, if any.
pub fn uassoc_find<V>(entries: &Vec<(u128, V)>, key: u128) -> (r: Option<usize>)
    requires
        ukeys_unique(entries@),
    ensures
        match r {
            Some(i) => {
                &&& i < entries@.len()
                &&& entries@[i as int].0 == key
                &&& uassoc_lookup(entries@, key) == Some(entries@[i as int].1)
            },
            None => {
                &&& uassoc_lookup(entries@, key) is None
                &&& forall|i: int| 0 <= i < entries@.len() ==> #[trigger] entries@[i].0 != key
            },
        },
{
    let n = entries.len();
    let mut j: usize = 0;
    while j < n
        invariant
            n == entries@.len(),
            ukeys_unique(entries@),
            0 <= j <= n,
            forall|i: int| 0 <= i < j ==> #[trigger] entries@[i].0 != key,
        decreases n - j,
    {
        if entries[j].0 == key {
            proof {
                lemma_uassoc_lookup_at(entries@, j as int);
            }
            return Some(j);
        }
        j = j + 1;
    }
    proof {
        lemma_uassoc_lookup_none(entries@, key);
    }
    None
}

} // verus!
