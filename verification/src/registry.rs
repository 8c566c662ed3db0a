//! Association-list maps for the process registry: `pmap` maps each tracked
//! descendant pid directly to its logical ancestor, and `rpmap` maps each
//! logical ancestor to the ordered list of live pids in its tree.

use vstd::prelude::*;

verus! {

/// First value bound to `key`, scanning from the front.
pub open spec fn spec_lookup(entries: Seq<(u32, u32)>, key: u32) -> Option<u32>
    decreases entries.len(),
{
    if entries.len() == 0 {
        None
    } else if entries[0].0 == key {
        Some(entries[0].1)
    } else {
        spec_lookup(entries.drop_first(), key)
    }
}

/// Index of the first tree entry with the given key, if any.
pub open spec fn spec_tree_index(trees: Seq<(u32, Vec<u32>)>, key: u32) -> Option<int>
    decreases trees.len(),
{
    if trees.len() == 0 {
        None
    } else if trees[0].0 == key {
        Some(0int)
    } else {
        match spec_tree_index(trees.drop_first(), key) {
            Some(i) => Some(i + 1),
            None => None,
        }
    }
}

/// The tree index is `Some` exactly when some entry carries the key, and it
/// is then the first such entry.
pub proof fn lemma_tree_index(trees: Seq<(u32, Vec<u32>)>, key: u32)
    ensures
        spec_tree_index(trees, key) is Some <==> exists|i: int|
            0 <= i < trees.len() && trees[i].0 == key,
        match spec_tree_index(trees, key) {
            Some(t) => 0 <= t < trees.len() && trees[t].0 == key && forall|j: int|
                0 <= j < t ==> trees[j].0 != key,
            None => true,
        },
    decreases trees.len(),
{
    if trees.len() > 0 && trees[0].0 != key {
        lemma_tree_index(trees.drop_first(), key);
        if spec_tree_index(trees.drop_first(), key) is Some {
            let t = spec_tree_index(trees.drop_first(), key)->0;
            assert forall|j: int| 0 <= j < t + 1 implies trees[j].0 != key by {
                if j >= 1 {
                    assert(trees.drop_first()[j - 1].0 != key);
                }
            }
        } else {
            if exists|i: int| 0 <= i < trees.len() && trees[i].0 == key {
                let i = choose|i: int| 0 <= i < trees.len() && trees[i].0 == key;
                assert(trees.drop_first()[i - 1].0 == key);
            }
        }
    }
}

/// Scanning past entries whose key does not match leaves the lookup
/// unchanged.
pub proof fn lemma_lookup_skip(entries: Seq<(u32, u32)>, key: u32, i: int)
    requires
        0 <= i <= entries.len(),
        forall|j: int| 0 <= j < i ==> entries[j].0 != key,
    ensures
        spec_lookup(entries, key) == spec_lookup(entries.skip(i), key),
    decreases i,
{
    if i > 0 {
        lemma_lookup_skip(entries.drop_first(), key, i - 1);
        assert(entries.drop_first().skip(i - 1) =~= entries.skip(i));
    } else {
        assert(entries.skip(0) =~= entries);
    }
}

/// A lookup that finds a value names some entry of the list.
pub proof fn lemma_lookup_found(entries: Seq<(u32, u32)>, key: u32)
    requires
        spec_lookup(entries, key) is Some,
    ensures
        exists|i: int|
            0 <= i < entries.len() && entries[i].0 == key && entries[i].1 == spec_lookup(
                entries,
                key,
            )->0,
    decreases entries.len(),
{
    if entries.len() > 0 && entries[0].0 != key {
        lemma_lookup_found(entries.drop_first(), key);
        let i = choose|i: int|
            0 <= i < entries.drop_first().len() && entries.drop_first()[i].0 == key
                && entries.drop_first()[i].1 == spec_lookup(entries.drop_first(), key)->0;
        assert(entries[i + 1].0 == key);
    }
}

/// The lookup succeeds exactly when some entry carries the key.
pub proof fn lemma_lookup_iff(entries: Seq<(u32, u32)>, key: u32)
    ensures
        spec_lookup(entries, key) is Some <==> exists|i: int|
            0 <= i < entries.len() && entries[i].0 == key,
    decreases entries.len(),
{
    if entries.len() > 0 && entries[0].0 != key {
        lemma_lookup_iff(entries.drop_first(), key);
        if spec_lookup(entries.drop_first(), key) is Some {
        } else {
            if exists|i: int| 0 <= i < entries.len() && entries[i].0 == key {
                let i = choose|i: int| 0 <= i < entries.len() && entries[i].0 == key;
                assert(entries.drop_first()[i - 1].0 == key);
            }
        }
    }
}

/// Removing an entry with a different key leaves a lookup unchanged.
pub proof fn lemma_lookup_remove(entries: Seq<(u32, u32)>, i: int, key: u32)
    requires
        0 <= i < entries.len(),
        entries[i].0 != key,
    ensures
        spec_lookup(entries.remove(i), key) == spec_lookup(entries, key),
    decreases entries.len(),
{
    if i == 0 {
        assert(entries.remove(0) =~= entries.drop_first());
    } else {
        if entries[0].0 == key {
            assert(entries.remove(i)[0] == entries[0]);
        } else {
            lemma_lookup_remove(entries.drop_first(), i - 1, key);
            assert(entries.remove(i).drop_first() =~= entries.drop_first().remove(i - 1));
        }
    }
}

/// A lookup on a list with no matching entry fails.
pub proof fn lemma_lookup_none(entries: Seq<(u32, u32)>, key: u32)
    requires
        forall|i: int| 0 <= i < entries.len() ==> entries[i].0 != key,
    ensures
        spec_lookup(entries, key) is None,
    decreases entries.len(),
{
    if entries.len() > 0 {
        lemma_lookup_none(entries.drop_first(), key);
    }
}

/// Effects of removing the entry for `key` from a map with distinct keys:
/// `key` no longer resolves, every other key keeps its binding, keys stay
/// distinct, and every remaining entry stems from the map given.
pub proof fn lemma_removed_key(pm0: Seq<(u32, u32)>, pm1: Seq<(u32, u32)>, key: u32)
    requires
        forall|i: int, j: int| 0 <= i < j < pm0.len() ==> pm0[i].0 != pm0[j].0,
        (spec_lookup(pm0, key) is None && pm1 == pm0) || (exists|i: int|
            0 <= i < pm0.len() && pm0[i].0 == key && pm1 == pm0.remove(i)),
    ensures
        spec_lookup(pm1, key) is None,
        forall|k: u32| k != key ==> spec_lookup(pm1, k) == spec_lookup(pm0, k),
        forall|i: int, j: int| 0 <= i < j < pm1.len() ==> pm1[i].0 != pm1[j].0,
        forall|i1: int|
            0 <= i1 < pm1.len() ==> exists|i0: int|
                0 <= i0 < pm0.len() && pm0[i0] == #[trigger] pm1[i1],
{
    if spec_lookup(pm0, key) is None && pm1 == pm0 {
        assert forall|i1: int| 0 <= i1 < pm1.len() implies exists|i0: int|
            0 <= i0 < pm0.len() && pm0[i0] == #[trigger] pm1[i1] by {
            assert(pm0[i1] == pm1[i1]);
        }
    } else {
        let i = choose|i: int| 0 <= i < pm0.len() && pm0[i].0 == key && pm1 == pm0.remove(i);
        pm0.remove_ensures(i);
        assert forall|i1: int| 0 <= i1 < pm1.len() implies exists|i0: int|
            0 <= i0 < pm0.len() && pm0[i0] == #[trigger] pm1[i1] by {
            if i1 < i {
                assert(pm0[i1] == pm1[i1]);
            } else {
                assert(pm0[i1 + 1] == pm1[i1]);
            }
        }
        assert forall|i1: int| 0 <= i1 < pm1.len() implies pm1[i1].0 != key by {
            if i1 < i {
                assert(pm1[i1] == pm0[i1]);
            } else {
                assert(pm1[i1] == pm0[i1 + 1]);
            }
        }
        lemma_lookup_none(pm1, key);
        assert forall|k: u32| k != key implies spec_lookup(pm1, k) == spec_lookup(pm0, k) by {
            lemma_lookup_remove(pm0, i, k);
        }
    }
}

/// Appending an entry affects only lookups of its key, and only when that
/// key was absent.
pub proof fn lemma_lookup_push(entries: Seq<(u32, u32)>, e: (u32, u32), k: u32)
    ensures
        spec_lookup(entries.push(e), k) == (if spec_lookup(entries, k) is Some {
            spec_lookup(entries, k)
        } else if e.0 == k {
            Some(e.1)
        } else {
            None
        }),
    decreases entries.len(),
{
    if entries.len() == 0 {
        assert(entries.push(e).len() == 1);
        assert(entries.push(e)[0] == e);
        if e.0 == k {
            assert(spec_lookup(entries.push(e), k) == Some(e.1));
        } else {
            assert(entries.push(e).drop_first() =~= Seq::<(u32, u32)>::empty());
            assert(spec_lookup(entries.push(e).drop_first(), k) is None);
            assert(spec_lookup(entries.push(e), k) == spec_lookup(
                entries.push(e).drop_first(),
                k,
            ));
        }
    } else {
        assert(entries.push(e)[0] == entries[0]);
        if entries[0].0 == k {
            assert(spec_lookup(entries.push(e), k) == Some(entries[0].1));
            assert(spec_lookup(entries, k) == Some(entries[0].1));
        } else {
            lemma_lookup_push(entries.drop_first(), e, k);
            assert(entries.push(e).drop_first() =~= entries.drop_first().push(e));
            assert(spec_lookup(entries.push(e), k) == spec_lookup(
                entries.drop_first().push(e),
                k,
            ));
            assert(spec_lookup(entries, k) == spec_lookup(entries.drop_first(), k));
        }
    }
}

/// Whether `pid` occurs in any tree's member list.
pub fn pid_in_any_tree(trees: &Vec<(u32, Vec<u32>)>, pid: u32) -> (r: bool)
    ensures
        r == exists|i: int, j: int|
            0 <= i < trees@.len() && 0 <= j < trees@[i].1@.len() && trees@[i].1@[j] == pid,
{
    let n = trees.len();
    let mut i: usize = 0;
    while i < n
        invariant
            n == trees@.len(),
            i <= n,
            forall|t: int, j: int|
                0 <= t < i && 0 <= j < trees@[t].1@.len() ==> #[trigger] trees@[t].1@[j] != pid,
        decreases n - i,
    {
        match pid_position(&trees[i].1, pid) {
            Some(q) => {
                proof {
                    assert(trees@[i as int].1@[q as int] == pid);
                }
                return true;
            },
            None => {},
        }
        i += 1;
    }
    false
}

/// Look up `key` in the parent map.
pub fn map_get(entries: &Vec<(u32, u32)>, key: u32) -> (r: Option<u32>)
    ensures
        r == spec_lookup(entries@, key),
{
    let n = entries.len();
    let mut i: usize = 0;
    while i < n
        invariant
            n == entries@.len(),
            i <= n,
            forall|j: int| 0 <= j < i ==> entries@[j].0 != key,
        decreases n - i,
    {
        if entries[i].0 == key {
            proof {
                lemma_lookup_skip(entries@, key, i as int);
            }
            return Some(entries[i].1);
        }
        i += 1;
    }
    proof {
        lemma_lookup_skip(entries@, key, n as int);
    }
    None
}

/// Position of the first entry with `key` in the parent map, if any.
pub fn map_position(entries: &Vec<(u32, u32)>, key: u32) -> (r: Option<usize>)
    ensures
        match r {
            Some(i) => i < entries@.len() && entries@[i as int].0 == key && forall|j: int|
                0 <= j < i ==> entries@[j].0 != key,
            None => forall|j: int| 0 <= j < entries@.len() ==> entries@[j].0 != key,
        },
{
    let n = entries.len();
    let mut i: usize = 0;
    while i < n
        invariant
            n == entries@.len(),
            i <= n,
            forall|j: int| 0 <= j < i ==> entries@[j].0 != key,
        decreases n - i,
    {
        if entries[i].0 == key {
            return Some(i);
        }
        i += 1;
    }
    None
}

/// Position of the first entry with `key` in the tree map, if any.
pub fn tree_position(trees: &Vec<(u32, Vec<u32>)>, key: u32) -> (r: Option<usize>)
    ensures
        match r {
            Some(i) => i < trees@.len() && trees@[i as int].0 == key && forall|j: int|
                0 <= j < i ==> trees@[j].0 != key,
            None => forall|j: int| 0 <= j < trees@.len() ==> trees@[j].0 != key,
        },
{
    let n = trees.len();
    let mut i: usize = 0;
    while i < n
        invariant
            n == trees@.len(),
            i <= n,
            forall|j: int| 0 <= j < i ==> trees@[j].0 != key,
        decreases n - i,
    {
        if trees[i].0 == key {
            return Some(i);
        }
        i += 1;
    }
    None
}

/// Position of the first occurrence of `x` in a pid list, if any.
pub fn pid_position(pids: &Vec<u32>, x: u32) -> (r: Option<usize>)
    ensures
        match r {
            Some(i) => i < pids@.len() && pids@[i as int] == x && forall|j: int|
                0 <= j < i ==> pids@[j] != x,
            None => forall|j: int| 0 <= j < pids@.len() ==> pids@[j] != x,
        },
{
    let n = pids.len();
    let mut i: usize = 0;
    while i < n
        invariant
            n == pids@.len(),
            i <= n,
            forall|j: int| 0 <= j < i ==> pids@[j] != x,
        decreases n - i,
    {
        if pids[i] == x {
            return Some(i);
        }
        i += 1;
    }
    None
}

/// Remove the first entry with `key` from the parent map, if present.
pub fn map_remove(entries: &mut Vec<(u32, u32)>, key: u32)
    ensures
        spec_lookup(old(entries)@, key) is None ==> final(entries)@ == old(entries)@,
        spec_lookup(old(entries)@, key) is Some ==> exists|i: int|
            {
                &&& 0 <= i < old(entries)@.len()
                &&& old(entries)@[i].0 == key
                &&& (forall|j: int| 0 <= j < i ==> old(entries)@[j].0 != key)
                &&& final(entries)@ == old(entries)@.remove(i)
            },
{
    let pos = map_position(entries, key);
    match pos {
        Some(i) => {
            let ghost pre = entries@;
            entries.remove(i);
            proof {
                lemma_lookup_skip(pre, key, i as int);
                assert(pre.skip(i as int)[0].0 == key);
                assert((i as int) < pre.len() && pre[i as int].0 == key && entries@ == pre.remove(
                    i as int,
                ));
            }
        },
        None => {
            proof {
                lemma_lookup_none(entries@, key);
            }
        },
    }
}

} // verus!
