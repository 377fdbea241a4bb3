//! Grouping of items by a depth-range key, in order of first appearance of
//! each key, backed by an insertion-ordered `IndexMap`.
use vstd::prelude::*;
use indexmap::IndexMap;

verus! {

#[verifier::external_type_specification]
#[verifier::external_body]
#[verifier::reject_recursive_types(K)]
#[verifier::reject_recursive_types(V)]
#[verifier::reject_recursive_types(S)]
pub struct ExIndexMap<K, V, S>(IndexMap<K, V, S>);

/// A depth range `(start, end)` encoded as integers: each bound is a tag
/// (0 included, 1 excluded, 2 unbounded) and its value (0 when unbounded).
pub type DepthKey = (u8, usize, u8, usize);

/// The entries of a grouping map, in insertion order: each key with the
/// items pushed under it, in push order.
pub uninterp spec fn depth_groups(m: IndexMap<DepthKey, Vec<usize>>) -> Seq<(DepthKey, Seq<usize>)>;

/// Keys occur at most once among the entries.
pub open spec fn keys_unique(g: Seq<(DepthKey, Seq<usize>)>) -> bool {
    forall|a: int, b: int| 0 <= a < g.len() && 0 <= b < g.len() && g[a].0 == g[b].0 ==> a == b
}

/// `IndexMap::new`: a map with no entries.
#[verifier::external_body]
pub fn new_groups() -> (m: IndexMap<DepthKey, Vec<usize>>)
    ensures
        depth_groups(m) == Seq::<(DepthKey, Seq<usize>)>::empty(),
{
    IndexMap::new()
}

/// `m.entry(k).or_default().push(i)`: an existing entry for `k` keeps its
/// place and gets `i` appended to its items; otherwise a new entry `(k, [i])`
/// is appended after all others.
#[verifier::external_body]
pub fn group_push(m: &mut IndexMap<DepthKey, Vec<usize>>, k: DepthKey, i: usize)
    ensures
        forall|j: int|
            0 <= j < depth_groups(*old(m)).len() && (#[trigger] depth_groups(*old(m))[j]).0 == k
                ==> depth_groups(*final(m)) == depth_groups(*old(m)).update(
                j,
                (k, depth_groups(*old(m))[j].1.push(i)),
            ),
        (forall|j: int| 0 <= j < depth_groups(*old(m)).len() ==> (#[trigger] depth_groups(*old(m))[j]).0 != k)
            ==> depth_groups(*final(m)) == depth_groups(*old(m)).push((k, seq![i])),
{
    m.entry(k).or_default().push(i);
}

/// `m.len()`: the number of entries.
#[verifier::external_body]
pub fn group_count(m: &IndexMap<DepthKey, Vec<usize>>) -> (n: usize)
    ensures
        n == depth_groups(*m).len(),
{
    m.len()
}

/// `m.into_values()`, collected: the items of each entry, in entry order.
#[verifier::external_body]
pub fn group_values(m: IndexMap<DepthKey, Vec<usize>>) -> (r: Vec<Vec<usize>>)
    ensures
        r@.len() == depth_groups(m).len(),
        forall|j: int| 0 <= j < r@.len() ==> (#[trigger] r@[j])@ == depth_groups(m)[j].1,
{
    m.into_values().collect()
}

/// The grouping of positions `0..keys.len()` by key: entries in order of
/// the first position of each key, each with its positions in order.
pub open spec fn group_by_key(keys: Seq<DepthKey>) -> Seq<(DepthKey, Seq<usize>)>
    decreases keys.len(),
{
    if keys.len() == 0 {
        Seq::empty()
    } else {
        let g = group_by_key(keys.drop_last());
        let k = keys.last();
        let i = (keys.len() - 1) as usize;
        if exists|j: int| 0 <= j < g.len() && g[j].0 == k {
            let j = choose|j: int| 0 <= j < g.len() && g[j].0 == k;
            g.update(j, (k, g[j].1.push(i)))
        } else {
            g.push((k, seq![i]))
        }
    }
}

/// The groups of positions alone.
pub open spec fn group_positions(keys: Seq<DepthKey>) -> Seq<Seq<usize>> {
    group_by_key(keys).map_values(|e: (DepthKey, Seq<usize>)| e.1)
}

/// Grouping gives each key one group.
pub proof fn lemma_group_keys_unique(keys: Seq<DepthKey>)
    ensures
        keys_unique(group_by_key(keys)),
    decreases keys.len(),
{
    if keys.len() > 0 {
        lemma_group_keys_unique(keys.drop_last());
    }
}

/// Every grouped position is a position of the keys.
pub proof fn lemma_group_positions_in_range(keys: Seq<DepthKey>)
    ensures
        forall|j: int, k: int|
            0 <= j < group_by_key(keys).len() && 0 <= k < group_by_key(keys)[j].1.len()
                ==> #[trigger] group_by_key(keys)[j].1[k] < keys.len(),
    decreases keys.len(),
{
    if keys.len() > 0 {
        lemma_group_positions_in_range(keys.drop_last());
        let g = group_by_key(keys.drop_last());
        let k = keys.last();
        let i = (keys.len() - 1) as usize;
        let r = group_by_key(keys);
        if exists|j: int| 0 <= j < g.len() && g[j].0 == k {
            let j0 = choose|j: int| 0 <= j < g.len() && g[j].0 == k;
            assert(r == g.update(j0, (k, g[j0].1.push(i))));
            assert forall|j: int, q: int| 0 <= j < r.len() && 0 <= q < r[j].1.len() implies #[trigger] r[j].1[q] < keys.len() by {
                if j == j0 {
                    if q < g[j0].1.len() {
                        assert(r[j].1[q] == g[j0].1[q]);
                    }
                } else {
                    assert(r[j] == g[j]);
                }
            }
        } else {
            assert(r == g.push((k, seq![i])));
            assert forall|j: int, q: int| 0 <= j < r.len() && 0 <= q < r[j].1.len() implies #[trigger] r[j].1[q] < keys.len() by {
                if j < g.len() {
                    assert(r[j] == g[j]);
                }
            }
        }
    }
}

/// Groups the positions of `keys` by key.
pub fn group_by(keys: &Vec<DepthKey>) -> (r: Vec<Vec<usize>>)
    ensures
        r@.len() == group_positions(keys@).len(),
        forall|j: int| 0 <= j < r@.len() ==> (#[trigger] r@[j])@ == group_positions(keys@)[j],
{
    let mut m = new_groups();
    let mut i: usize = 0;
    while i < keys.len()
        invariant
            i <= keys.len(),
            depth_groups(m) == group_by_key(keys@.take(i as int)),
        decreases keys.len() - i,
    {
        proof {
            lemma_group_keys_unique(keys@.take(i as int));
            assert(keys@.take(i + 1).drop_last() =~= keys@.take(i as int));
            assert(keys@.take(i + 1).last() == keys@[i as int]);
        }
        let ghost before = depth_groups(m);
        group_push(&mut m, keys[i], i);
        proof {
            let g = before;
            let k = keys@[i as int];
            if exists|j: int| 0 <= j < g.len() && g[j].0 == k {
                let j = choose|j: int| 0 <= j < g.len() && g[j].0 == k;
                assert(g[j].0 == k);
            }
        }
        i += 1;
    }
    proof { assert(keys@.take(keys.len() as int) =~= keys@); }
    let r = group_values(m);
    proof {
        assert forall|j: int| 0 <= j < r@.len() implies (#[trigger] r@[j])@ == group_positions(keys@)[j] by {}
    }
    r
}

} // verus!
