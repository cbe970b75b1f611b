use vstd::prelude::*;

use rand::Rng;
use vstd::seq_lib::group_to_multiset_ensures;
use vstd::seq_lib::to_multiset_update;

verus! {

/// The sort key of object `object` along `axis` (0, 1, 2 for x, y, z):
/// the low corner of its bounding box on that axis, in an order-preserving
/// integer encoding.
pub open spec fn key_of(keys: Seq<[u64; 3]>, object: usize, axis: usize) -> u64 {
    keys[object as int]@[axis as int]
}

/// `objs` lists objects in non-decreasing key order along `axis`.
pub open spec fn sorted_by_axis(keys: Seq<[u64; 3]>, objs: Seq<usize>, axis: usize) -> bool {
    forall|a: int, b: int|
        0 <= a < b < objs.len() ==> key_of(keys, #[trigger] objs[a], axis) <= key_of(
            keys,
            #[trigger] objs[b],
            axis,
        )
}

/// Every entry of `objs` names one of the objects that `keys` describes.
pub open spec fn valid_objects(keys: Seq<[u64; 3]>, objs: Seq<usize>) -> bool {
    forall|i: int| 0 <= i < objs.len() ==> #[trigger] objs[i] < keys.len()
}

fn key_at(keys: &Vec<[u64; 3]>, object: usize, axis: usize) -> (r: u64)
    requires
        object < keys@.len(),
        axis < 3,
    ensures
        r == key_of(keys@, object, axis),
{
    let k: &[u64; 3] = &keys[object];
    k[axis]
}

/// Sorts `objs` by their keys along `axis`, by insertion: an object only
/// moves past strictly larger keys, so equal keys keep their order.
fn sort_by_axis(objs: &mut Vec<usize>, keys: &Vec<[u64; 3]>, axis: usize)
    requires
        axis < 3,
        valid_objects(keys@, old(objs)@),
    ensures
        final(objs)@.len() == old(objs)@.len(),
        final(objs)@.to_multiset() == old(objs)@.to_multiset(),
        valid_objects(keys@, final(objs)@),
        sorted_by_axis(keys@, final(objs)@, axis),
{
    broadcast use group_to_multiset_ensures;

    let n = objs.len();
    let mut i: usize = 1;
    while i < n
        invariant
            n == objs@.len(),
            axis < 3,
            1 <= i,
            objs@.to_multiset() == old(objs)@.to_multiset(),
            valid_objects(keys@, objs@),
            forall|a: int, b: int|
                0 <= a < b < i && b < n ==> key_of(keys@, #[trigger] objs@[a], axis) <= key_of(
                    keys@,
                    #[trigger] objs@[b],
                    axis,
                ),
        decreases n - i,
    {
        // Move the object at `i` down past every larger key before it.
        let mut j: usize = i;
        let mut moving: bool = key_at(keys, objs[j - 1], axis) > key_at(keys, objs[j], axis);
        while moving
            invariant
                n == objs@.len(),
                axis < 3,
                0 <= j <= i < n,
                objs@.to_multiset() == old(objs)@.to_multiset(),
                valid_objects(keys@, objs@),
                forall|a: int, b: int|
                    0 <= a < b <= i && a != j && b != j ==> key_of(keys@, #[trigger] objs@[a], axis)
                        <= key_of(keys@, #[trigger] objs@[b], axis),
                forall|b: int|
                    j < b <= i ==> key_of(keys@, objs@[j as int], axis) < key_of(
                        keys@,
                        #[trigger] objs@[b],
                        axis,
                    ),
                moving == (j > 0 && key_of(keys@, objs@[j - 1], axis) > key_of(
                    keys@,
                    objs@[j as int],
                    axis,
                )),
            decreases j,
        {
            let lower = objs[j - 1];
            let upper = objs[j];
            let ghost before = objs@;
            objs.set(j - 1, upper);
            objs.set(j, lower);
            proof {
                broadcast use to_multiset_update;

                let s1 = before.update(j - 1, upper);
                assert(s1[j as int] == upper);
                assert(objs@ == s1.update(j as int, lower));
                assert(s1.to_multiset() == before.to_multiset().insert(upper).remove(lower));
                assert(objs@.to_multiset() == s1.to_multiset().insert(lower).remove(upper));
                assert(before.contains(lower));
                before.to_multiset_ensures();
                assert(before.to_multiset().count(lower) > 0);
                assert(objs@.to_multiset() =~= before.to_multiset());
                assert forall|a: int, b: int|
                    0 <= a < b <= i && a != j - 1 && b != j - 1 implies key_of(
                    keys@,
                    #[trigger] objs@[a],
                    axis,
                ) <= key_of(keys@, #[trigger] objs@[b], axis) by {
                    if a == j {
                        assert(before[j - 1] == objs@[a]);
                        assert(before[b] == objs@[b]);
                    } else if b == j {
                        assert(before[j - 1] == objs@[b]);
                        assert(before[a] == objs@[a]);
                    } else {
                        assert(before[a] == objs@[a]);
                        assert(before[b] == objs@[b]);
                    }
                }
                assert forall|b: int| j - 1 < b <= i implies key_of(keys@, objs@[j - 1], axis)
                    < key_of(keys@, #[trigger] objs@[b], axis) by {
                    if b > j {
                        assert(before[b] == objs@[b]);
                    }
                }
            }
            j = j - 1;
            moving = j > 0 && key_at(keys, objs[j - 1], axis) > key_at(keys, objs[j], axis);
        }
        proof {
            assert forall|a: int, b: int|
                0 <= a < b < i + 1 && b < n implies key_of(keys@, #[trigger] objs@[a], axis)
                <= key_of(keys@, #[trigger] objs@[b], axis) by {
                if b == j && a < j - 1 {
                    assert(key_of(keys@, objs@[a], axis) <= key_of(keys@, objs@[j - 1], axis));
                }
                if a == j {
                    assert(key_of(keys@, objs@[j as int], axis) < key_of(keys@, objs@[b], axis));
                }
            }
        }
        i = i + 1;
    }
}

/// The layout of a bounding-volume hierarchy: which objects sit in which
/// leaf, and along which axis each inner node split its objects.
#[derive(Debug)]
pub enum BvhTree {
    Leaf { object: usize },
    Node { axis: usize, left: Box<BvhTree>, right: Box<BvhTree> },
}

impl BvhTree {
    /// The objects of the leaves, left to right.
    pub open spec fn leaves(self) -> Seq<usize>
        decreases self,
    {
        match self {
            BvhTree::Leaf { object } => seq![object],
            BvhTree::Node { axis, left, right } => left.leaves() + right.leaves(),
        }
    }

    /// Every leaf names a known object, and every inner node keeps the
    /// objects with the smaller keys along its axis on the left.
    pub open spec fn ordered(self, keys: Seq<[u64; 3]>) -> bool
        decreases self,
    {
        match self {
            BvhTree::Leaf { object } => object < keys.len(),
            BvhTree::Node { axis, left, right } => {
                &&& axis < 3
                &&& left.ordered(keys)
                &&& right.ordered(keys)
                &&& forall|a: usize, b: usize|
                    left.leaves().contains(a) && right.leaves().contains(b) ==> key_of(
                        keys,
                        a,
                        axis,
                    ) <= key_of(keys, b, axis)
            },
        }
    }

    /// Every inner node puts the first half of its objects, rounded down, on
    /// the left.
    pub open spec fn halved(self) -> bool
        decreases self,
    {
        match self {
            BvhTree::Leaf { object } => true,
            BvhTree::Node { axis, left, right } => {
                &&& left.leaves().len() == (left.leaves().len() + right.leaves().len()) / 2
                &&& left.halved()
                &&& right.halved()
            },
        }
    }
}

/// Relies on rand's `thread_rng` and `Rng::gen_range`, which draws from a
/// non-empty half-open range and returns a value inside it.
#[verifier::external_body]
fn random_axis() -> (r: usize)
    ensures
        r < 3,
{
    rand::thread_rng().gen_range(0..3)
}

/// Builds the hierarchy over the objects `objs`, at least one.
fn build_from(objs: Vec<usize>, keys: &Vec<[u64; 3]>) -> (r: BvhTree)
    requires
        objs@.len() >= 1,
        valid_objects(keys@, objs@),
    ensures
        r.leaves().to_multiset() == objs@.to_multiset(),
        r.ordered(keys@),
        r.halved(),
    decreases objs@.len(),
{
    broadcast use group_to_multiset_ensures;

    if objs.len() == 1 {
        proof {
            assert(seq![objs@[0]] =~= objs@);
        }
        return BvhTree::Leaf { object: objs[0] };
    }
    let axis = random_axis();
    let mut sorted = objs;
    sort_by_axis(&mut sorted, keys, axis);
    let count: usize = sorted.len();
    let mid: usize = count / 2;
    let ghost whole = sorted@;
    let upper = sorted.split_off(mid);
    let lower = sorted;
    proof {
        assert(whole =~= lower@ + upper@);
        vstd::seq_lib::lemma_multiset_commutative(lower@, upper@);
    }
    let (left, right) = if count == 2 {
        (BvhTree::Leaf { object: lower[0] }, BvhTree::Leaf { object: upper[0] })
    } else {
        (build_from(lower, keys), build_from(upper, keys))
    };
    let ghost left_leaves = left.leaves();
    let ghost right_leaves = right.leaves();
    proof {
        if count == 2 {
            assert(left_leaves =~= lower@);
            assert(right_leaves =~= upper@);
            assert(whole[0] == lower@[0] && whole[1] == upper@[0]);
        }
        assert(left_leaves.to_multiset() == lower@.to_multiset());
        assert(right_leaves.to_multiset() == upper@.to_multiset());
        left_leaves.to_multiset_ensures();
        right_leaves.to_multiset_ensures();
        lower@.to_multiset_ensures();
        upper@.to_multiset_ensures();
        assert(left_leaves.len() == lower@.len());
        assert(right_leaves.len() == upper@.len());
        vstd::seq_lib::lemma_multiset_commutative(left_leaves, right_leaves);
        assert forall|a: usize, b: usize|
            left_leaves.contains(a) && right_leaves.contains(b) implies key_of(keys@, a, axis)
            <= key_of(keys@, b, axis) by {
            assert(left_leaves.to_multiset().count(a) > 0);
            assert(lower@.contains(a));
            assert(right_leaves.to_multiset().count(b) > 0);
            assert(upper@.contains(b));
            let ia = choose|ia: int| 0 <= ia < lower@.len() && lower@[ia] == a;
            let ib = choose|ib: int| 0 <= ib < upper@.len() && upper@[ib] == b;
            assert(whole[ia] == a);
            assert(whole[mid + ib] == b);
        }
    }
    proof {
        // What the node's own clauses need of its children.
        assert(left.halved() && right.halved());
        assert(left.ordered(keys@) && right.ordered(keys@));
    }
    BvhTree::Node { axis, left: Box::new(left), right: Box::new(right) }
}

/// The hierarchy over objects `0 .. keys.len()`, where `keys[i]` holds the
/// sort keys of object `i` along x, y and z; `None` when there are no objects.
pub fn build_bvh(keys: &Vec<[u64; 3]>) -> (r: Option<BvhTree>)
    ensures
        keys@.len() == 0 <==> r is None,
        r matches Some(t) ==> {
            &&& t.leaves().to_multiset() == Seq::new(keys@.len(), |i: int| i as usize).to_multiset()
            &&& t.ordered(keys@)
            &&& t.halved()
        },
{
    let n = keys.len();
    if n == 0 {
        return None;
    }
    let mut objs: Vec<usize> = Vec::new();
    let mut i: usize = 0;
    while i < n
        invariant
            i <= n,
            n == keys@.len(),
            objs@ == Seq::new(i as nat, |k: int| k as usize),
        decreases n - i,
    {
        objs.push(i);
        i = i + 1;
        proof {
            assert(objs@ =~= Seq::new(i as nat, |k: int| k as usize));
        }
    }
    Some(build_from(objs, keys))
}

} // verus!
