use raytracer::bvh::{build_bvh, BvhTree};

fn leaves(t: &BvhTree, out: &mut Vec<usize>) {
    match t {
        BvhTree::Leaf { object } => out.push(*object),
        BvhTree::Node { left, right, .. } => {
            leaves(left, out);
            leaves(right, out);
        }
    }
}

fn check(t: &BvhTree, keys: &[[u64; 3]]) -> usize {
    match t {
        BvhTree::Leaf { object } => {
            assert!(*object < keys.len());
            1
        }
        BvhTree::Node { axis, left, right } => {
            assert!(*axis < 3);
            let nl = check(left, keys);
            let nr = check(right, keys);
            assert_eq!(nl, (nl + nr) / 2);
            let (mut l, mut r) = (vec![], vec![]);
            leaves(left, &mut l);
            leaves(right, &mut r);
            for a in &l {
                for b in &r {
                    assert!(keys[*a][*axis] <= keys[*b][*axis]);
                }
            }
            nl + nr
        }
    }
}

#[test]
fn no_objects_no_tree() {
    assert!(build_bvh(&vec![]).is_none());
}

#[test]
fn one_object_is_a_leaf() {
    match build_bvh(&vec![[3, 4, 5]]) {
        Some(BvhTree::Leaf { object }) => assert_eq!(object, 0),
        other => panic!("unexpected tree {:?}", other),
    }
}

#[test]
fn two_objects_are_two_sorted_leaves() {
    let keys = vec![[9, 9, 9], [1, 1, 1]];
    match build_bvh(&keys) {
        Some(BvhTree::Node { left, right, .. }) => {
            assert!(matches!(*left, BvhTree::Leaf { object: 1 }));
            assert!(matches!(*right, BvhTree::Leaf { object: 0 }));
        }
        other => panic!("unexpected tree {:?}", other),
    }
}

#[test]
fn every_object_lands_in_exactly_one_leaf() {
    let keys: Vec<[u64; 3]> = (0..23u64).map(|i| [(i * 7) % 23, (i * 5) % 11, 100 - i]).collect();
    for _ in 0..10 {
        let t = build_bvh(&keys).unwrap();
        assert_eq!(check(&t, &keys), keys.len());
        let mut l = vec![];
        leaves(&t, &mut l);
        l.sort();
        assert_eq!(l, (0..23).collect::<Vec<usize>>());
    }
}

#[test]
fn equal_keys_are_handled() {
    let keys = vec![[5, 5, 5]; 6];
    let t = build_bvh(&keys).unwrap();
    assert_eq!(check(&t, &keys), 6);
}
