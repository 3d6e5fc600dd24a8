use std::fmt::Debug;
use std::hash::{BuildHasher, Hasher, RandomState};
use std::rc::{Rc, Weak};

use moss::array_set::{ArraySet, ArraySetError};

struct DropTracker {
    live: Vec<Weak<u64>>,
}

impl DropTracker {
    fn new() -> Self {
        Self { live: Vec::new() }
    }

    fn build(&mut self) -> DropCheck {
        let random = RandomState::new().build_hasher().finish();
        let marker = Rc::new(random);
        self.live.push(Rc::downgrade(&marker));
        DropCheck(marker)
    }

    fn all_live(&self) -> bool {
        self.live.iter().all(|weak| weak.strong_count() > 0)
    }

    fn all_dead(&self) -> bool {
        self.live.iter().all(|weak| weak.strong_count() == 0)
    }
}

#[derive(PartialEq, Eq, Hash, Debug)]
struct DropCheck(Rc<u64>);

fn generate<T: PartialEq + Debug, const CAP: usize>(iter: impl IntoIterator<Item = T>) -> ArraySet<T, CAP> {
    let mut iter = iter.into_iter();
    let arr: [T; CAP] = std::array::from_fn(|_| iter.next().unwrap());
    ArraySet::try_from(arr).expect("Convert")
}

#[test]
fn insert_contains_and_remove() {
    let mut set: ArraySet<usize, 10> = ArraySet::new();

    for elem in 0..10 {
        assert!(set.insert(elem));
        assert_eq!(set.len(), elem + 1);
        assert!(!set.insert(elem));
        assert_eq!(set.len(), elem + 1);
        for prev in 0..=elem {
            assert!(set.contains(&prev))
        }
    }
    assert_eq!(set.len(), 10);

    assert!(!set.insert(10));
    assert_eq!(set.len(), 10);

    for elem in 0..10 {
        assert!(set.remove(&elem));
        assert_eq!(set.len(), 9 - elem)
    }
    assert_eq!(set.len(), 0);

    for elem in 0..10 {
        assert!(!set.contains(&elem));
        assert!(!set.remove(&elem));
        assert_eq!(set.len(), 0)
    }
    assert_eq!(set.len(), 0);
}

#[test]
fn does_not_contain_unseen_items() {
    let mut set: ArraySet<usize, 10> = ArraySet::new();
    for elem in 10..20 {
        assert!(!set.contains(&elem))
    }
    (0..10).for_each(|i| {
        set.insert(i);
    });
    for elem in 10..20 {
        assert!(!set.contains(&elem));
        assert!(!set.remove(&elem));
    }
}

#[test]
fn conversions() {
    let array: [usize; 10] = std::array::from_fn(|i| i);

    let mut set: ArraySet<usize, 10> = ArraySet::try_from(array.as_slice()).expect("Convert");
    for elem in 0..10 {
        assert!(set.contains(&elem))
    }

    set = ArraySet::try_from(array).expect("Convert");
    for elem in 0..10 {
        assert!(set.contains(&elem))
    }
}

#[test]
fn clear_and_reuse() {
    let mut set: ArraySet<usize, 10> = generate(0..10);

    set.clear();
    assert!(set.is_empty());
    assert_eq!(set.len(), 0);

    for elem in 10..20 {
        assert!(set.insert(elem));
        assert_eq!(set.len(), elem - 9);
        assert!(!set.insert(elem));
        assert_eq!(set.len(), elem - 9);
        for prev in 10..=elem {
            assert!(set.contains(&prev))
        }
    }
}

#[test]
fn equality() {
    let set: ArraySet<usize, 10> = generate(0..10);
    let mut other: ArraySet<usize, 10> = generate(0..10);

    assert_eq!(set, other);

    other.clear();
    for elem in (0..10).rev() {
        other.insert(elem);
    }

    assert_eq!(set, other);
}

#[test]
fn cloneable() {
    let mut set: ArraySet<usize, 10> = ArraySet::new();
    for elem in 0..10 {
        assert!(set.insert(elem));
        let other = set.clone();
        assert_eq!(set, other)
    }
}

#[test]
fn drop_check() {
    let mut set: ArraySet<DropCheck, 10> = ArraySet::new();

    let mut tracker = DropTracker::new();
    (0..10).for_each(|_| assert!(set.insert(tracker.build())));
    assert!(tracker.all_live());

    drop(set);
    assert!(tracker.all_dead());

    let mut tracker = DropTracker::new();
    let set: ArraySet<DropCheck, 10> = generate((0..10).map(|_| tracker.build()));
    assert!(tracker.all_live());

    drop(set);
    assert!(tracker.all_dead());
}

#[test]
fn array_set_rejects_duplicates_and_overflow() {
    let dup: Result<ArraySet<usize, 4>, ArraySetError> = ArraySet::try_from([1usize, 2, 2]);
    assert!(matches!(dup, Err(ArraySetError::ContainsDuplicates)));

    let long: Result<ArraySet<usize, 2>, ArraySetError> = ArraySet::try_from([1usize, 2, 3]);
    assert!(matches!(long, Err(ArraySetError::LengthMismatch { max: 2, provided: 3 })));

    let from_slice: Result<ArraySet<usize, 2>, ArraySetError> = ArraySet::try_from(&[1usize, 2, 3][..]);
    assert!(matches!(from_slice, Err(ArraySetError::LengthMismatch { max: 2, provided: 3 })));
}

#[test]
fn array_set_remove_keeps_other_members() {
    let mut set: ArraySet<usize, 5> = ArraySet::new();
    for e in [3usize, 1, 4, 5] {
        assert!(set.insert(e));
    }
    assert!(set.remove(&3));
    assert_eq!(set.len(), 3);
    assert!(set.contains(&1) && set.contains(&4) && set.contains(&5));
    assert!(!set.contains(&3));
    assert_eq!(set.position(&9), None);
    assert!(set.position(&4).is_some());
}

#[test]
fn array_set_of_strings_and_positions() {
    let mut set: ArraySet<String, 3> = ArraySet::new();
    assert!(set.insert(String::from("a")));
    assert!(set.insert(String::from("b")));
    assert!(!set.insert(String::from("a")));
    assert_eq!(set.position(&String::from("b")), Some(1));
    assert_eq!(set.position(&String::from("z")), None);
    assert!(set.insert(String::from("c")));
    assert!(!set.insert(String::from("d")));
    assert!(set.remove(&String::from("a")));
    assert_eq!(set.position(&String::from("c")), Some(0));
    assert_eq!(set.len(), 2);
    assert!(!set.contains(&String::from("a")));
}
