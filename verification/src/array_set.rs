//! A set with a fixed maximum capacity, kept in insertion order.

use vstd::laws_eq::obeys_concrete_eq;
use vstd::laws_eq::obeys_eq;
use vstd::laws_eq::obeys_eq_spec_properties;
use vstd::prelude::*;
use vstd::std_specs::cmp::PartialEqSpec;
use vstd::std_specs::cmp::PartialEqSpecImpl;
use vstd::std_specs::convert::TryFromSpecImpl;

verus! {

/// A set of at most `CAP` distinct items.
#[derive(Debug)]
pub struct ArraySet<T, const CAP: usize> {
    mem: Vec<T>,
}

/// Why a set could not be built from a collection of items.
#[non_exhaustive]
#[derive(Debug)]
pub enum ArraySetError {
    ContainsDuplicates,
    LengthMismatch { max: usize, provided: usize },
}

/// Whether some item of `s`, compared first, equals `val` under the items'
/// own equality.
pub open spec fn holds<T: PartialEq>(s: Seq<T>, val: T) -> bool {
    exists|k: int| 0 <= k < s.len() && s[k].eq_spec(&val)
}

/// No item of `s` equals a later one under the items' own equality.
pub open spec fn distinct_items<T: PartialEq>(s: Seq<T>) -> bool {
    forall|i: int, j: int| 0 <= i < j < s.len() ==> !s[i].eq_spec(&s[j])
}

/// The contents after inserting `val` into `s` (capacity `cap`) and whether it
/// was added: it is added exactly when there is room and it is not present.
pub open spec fn spec_insert<T: PartialEq>(s: Seq<T>, cap: nat, val: T) -> (Seq<T>, bool) {
    if s.len() < cap && !holds(s, val) {
        (s.push(val), true)
    } else {
        (s, false)
    }
}

/// Removing the item at `idx` by moving the last item into its place.
pub open spec fn swap_remove_at<T>(s: Seq<T>, idx: int) -> Seq<T> {
    s.update(idx, s.last()).drop_last()
}

/// The first index at which an item equal to `val` occurs in `s`, if any.
pub open spec fn first_index<T: PartialEq>(s: Seq<T>, val: T) -> Option<int> {
    if holds(s, val) {
        Some(
            choose|i: int|
                0 <= i < s.len() && s[i].eq_spec(&val) && forall|j: int| 0 <= j < i ==> !s[j].eq_spec(&val),
        )
    } else {
        None
    }
}

/// The contents after removing `val` from `s`, and whether it was present.
pub open spec fn spec_remove<T: PartialEq>(s: Seq<T>, val: T) -> (Seq<T>, bool) {
    match first_index(s, val) {
        Some(i) => (swap_remove_at(s, i), true),
        None => (s, false),
    }
}

/// Two sequences hold the same items as sets do: equal length, and every item
/// of the first occurs in the second.
pub open spec fn same_members<T>(a: Seq<T>, b: Seq<T>) -> bool {
    a.len() == b.len() && forall|i: int| 0 <= i < a.len() ==> b.contains(#[trigger] a[i])
}

/// A sequence of items that a set of capacity `cap` may hold.
pub open spec fn valid_contents<T: PartialEq>(s: Seq<T>, cap: nat) -> bool {
    s.len() <= cap && distinct_items(s)
}

/// When the items' equality is plain equality, being present is containment,
/// and distinct items are items without duplicates.
pub proof fn lemma_concrete_eq<T: PartialEq>(s: Seq<T>, val: T)
    requires
        obeys_concrete_eq::<T>(),
    ensures
        holds(s, val) <==> s.contains(val),
        distinct_items(s) <==> s.no_duplicates(),
        forall|x: T, y: T| x.eq_spec(&y) <==> x == y,
{
    reveal(obeys_concrete_eq);
    if distinct_items(s) {
        assert forall|i: int, j: int| 0 <= i < s.len() && 0 <= j < s.len() && i != j implies s[i] != s[j] by {
            if i < j {
                assert(!s[i].eq_spec(&s[j]));
            } else {
                assert(!s[j].eq_spec(&s[i]));
            }
        }
    }
    if holds(s, val) {
        let k = choose|k: int| 0 <= k < s.len() && s[k].eq_spec(&val);
        assert(s[k] == val);
    }
    if s.contains(val) {
        let k = choose|k: int| 0 <= k < s.len() && s[k] == val;
        assert(s[k].eq_spec(&val));
    }
}

impl<T, const CAP: usize> View for ArraySet<T, CAP> {
    type V = Seq<T>;

    closed spec fn view(&self) -> Seq<T> {
        self.mem@
    }
}

impl<T: PartialEq, const CAP: usize> ArraySet<T, CAP> {
    /// The set is well formed: its items fit the capacity and none equals
    /// another.
    pub open spec fn wf(&self) -> bool {
        valid_contents(self@, CAP as nat)
    }
}

impl<T, const CAP: usize> ArraySet<T, CAP> {
    /// An empty set.
    pub fn new() -> (r: Self)
        ensures
            r@ == Seq::<T>::empty(),
    {
        ArraySet { mem: Vec::new() }
    }

    /// Whether the set holds no item.
    pub fn is_empty(&self) -> (r: bool)
        ensures
            r == (self@.len() == 0),
    {
        self.mem.len() == 0
    }

    /// The number of items in the set.
    pub fn len(&self) -> (r: usize)
        ensures
            r == self@.len(),
    {
        self.mem.len()
    }

    /// Removes every item.
    pub fn clear(&mut self)
        ensures
            final(self)@ == Seq::<T>::empty(),
    {
        if self.mem.len() != 0 {
            self.mem = Vec::new();
        }
    }
}

impl<T: PartialEq, const CAP: usize> ArraySet<T, CAP> {
    /// The index of the first item equal to `val`, if there is one. What is
    /// stated of the result holds when `T`'s `==` keeps to its specification.
    pub fn position(&self, val: &T) -> (r: Option<usize>)
        ensures
            r matches Some(i) ==> i < self@.len(),
            T::obeys_eq_spec() ==> match r {
                Some(i) => {
                    &&& self@[i as int].eq_spec(val)
                    &&& forall|j: int| 0 <= j < i ==> !self@[j].eq_spec(val)
                    &&& first_index(self@, *val) == Some(i as int)
                },
                None => !holds(self@, *val) && first_index(self@, *val) is None,
            },
    {
        let mut i: usize = 0;
        while i < self.mem.len()
            invariant
                i <= self@.len(),
                T::obeys_eq_spec() ==> forall|j: int| 0 <= j < i ==> !self@[j].eq_spec(val),
            decreases self@.len() - i,
        {
            if self.mem[i] == *val {
                proof {
                    if T::obeys_eq_spec() {
                        assert(self@[i as int].eq_spec(val));
                        assert(holds(self@, *val));
                        let k = choose|k: int|
                            0 <= k < self@.len() && self@[k].eq_spec(val) && forall|j: int| 0 <= j < k ==> !self@[j].eq_spec(val);
                        if k < i {
                            assert(!self@[k].eq_spec(val));
                        } else if k > i {
                            assert(!self@[i as int].eq_spec(val));
                        }
                    }
                }
                return Some(i);
            }
            i = i + 1;
        }
        None
    }

    /// Whether an item equal to `val` is in the set (when `T`'s `==` keeps to
    /// its specification).
    pub fn contains(&self, val: &T) -> (r: bool)
        ensures
            T::obeys_eq_spec() ==> r == holds(self@, *val),
    {
        self.position(val).is_some()
    }

    /// Adds `val` when there is room and no equal item is present; returns
    /// whether it was added.
    pub fn insert(&mut self, val: T) -> (r: bool)
        ensures
            r ==> final(self)@ == old(self)@.push(val),
            !r ==> final(self)@ == old(self)@,
            T::obeys_eq_spec() && old(self)@.len() <= CAP ==> (final(self)@, r) == spec_insert(old(self)@, CAP as nat, val),
            T::obeys_eq_spec() && old(self).wf() ==> final(self).wf(),
            old(self)@.len() <= CAP ==> final(self)@.len() <= CAP,
    {
        if self.mem.len() >= CAP || self.contains(&val) {
            return false;
        }
        proof {
            if T::obeys_eq_spec() && valid_contents(self@, CAP as nat) {
                let t = self@.push(val);
                assert forall|i: int, j: int| 0 <= i < j < t.len() implies !t[i].eq_spec(&t[j]) by {
                    if j == self@.len() as int {
                        assert(t[j] == val);
                        assert(t[i] == self@[i]);
                    } else {
                        assert(t[i] == self@[i] && t[j] == self@[j]);
                    }
                }
            }
        }
        self.mem.push(val);
        true
    }

    /// Removes the first item equal to `val`, moving the last item into its
    /// place; returns whether one was present. The set stays well formed when
    /// `T`'s equality is symmetric and transitive.
    pub fn remove(&mut self, val: &T) -> (r: bool)
        ensures
            r ==> exists|i: int| 0 <= i < old(self)@.len() && final(self)@ == swap_remove_at(old(self)@, i),
            !r ==> final(self)@ == old(self)@,
            T::obeys_eq_spec() ==> (final(self)@, r) == spec_remove(old(self)@, *val),
            obeys_eq::<T>() && old(self).wf() ==> final(self).wf(),
            final(self)@.len() <= old(self)@.len(),
    {
        match self.position(val) {
            Some(idx) => {
                let ghost s = self@;
                let _ = self.mem.swap_remove(idx);
                proof {
                    assert(self@ =~= swap_remove_at(s, idx as int));
                    if obeys_eq::<T>() && valid_contents(s, CAP as nat) {
                        lemma_swap_remove_valid(s, idx as int, CAP as nat);
                    }
                }
                true
            },
            None => false,
        }
    }
}

/// Whether some item of `s` equals a later one.
fn has_duplicates<T: PartialEq>(s: &[T]) -> (r: bool)
    ensures
        T::obeys_eq_spec() ==> r == !distinct_items(s@),
{
    let n = s.len();
    let mut idx: usize = 1;
    while idx < n
        invariant
            n == s@.len(),
            1 <= idx <= n || n == 0,
            T::obeys_eq_spec() ==> forall|i: int, j: int| 0 <= i < j < idx && j < n ==> !s@[i].eq_spec(&s@[j]),
        decreases n - idx,
    {
        let mut prev: usize = 0;
        while prev < idx
            invariant
                n == s@.len(),
                1 <= idx < n,
                prev <= idx,
                T::obeys_eq_spec() ==> forall|i: int, j: int| 0 <= i < j < idx ==> !s@[i].eq_spec(&s@[j]),
                T::obeys_eq_spec() ==> forall|i: int| 0 <= i < prev ==> !s@[i].eq_spec(&s@[idx as int]),
            decreases idx - prev,
        {
            if s[prev] == s[idx] {
                return true;
            }
            prev = prev + 1;
        }
        idx = idx + 1;
    }
    proof {
        if T::obeys_eq_spec() {
            assert forall|i: int, j: int| 0 <= i < j < s@.len() implies !s@[i].eq_spec(&s@[j]) by {
                if j < idx {
                } else {
                }
            }
        }
    }
    false
}

/// Moves the items of an array into a vector, in order.
#[verifier::external_body]
fn array_into_vec<T, const N: usize>(a: [T; N]) -> (v: Vec<T>)
    ensures
        v@ == a@,
{
    Vec::from(a)
}

impl<T: PartialEq + Clone, const CAP: usize> ArraySet<T, CAP> {
    /// Builds a set from clones of the items of `value`. Fails when there are
    /// more items than the capacity, or when an item occurs twice.
    pub fn from_slice(value: &[T]) -> (r: Result<Self, ArraySetError>)
        ensures
            value@.len() > CAP ==> r == Err::<Self, ArraySetError>(
                ArraySetError::LengthMismatch { max: CAP, provided: value@.len() as usize },
            ),
            T::obeys_eq_spec() && value@.len() <= CAP ==> (r is Err <==> !distinct_items(value@)),
            T::obeys_eq_spec() && value@.len() <= CAP && !distinct_items(value@) ==> r matches Err(ArraySetError::ContainsDuplicates),
            r matches Ok(set) ==> {
                &&& set@.len() == value@.len()
                &&& forall|i: int| 0 <= i < value@.len() ==> cloned::<T>(value@[i], #[trigger] set@[i])
                &&& (T::obeys_eq_spec() && forall|a: T, b: T| cloned::<T>(a, b) ==> a == b)
                    ==> set.wf() && set@ == value@
            },
    {
        if value.len() > CAP {
            return Err(ArraySetError::LengthMismatch { max: CAP, provided: value.len() });
        }
        if has_duplicates(value) {
            return Err(ArraySetError::ContainsDuplicates);
        }
        let mut mem: Vec<T> = Vec::new();
        let mut i: usize = 0;
        while i < value.len()
            invariant
                i <= value@.len(),
                mem@.len() == i,
                forall|j: int| 0 <= j < i ==> cloned::<T>(value@[j], #[trigger] mem@[j]),
            decreases value@.len() - i,
        {
            mem.push(value[i].clone());
            i = i + 1;
        }
        let set = ArraySet { mem };
        proof {
            if T::obeys_eq_spec() && forall|a: T, b: T| cloned::<T>(a, b) ==> a == b {
                assert(set@ =~= value@);
            }
        }
        Ok(set)
    }
}

impl<T: PartialEq, const CAP: usize> ArraySet<T, CAP> {
    /// Builds a set holding the items of `value`, in order. Fails when there
    /// are more items than the capacity, or when an item occurs twice.
    pub fn from_array<const LEN: usize>(value: [T; LEN]) -> (r: Result<Self, ArraySetError>)
        ensures
            LEN > CAP ==> r == Err::<Self, ArraySetError>(
                ArraySetError::LengthMismatch { max: CAP, provided: LEN },
            ),
            T::obeys_eq_spec() && LEN <= CAP ==> match r {
                Ok(set) => set.wf() && set@ == value@,
                Err(e) => e == ArraySetError::ContainsDuplicates && !distinct_items(value@),
            },
    {
        if LEN > CAP {
            return Err(ArraySetError::LengthMismatch { max: CAP, provided: LEN });
        }
        let mem = array_into_vec(value);
        if has_duplicates(mem.as_slice()) {
            return Err(ArraySetError::ContainsDuplicates);
        }
        Ok(ArraySet { mem })
    }
}

impl<T: PartialEq + Clone, const CAP: usize> TryFrom<&[T]> for ArraySet<T, CAP> {
    type Error = ArraySetError;

    /// As `from_slice`.
    fn try_from(value: &[T]) -> (r: Result<Self, Self::Error>)
        ensures
            value@.len() > CAP ==> r == Err::<Self, ArraySetError>(
                ArraySetError::LengthMismatch { max: CAP, provided: value@.len() as usize },
            ),
            T::obeys_eq_spec() && value@.len() <= CAP ==> (r is Err <==> !distinct_items(value@)),
            T::obeys_eq_spec() && value@.len() <= CAP && !distinct_items(value@) ==> r matches Err(ArraySetError::ContainsDuplicates),
            r matches Ok(set) ==> {
                &&& set@.len() == value@.len()
                &&& forall|i: int| 0 <= i < value@.len() ==> cloned::<T>(value@[i], #[trigger] set@[i])
                &&& (T::obeys_eq_spec() && forall|a: T, b: T| cloned::<T>(a, b) ==> a == b)
                    ==> set.wf() && set@ == value@
            },
    {
        Self::from_slice(value)
    }
}

impl<T: PartialEq + Clone, const CAP: usize> TryFromSpecImpl<&[T]> for ArraySet<T, CAP> {
    /// The result holds clones, which no spec value can name: callers go by
    /// `from_slice`.
    open spec fn obeys_try_from_spec() -> bool {
        false
    }

    open spec fn try_from_spec(v: &[T]) -> Result<Self, Self::Error> {
        arbitrary()
    }
}

impl<T: PartialEq, const LEN: usize, const CAP: usize> TryFrom<[T; LEN]> for ArraySet<T, CAP> {
    type Error = ArraySetError;

    /// As `from_array`.
    fn try_from(value: [T; LEN]) -> (r: Result<Self, Self::Error>)
        ensures
            LEN > CAP ==> r == Err::<Self, ArraySetError>(
                ArraySetError::LengthMismatch { max: CAP, provided: LEN },
            ),
            T::obeys_eq_spec() && LEN <= CAP ==> match r {
                Ok(set) => set.wf() && set@ == value@,
                Err(e) => e == ArraySetError::ContainsDuplicates && !distinct_items(value@),
            },
    {
        Self::from_array(value)
    }
}

impl<T: PartialEq, const LEN: usize, const CAP: usize> TryFromSpecImpl<[T; LEN]> for ArraySet<T, CAP> {
    /// The set's fields are private: callers go by `from_array`.
    open spec fn obeys_try_from_spec() -> bool {
        false
    }

    open spec fn try_from_spec(v: [T; LEN]) -> Result<Self, Self::Error> {
        arbitrary()
    }
}

impl<T, const CAP: usize> Default for ArraySet<T, CAP> {
    fn default() -> (r: Self)
        ensures
            r@ == Seq::<T>::empty(),
    {
        ArraySet::new()
    }
}

impl<T: Clone, const CAP: usize> Clone for ArraySet<T, CAP> {
    fn clone(&self) -> (r: Self)
        ensures
            r@.len() == self@.len(),
            forall|i: int| 0 <= i < self@.len() ==> cloned::<T>(self@[i], #[trigger] r@[i]),
            (forall|a: T, b: T| cloned::<T>(a, b) ==> a == b) ==> r@ == self@,
    {
        let mut mem: Vec<T> = Vec::new();
        let mut i: usize = 0;
        while i < self.mem.len()
            invariant
                i <= self.mem@.len(),
                mem@.len() == i,
                forall|j: int| 0 <= j < i ==> cloned::<T>(self@[j], #[trigger] mem@[j]),
            decreases self.mem@.len() - i,
        {
            mem.push(self.mem[i].clone());
            i = i + 1;
        }
        let r = ArraySet { mem };
        proof {
            if forall|a: T, b: T| cloned::<T>(a, b) ==> a == b {
                assert(r@ =~= self@);
            }
        }
        r
    }
}

impl<T: PartialEq, const CAP: usize, const OTHER_CAP: usize> PartialEq<ArraySet<T, OTHER_CAP>> for ArraySet<T, CAP> {
    /// Two sets are equal when they have the same length and every item of
    /// the first is in the second, whatever the order.
    fn eq(&self, other: &ArraySet<T, OTHER_CAP>) -> (r: bool) {
        if self.mem.len() != other.mem.len() {
            return false;
        }
        let mut i: usize = 0;
        while i < self.mem.len()
            invariant
                i <= self.mem@.len(),
                self.mem@.len() == other.mem@.len(),
                T::obeys_eq_spec() ==> forall|k: int| 0 <= k < i ==> contains_eq(other.mem@, #[trigger] self.mem@[k]),
            decreases self.mem@.len() - i,
        {
            let mut j: usize = 0;
            let mut found = false;
            while j < other.mem.len()
                invariant
                    j <= other.mem@.len(),
                    i < self.mem@.len(),
                    T::obeys_eq_spec() ==> (found <==> exists|k: int| 0 <= k < j && self.mem@[i as int].eq_spec(&other.mem@[k])),
                decreases other.mem@.len() - j,
            {
                if self.mem[i] == other.mem[j] {
                    found = true;
                }
                j = j + 1;
            }
            if !found {
                proof {
                    if <T as PartialEqSpec>::obeys_eq_spec() {
                        assert(!contains_eq(other.mem@, self.mem@[i as int]));
                        assert(!self.matches(other));
                    }
                }
                return false;
            }
            i = i + 1;
        }
        true
    }
}

impl<T: PartialEq, const CAP: usize, const OTHER_CAP: usize> PartialEqSpecImpl<ArraySet<T, OTHER_CAP>> for ArraySet<T, CAP> {
    open spec fn obeys_eq_spec() -> bool {
        <T as PartialEqSpec>::obeys_eq_spec()
    }

    open spec fn eq_spec(&self, other: &ArraySet<T, OTHER_CAP>) -> bool {
        self.matches(other)
    }
}

impl<T: PartialEq, const CAP: usize> ArraySet<T, CAP> {
    /// Same length, and every item of `self` is equal (under the items' own
    /// equality) to some item of `other`.
    pub closed spec fn matches<const OTHER_CAP: usize>(&self, other: &ArraySet<T, OTHER_CAP>) -> bool {
        &&& self.mem@.len() == other.mem@.len()
        &&& forall|k: int| 0 <= k < self.mem@.len() ==> contains_eq(other.mem@, #[trigger] self.mem@[k])
    }

    /// For well-formed sets whose items use plain equality, `matches` is the
    /// same as holding the same members.
    pub proof fn lemma_matches_same_members<const OTHER_CAP: usize>(&self, other: &ArraySet<T, OTHER_CAP>)
        requires
            self.wf(),
            other.wf(),
            obeys_concrete_eq::<T>(),
        ensures
            self.matches(other) <==> same_members(self@, other@),
    {
        reveal(obeys_concrete_eq);
        if self.matches(other) {
            assert forall|i: int| 0 <= i < self@.len() implies other@.contains(#[trigger] self@[i]) by {
                assert(contains_eq(other.mem@, self.mem@[i]));
                let k = choose|k: int| 0 <= k < other.mem@.len() && self.mem@[i].eq_spec(&other.mem@[k]);
                assert(other@[k] == self@[i]);
            }
        }
        if same_members(self@, other@) {
            assert forall|i: int| 0 <= i < self.mem@.len() implies contains_eq(other.mem@, #[trigger] self.mem@[i]) by {
                assert(other@.contains(self@[i]));
                let k = choose|k: int| 0 <= k < other@.len() && other@[k] == self@[i];
                assert(self.mem@[i].eq_spec(&other.mem@[k]));
            }
        }
    }
}

/// Whether some item of `s` is equal to `x` under the items' own equality.
pub open spec fn contains_eq<T: PartialEq>(s: Seq<T>, x: T) -> bool {
    exists|k: int| 0 <= k < s.len() && x.eq_spec(&s[k])
}

/// Removing by swapping with the last item keeps a valid sequence valid when
/// the items' equality is symmetric and transitive.
pub proof fn lemma_swap_remove_valid<T: PartialEq>(s: Seq<T>, idx: int, cap: nat)
    requires
        obeys_eq::<T>(),
        valid_contents(s, cap),
        0 <= idx < s.len(),
    ensures
        valid_contents(swap_remove_at(s, idx), cap),
        swap_remove_at(s, idx).len() == s.len() - 1,
{
    reveal(obeys_eq_spec_properties);
    let r = swap_remove_at(s, idx);
    let n = s.len() - 1;
    assert forall|i: int, j: int| 0 <= i < j < r.len() implies !r[i].eq_spec(&r[j]) by {
        if i == idx {
            assert(r[i] == s[n]);
            assert(r[j] == s[j]);
            assert(!s[j].eq_spec(&s[n]));
        } else if j == idx {
            assert(r[j] == s[n]);
            assert(r[i] == s[i]);
        } else {
            assert(r[i] == s[i] && r[j] == s[j]);
        }
    }
}

/// Plain equality is symmetric and transitive.
pub proof fn lemma_concrete_eq_obeys_eq<T: PartialEq>()
    requires
        obeys_concrete_eq::<T>(),
    ensures
        obeys_eq::<T>(),
{
    reveal(obeys_concrete_eq);
    reveal(obeys_eq_spec_properties);
}

/// For items with plain equality: inserting into a valid set keeps it valid,
/// and afterwards the item is a member unless the set was already full without
/// it; it is reported as added exactly when it was absent and there was room.
pub proof fn law_insert_membership<T: PartialEq>(s: Seq<T>, cap: nat, val: T)
    requires
        obeys_concrete_eq::<T>(),
        valid_contents(s, cap),
    ensures
        valid_contents(spec_insert(s, cap, val).0, cap),
        spec_insert(s, cap, val).0.contains(val) <==> (s.contains(val) || s.len() < cap),
        spec_insert(s, cap, val).1 <==> (!s.contains(val) && s.len() < cap),
        spec_insert(s, cap, val).0.to_set() == if spec_insert(s, cap, val).1 {
            s.to_set().insert(val)
        } else {
            s.to_set()
        },
{
    lemma_concrete_eq(s, val);
    if s.len() < cap && !s.contains(val) {
        let t = s.push(val);
        lemma_concrete_eq(t, val);
        assert(t[s.len() as int] == val);
        assert forall|i: int, j: int| 0 <= i < t.len() && 0 <= j < t.len() && i != j implies t[i] != t[j] by {
            if i == s.len() as int {
                assert(s.contains(t[j]));
            } else if j == s.len() as int {
                assert(s.contains(t[i]));
            }
        }
        assert(t.to_set() =~= s.to_set().insert(val)) by {
            assert forall|x: T| #[trigger] t.to_set().contains(x) <==> s.to_set().insert(val).contains(x) by {
                if t.contains(x) {
                    let k = choose|k: int| 0 <= k < t.len() && t[k] == x;
                    if k < s.len() {
                        assert(s[k] == x);
                    }
                }
                if s.contains(x) {
                    let k = choose|k: int| 0 <= k < s.len() && s[k] == x;
                    assert(t[k] == x);
                }
            }
        }
    }
}

/// For items with plain equality: removing from a valid set keeps it valid,
/// leaves the item absent, drops exactly that item from the members, and
/// reports whether it was present.
pub proof fn law_remove_membership<T: PartialEq>(s: Seq<T>, cap: nat, val: T)
    requires
        obeys_concrete_eq::<T>(),
        valid_contents(s, cap),
    ensures
        valid_contents(spec_remove(s, val).0, cap),
        !spec_remove(s, val).0.contains(val),
        spec_remove(s, val).1 <==> s.contains(val),
        spec_remove(s, val).0.to_set() == s.to_set().remove(val),
        spec_remove(s, val).0.len() == if s.contains(val) { s.len() - 1 } else { s.len() as int },
{
    lemma_concrete_eq(s, val);
    lemma_concrete_eq_obeys_eq::<T>();
    if s.contains(val) {
        assert(exists|i: int|
            0 <= i < s.len() && s[i].eq_spec(&val) && forall|j: int| 0 <= j < i ==> !s[j].eq_spec(&val)) by {
            let k = choose|k: int| 0 <= k < s.len() && s[k] == val;
            assert(s[k].eq_spec(&val));
            assert forall|j: int| 0 <= j < k implies !s[j].eq_spec(&val) by {
                assert(s[j] != s[k]);
            }
        }
        let i = first_index(s, val)->0;
        assert(s[i] == val);
        lemma_swap_remove_valid(s, i, cap);
        let r = swap_remove_at(s, i);
        let n = s.len() - 1;
        assert forall|x: T| #[trigger] r.to_set().contains(x) <==> s.to_set().remove(val).contains(x) by {
            if r.to_set().contains(x) {
                let k = choose|k: int| 0 <= k < r.len() && r[k] == x;
                let ok = if k == i { n } else { k };
                assert(s[ok] == x);
                assert(ok != i);
                assert(s[ok] != s[i]);
                assert(s.contains(x));
            }
            if s.to_set().remove(val).contains(x) {
                let k = choose|k: int| 0 <= k < s.len() && s[k] == x;
                assert(k != i);
                if k == n {
                    assert(r[i] == x);
                } else {
                    assert(r[k] == x);
                }
            }
        }
        assert(r.to_set() =~= s.to_set().remove(val));
        assert(!r.to_set().contains(val));
    } else {
        assert(s.to_set().remove(val) =~= s.to_set());
    }
}

/// Inserting an item that was added and then removing it gives back exactly
/// the contents from before, for any item type whose `==` finds the item
/// equal to itself.
pub proof fn law_insert_then_remove<T: PartialEq>(s: Seq<T>, cap: nat, val: T)
    requires
        val.eq_spec(&val),
        spec_insert(s, cap, val).1,
    ensures
        spec_remove(spec_insert(s, cap, val).0, val) == (s, true),
{
    let t = s.push(val);
    let n = s.len() as int;
    assert(t[n] == val);
    assert(holds(t, val));
    assert(forall|j: int| 0 <= j < n ==> !t[j].eq_spec(&val)) by {
        assert forall|j: int| 0 <= j < n implies !t[j].eq_spec(&val) by {
            assert(t[j] == s[j]);
        }
    }
    let i = first_index(t, val)->0;
    assert(i == n) by {
        if i < n {
            assert(!t[i].eq_spec(&val));
        }
    }
    assert(swap_remove_at(t, n) =~= s);
}

/// Two sets whose items are the same up to order are equal under `==`, for
/// any item type whose `==` finds each item equal to itself; so inserting
/// the same items in another order gives an equal set.
pub proof fn law_reordered_sets_equal<T: PartialEq, const CAP: usize, const OTHER_CAP: usize>(
    a: &ArraySet<T, CAP>,
    b: &ArraySet<T, OTHER_CAP>,
)
    requires
        a@.to_multiset() == b@.to_multiset(),
        forall|x: T| #[trigger] x.eq_spec(&x),
    ensures
        a.matches(b),
{
    a@.to_multiset_ensures();
    b@.to_multiset_ensures();
    assert forall|k: int| 0 <= k < a.mem@.len() implies contains_eq(b.mem@, #[trigger] a.mem@[k]) by {
        let x = a@[k];
        assert(a@.contains(x));
        assert(a@.to_multiset().count(x) > 0);
        assert(b@.contains(x));
        let j = choose|j: int| 0 <= j < b@.len() && b@[j] == x;
        assert(x.eq_spec(&b.mem@[j]));
    }
}

/// A valid set holds as many items as it has distinct members.
pub proof fn law_length_counts_members<T: PartialEq>(s: Seq<T>, cap: nat)
    requires
        obeys_concrete_eq::<T>(),
        valid_contents(s, cap),
    ensures
        s.to_set().len() == s.len(),
        s.len() <= cap,
{
    lemma_concrete_eq(s, s[0]);
    s.unique_seq_to_set();
}

/// For valid sets, equality as computed by `==` (same length, every item of
/// one in the other) holds exactly when they have the same members, whatever
/// the order in which the items were inserted.
pub proof fn law_equality_ignores_order<T: PartialEq>(a: Seq<T>, b: Seq<T>, cap_a: nat, cap_b: nat)
    requires
        obeys_concrete_eq::<T>(),
        valid_contents(a, cap_a),
        valid_contents(b, cap_b),
    ensures
        same_members(a, b) <==> a.to_set() == b.to_set(),
{
    lemma_concrete_eq(a, a[0]);
    lemma_concrete_eq(b, b[0]);
    a.unique_seq_to_set();
    b.unique_seq_to_set();
    if same_members(a, b) {
        assert forall|x: T| #[trigger] a.to_set().contains(x) implies b.to_set().contains(x) by {
            let k = choose|k: int| 0 <= k < a.len() && a[k] == x;
            assert(b.contains(a[k]));
        }
        vstd::set_lib::lemma_len_subset(a.to_set(), b.to_set());
        assert(a.to_set() =~= b.to_set()) by {
            assert forall|x: T| #[trigger] b.to_set().contains(x) implies a.to_set().contains(x) by {
                if !a.to_set().contains(x) {
                    vstd::set_lib::lemma_len_subset(a.to_set(), b.to_set().remove(x));
                }
            }
        }
    }
    if a.to_set() == b.to_set() {
        assert forall|i: int| 0 <= i < a.len() implies b.contains(#[trigger] a[i]) by {
            assert(a.to_set().contains(a[i]));
        }
    }
}

} // verus!
