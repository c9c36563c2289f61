//! Generic container helpers — index swap, range normalization, and
//! sorted-sequence search — together with reclaim-or-clone for shared
//! handles and the id-indexed pool backend.

use vstd::prelude::*;
use core::cmp::Ordering;

verus! {

/// The arrangement of `s` with the elements at positions `a` and `b`
/// exchanged.
pub open spec fn swapped<T>(s: Seq<T>, a: int, b: int) -> Seq<T> {
    s.update(a, s[b]).update(b, s[a])
}

/// Exchange the elements at positions `a` and `b` of a vector.
///
/// The element type needs no default or placeholder value: the exchange is
/// done by removing both elements and reinserting them in each other's
/// place.  Swapping a position with itself is a no-op.
pub fn swap_indices<T>(vector: &mut Vec<T>, a: usize, b: usize)
    requires
        a < old(vector).len(),
        b < old(vector).len(),
    ensures
        final(vector)@ == swapped(old(vector)@, a as int, b as int),
{
    if a == b {
        proof {
            assert(vector@ =~= swapped(vector@, a as int, b as int));
        }
        return;
    }
    let ghost s = vector@;
    let lo: usize = if a < b { a } else { b };
    let hi: usize = if a < b { b } else { a };
    let x_lo = vector.remove(lo);
    let x_hi = vector.remove(hi - 1);
    vector.insert(lo, x_hi);
    vector.insert(hi, x_lo);
    proof {
        assert(vector@ =~= swapped(s, a as int, b as int));
    }
}

/// Exchanging two positions and then exchanging them again restores the
/// original arrangement.
pub proof fn lemma_swap_twice_restores<T>(s: Seq<T>, a: int, b: int)
    requires
        0 <= a < s.len(),
        0 <= b < s.len(),
    ensures
        swapped(swapped(s, a, b), a, b) == s,
{
    assert(swapped(swapped(s, a, b), a, b) =~= s);
}

/// Exchanging a position with itself changes nothing.
pub proof fn lemma_swap_self_identity<T>(s: Seq<T>, a: int)
    requires
        0 <= a < s.len(),
    ensures
        swapped(s, a, a) == s,
{
    assert(swapped(s, a, a) =~= s);
}

/// Scan `v`, assumed sorted ascending under `cmp`, for the first element
/// comparing equal.  Returns `Ok` with its index, or `Err` with the
/// insertion index: the index of the first element comparing greater, or
/// the length of `v` if every element compares less.  The contract matches
/// a binary search's insertion point, so callers may use either
/// interchangeably.
pub fn linear_search_by<A, F: Fn(&A) -> Ordering>(v: &Vec<A>, cmp: F) -> (r: Result<usize, usize>)
    requires
        forall|i: int| 0 <= i < v@.len() ==> call_requires(cmp, (&v@[i],)),
    ensures
        match r {
            Ok(i) => {
                &&& 0 <= i < v@.len()
                &&& call_ensures(cmp, (&v@[i as int],), Ordering::Equal)
                &&& forall|j: int| 0 <= j < i ==> call_ensures(cmp, (&v@[j],), Ordering::Less)
            },
            Err(i) => {
                &&& 0 <= i <= v@.len()
                &&& forall|j: int| 0 <= j < i ==> call_ensures(cmp, (&v@[j],), Ordering::Less)
                &&& i < v@.len() ==> call_ensures(cmp, (&v@[i as int],), Ordering::Greater)
            },
        },
{
    let mut pos: usize = 0;
    while pos < v.len()
        invariant
            0 <= pos <= v@.len(),
            forall|i: int| 0 <= i < v@.len() ==> call_requires(cmp, (&v@[i],)),
            forall|j: int| 0 <= j < pos ==> call_ensures(cmp, (&v@[j],), Ordering::Less),
        decreases v@.len() - pos,
    {
        match cmp(&v[pos]) {
            Ordering::Equal => {
                return Ok(pos);
            },
            Ordering::Greater => {
                return Err(pos);
            },
            Ordering::Less => {},
        }
        pos = pos + 1;
    }
    Err(pos)
}

/// One endpoint of a range of positions, mirroring the three ways a caller
/// can bound a range: closed, open, or absent.
#[derive(Clone, Copy, Debug)]
pub enum RangeBound {
    Included(usize),
    Excluded(usize),
    Unbounded,
}

/// The first position selected by `b` when `b` is the lower endpoint.
pub open spec fn start_of(b: RangeBound) -> int {
    match b {
        RangeBound::Included(i) => i as int,
        RangeBound::Excluded(i) => i + 1,
        RangeBound::Unbounded => 0,
    }
}

/// The first position past those selected by `b` when `b` is the upper
/// endpoint; an absent bound falls back to `right_unbounded`.
pub open spec fn end_of(b: RangeBound, right_unbounded: int) -> int {
    match b {
        RangeBound::Included(i) => i + 1,
        RangeBound::Excluded(i) => i as int,
        RangeBound::Unbounded => right_unbounded,
    }
}

/// Normalize a pair of range endpoints to a canonical half-open
/// `[start, end)` range, substituting `right_unbounded` for an open upper
/// end.
pub fn to_range(start: RangeBound, end: RangeBound, right_unbounded: usize) -> (r: core::ops::Range<usize>)
    requires
        start matches RangeBound::Excluded(i) ==> i < usize::MAX,
        end matches RangeBound::Included(i) ==> i < usize::MAX,
    ensures
        r.start == start_of(start),
        r.end == end_of(end, right_unbounded as int),
{
    let start_index: usize = match start {
        RangeBound::Included(i) => i,
        RangeBound::Excluded(i) => i + 1,
        RangeBound::Unbounded => 0,
    };
    let end_index: usize = match end {
        RangeBound::Included(i) => i + 1,
        RangeBound::Excluded(i) => i,
        RangeBound::Unbounded => right_unbounded,
    };
    start_index..end_index
}

/// Reclaim the value out of a shared handle, or clone it.
///
/// If `r` is the sole owner of its value the value is returned directly,
/// with no copy; otherwise the pointee is cloned and every other owner
/// keeps the original, untouched.
pub fn clone_ref<A: Clone>(r: std::rc::Rc<A>) -> (result: A)
    ensures
        cloned::<A>(*r, result),
{
    match std::rc::Rc::try_unwrap(r) {
        Ok(value) => value,
        Err(shared) => (*shared).clone(),
    }
}

/// An id-indexed pool backend: values live in a side table keyed by a
/// plain integer id, and the id itself is the handle.
///
/// This backend exists to show that the pool capability set generalizes
/// beyond in-process memory: identity is integer equality and the table,
/// not the handles, owns the values.  The table is a placeholder for an
/// out-of-process store; no on-disk value format is defined here, and
/// binding the pool to a filesystem directory is its caller's step.
/// Freed ids go on a free list and are handed out again, so the table
/// does not grow by one slot per allocation forever.
pub struct FilePool<T> {
    slots: Vec<Option<T>>,
    free: Vec<usize>,
}

impl<T> View for FilePool<T> {
    type V = Map<int, T>;

    /// The contents of the pool: a map from live id to stored value.
    closed spec fn view(&self) -> Map<int, T> {
        Map::new(
            |i: int| 0 <= i < self.slots@.len() && self.slots@[i] is Some,
            |i: int| self.slots@[i]->0,
        )
    }
}

impl<T> FilePool<T> {
    /// The free list holds distinct, in-bounds ids of empty slots.
    pub closed spec fn wf(&self) -> bool {
        &&& forall|i: int|
            0 <= i < self.free@.len() ==> self.free@[i] < self.slots@.len()
                && self.slots@[self.free@[i] as int] is None
        &&& forall|i: int, j: int|
            0 <= i < j < self.free@.len() ==> self.free@[i] != self.free@[j]
    }

    /// Construct a pool with an advisory capacity: `size` slots are set
    /// up empty and put on the free list, but the pool grows past them
    /// freely.  Construction cannot fail for any size.
    pub fn new(size: usize) -> (r: Self)
        ensures
            r.wf(),
            r@ == Map::<int, T>::empty(),
    {
        let mut slots: Vec<Option<T>> = Vec::new();
        let mut free: Vec<usize> = Vec::new();
        let mut i: usize = 0;
        while i < size
            invariant
                slots@.len() == i,
                free@.len() == i,
                i <= size,
                forall|j: int| 0 <= j < i ==> slots@[j] is None,
                forall|j: int| 0 <= j < i ==> free@[j] == j,
            decreases size - i,
        {
            slots.push(None);
            free.push(i);
            i = i + 1;
        }
        let r = FilePool { slots, free };
        proof {
            assert(r@ =~= Map::<int, T>::empty());
        }
        r
    }

    /// Take ownership of `value` and return a fresh id under which it is
    /// now stored.  The id aliases no live handle: it was either never
    /// handed out or has been released since.
    pub fn new_ref(&mut self, value: T) -> (id: usize)
        requires
            old(self).wf(),
        ensures
            final(self).wf(),
            !old(self)@.contains_key(id as int),
            final(self)@ == old(self)@.insert(id as int, value),
    {
        let id: usize;
        let popped = self.free.pop();
        match popped {
            Some(slot) => {
                id = slot;
                self.slots.set(id, Some(value));
            },
            None => {
                id = self.slots.len();
                self.slots.push(Some(value));
            },
        }
        proof {
            assert(final(self)@ =~= old(self)@.insert(id as int, value));
        }
        id
    }

    /// Identity comparison for id handles: plain integer equality.
    pub fn ptr_eq(left: &usize, right: &usize) -> (r: bool)
        ensures
            r == (left == right),
    {
        left == right
    }

    /// Read the value stored under `id`, if any.
    pub fn get(&self, id: usize) -> (r: Option<&T>)
        ensures
            match r {
                Some(v) => self@.contains_key(id as int) && *v == self@[id as int],
                None => !self@.contains_key(id as int),
            },
    {
        if id < self.slots.len() {
            self.slots[id].as_ref()
        } else {
            None
        }
    }

    /// Copy-on-write for the id-indexed backend.
    ///
    /// Ids are freely copyable, so the pool cannot tell whether `this` is
    /// uniquely held; the write therefore always goes under a fresh id and
    /// the handle is rebound to it, leaving the old entry in place for any
    /// other holder.  A holder that knows an id is dead reclaims it with
    /// [`release`](Self::release).
    pub fn make_mut(&mut self, this: &mut usize, value: T)
        requires
            old(self).wf(),
            old(self)@.contains_key(*old(this) as int),
        ensures
            final(self).wf(),
            !old(self)@.contains_key(*final(this) as int),
            final(self)@ == old(self)@.insert(*final(this) as int, value),
    {
        let id = self.new_ref(value);
        *this = id;
    }

    /// Drop the value stored under `this` and put the id up for reuse.
    /// Releasing an id that is not live does nothing.
    pub fn release(&mut self, this: usize)
        requires
            old(self).wf(),
        ensures
            final(self).wf(),
            final(self)@ == old(self)@.remove(this as int),
    {
        if this < self.slots.len() && self.slots[this].is_some() {
            self.slots.set(this, None);
            self.free.push(this);
        }
        proof {
            assert(final(self)@ =~= old(self)@.remove(this as int));
        }
    }
}

impl<T: Default> FilePool<T> {
    /// A handle to the value type's default value.  This backend offers no
    /// sharing of a canonical default: each call stores a fresh default
    /// value under a fresh id, with the same identity guarantees as
    /// [`new_ref`](Self::new_ref).
    pub fn default_ref(&mut self) -> (id: usize)
        requires
            old(self).wf(),
        ensures
            final(self).wf(),
            !old(self)@.contains_key(id as int),
            final(self)@.dom() == old(self)@.dom().insert(id as int),
            call_ensures(T::default, (), final(self)@[id as int]),
            forall|k: int|
                old(self)@.contains_key(k) ==> final(self)@[k] == old(self)@[k],
    {
        let value = T::default();
        let id = self.new_ref(value);
        proof {
            assert(final(self)@.dom() =~= old(self)@.dom().insert(id as int));
        }
        id
    }
}

} // verus!
