//! The in-memory pooled backend: reference-counted handles drawn from a
//! preallocated chunk pool.
//!
//! The allocation work is done by the `refpool` crate.  Verified code
//! models each handle by two ghost attributes, kept in the handle itself:
//! an *identity*, standing for the storage slot the handle points at, and
//! the *value* stored in that slot.  This module maintains the model: a
//! fresh allocation gets an identity its pool never handed out before,
//! cloning a handle copies identity and value, and a copy-on-write
//! mutation rebinds the handle to an identity of its own.  Two trusted
//! bridges, [`PoolHandle::get`] and [`PoolHandle::ptr_eq`], tie the model
//! to what `refpool` really stores: reading a handle yields its modelled
//! value, and pointer-equal handles are exactly those that alias.

use vstd::prelude::*;

verus! {

/// Advisory capacity used when a pool is built without an explicit size.
pub const DEFAULT_POOL_SIZE: usize = 1024;

#[verifier::external_type_specification]
#[verifier::external_body]
#[verifier::reject_recursive_types(A)]
pub struct ExRefpoolPool<A>(refpool::Pool<A>);

#[verifier::external_type_specification]
#[verifier::external_body]
#[verifier::reject_recursive_types(A)]
pub struct ExRefpoolPoolRef<A>(refpool::PoolRef<A>);

/// Relies on `refpool::Pool::new`: builds a pool that keeps up to `size`
/// dropped allocations around for reuse.  It cannot fail; size zero gives
/// a pool that always allocates afresh.
#[verifier::external_body]
fn raw_pool_new<T>(size: usize) -> refpool::Pool<T> {
    refpool::Pool::new(size)
}

/// Relies on `refpool::PoolRef::new`: writes `value` into a fresh
/// allocation (reusing a pooled chunk when one is free) and returns the
/// sole handle to it.
#[verifier::external_body]
fn raw_new_ref<T>(pool: &refpool::Pool<T>, value: T) -> refpool::PoolRef<T> {
    refpool::PoolRef::new(pool, value)
}

/// Relies on `refpool::PoolRef`'s `Clone` impl: the clone points at the
/// same allocation as the original, which is untouched.
#[verifier::external_body]
fn raw_clone_ref<T>(this: &refpool::PoolRef<T>) -> refpool::PoolRef<T> {
    this.clone()
}

/// Relies on `refpool::PoolRef::make_mut`: when `this` is the unique
/// owner of its allocation it returns a direct mutable reference into it;
/// otherwise it first rebinds `this` to a clone of the value in a fresh
/// allocation, leaving the old allocation to its other owners.  Either
/// way `value` is then written behind `this` alone.
#[verifier::external_body]
fn raw_make_mut<T: refpool::PoolClone>(
    pool: &refpool::Pool<T>,
    this: &mut refpool::PoolRef<T>,
    value: T,
) {
    *refpool::PoolRef::make_mut(pool, this) = value;
}

/// What verified code knows of one handle: which allocation it points at,
/// and the value stored there.
pub ghost struct RefMeta<T> {
    pub id: int,
    pub value: T,
}

/// A reference-counted handle to a pool-owned value.
///
/// Cloning the handle shares the allocation; the value behind a shared
/// handle is never mutated, so every holder reads the same value for as
/// long as it holds on.
#[verifier::reject_recursive_types(T)]
pub struct PoolHandle<T> {
    inner: refpool::PoolRef<T>,
    meta: Ghost<RefMeta<T>>,
}

impl<T> PoolHandle<T> {
    /// The identity of the allocation this handle points at.  Identities
    /// are tokens of the issuing pool: handles of one pool carry equal
    /// identities exactly when they alias, while identities of handles
    /// from two different pools say nothing about each other.
    pub closed spec fn id(&self) -> int {
        self.meta@.id
    }

    /// The value this handle points at.
    pub closed spec fn value(&self) -> T {
        self.meta@.value
    }

    /// Read the value behind the handle.
    ///
    /// Relies on `refpool::PoolRef`'s `Deref` impl, which returns a
    /// reference to the allocation's value.  This module writes a
    /// handle's modelled value wherever it writes the allocation, so the
    /// two agree.
    #[verifier::external_body]
    pub fn get(this: &PoolHandle<T>) -> (r: &T)
        ensures
            *r == this.value(),
    {
        &*this.inner
    }

    /// Identity comparison: whether the two handles were derived from the
    /// same allocation, never true by coincidental value equality.
    ///
    /// Relies on `refpool::PoolRef::ptr_eq`, which compares the handles'
    /// pointers.  Aliasing handles got their identity from one another,
    /// and read one allocation, so a true answer means equal identities
    /// and equal values.  The converse direction is only claimed as its
    /// contrapositive: the model cannot relate handles of two different
    /// pools, whose identities may collide without the handles aliasing.
    #[verifier::external_body]
    pub fn ptr_eq(left: &PoolHandle<T>, right: &PoolHandle<T>) -> (r: bool)
        ensures
            r ==> left.id() == right.id(),
            r ==> left.value() == right.value(),
    {
        refpool::PoolRef::ptr_eq(&left.inner, &right.inner)
    }
}

impl<T> Clone for PoolHandle<T> {
    /// Share the allocation: the clone carries the same identity and
    /// value as the original.
    fn clone(&self) -> (r: Self)
        ensures
            r.id() == self.id(),
            r.value() == self.value(),
    {
        PoolHandle { inner: raw_clone_ref(&self.inner), meta: self.meta }
    }
}

/// The in-memory pooled backend: preallocates storage chunks up front to
/// amortize per-node allocation cost, and wraps values in reference-counted
/// [`PoolHandle`]s.
#[verifier::reject_recursive_types(T)]
pub struct RefPool<T> {
    inner: refpool::Pool<T>,
    next: Ghost<nat>,
}

impl<T> RefPool<T> {
    /// The identities this pool has handed out so far.
    pub closed spec fn allocated(&self) -> Set<int> {
        Set::new(|i: int| 0 <= i < self.next@)
    }

    /// Construct a pool that will keep up to `size` dropped allocations
    /// around for reuse.  The size is advisory: it bounds preallocation,
    /// never the number of live allocations, and any size is accepted.
    pub fn new(size: usize) -> (r: Self)
        ensures
            r.allocated() == Set::<int>::empty(),
    {
        let r = RefPool { inner: raw_pool_new(size), next: Ghost(0) };
        proof {
            assert(r.allocated() =~= Set::<int>::empty());
        }
        r
    }

    /// Take ownership of `value` and return a fresh handle to it.  The
    /// handle aliases no handle this pool handed out before.
    pub fn new_ref(&mut self, value: T) -> (h: PoolHandle<T>)
        ensures
            h.value() == value,
            !old(self).allocated().contains(h.id()),
            final(self).allocated() == old(self).allocated().insert(h.id()),
    {
        let ghost v = value;
        let ghost id = self.next@ as int;
        let inner = raw_new_ref(&self.inner, value);
        self.next = Ghost((id + 1) as nat);
        proof {
            assert(final(self).allocated() =~= old(self).allocated().insert(id));
        }
        PoolHandle { inner, meta: Ghost(RefMeta { id, value: v }) }
    }

    /// Copy-on-write mutation: rebind `this` to a handle whose value is
    /// `value`, without disturbing any other holder.  If `this` was the
    /// unique owner of its allocation the write happens in place with no
    /// further allocation; otherwise the old allocation is left to its
    /// other owners, which keep their value.  Afterwards `this` is
    /// uniquely owned until it is next cloned, so it gets an identity of
    /// its own.
    pub fn make_mut(&mut self, this: &mut PoolHandle<T>, value: T) where T: refpool::PoolClone
        ensures
            final(this).value() == value,
            !old(self).allocated().contains(final(this).id()),
            final(self).allocated() == old(self).allocated().insert(final(this).id()),
    {
        let ghost v = value;
        let ghost id = self.next@ as int;
        raw_make_mut(&self.inner, &mut this.inner, value);
        self.next = Ghost((id + 1) as nat);
        this.meta = Ghost(RefMeta { id, value: v });
        proof {
            assert(final(self).allocated() =~= old(self).allocated().insert(id));
        }
    }
}

impl<T: Default> RefPool<T> {
    /// A fresh handle to the value type's default value, with the same
    /// identity guarantees as [`new_ref`](Self::new_ref).  No canonical
    /// default instance is shared: each call allocates.
    pub fn default_ref(&mut self) -> (h: PoolHandle<T>)
        ensures
            call_ensures(T::default, (), h.value()),
            !old(self).allocated().contains(h.id()),
            final(self).allocated() == old(self).allocated().insert(h.id()),
    {
        let value = T::default();
        self.new_ref(value)
    }
}

impl<T> Clone for RefPool<T> {
    /// Relies on `refpool::Pool`'s `Clone` impl: the clone is a second
    /// handle to the same chunk pool, sharing its preallocated storage.
    #[verifier::external_body]
    fn clone(&self) -> (r: Self)
        ensures
            r.allocated() == self.allocated(),
    {
        RefPool { inner: self.inner.clone(), next: self.next }
    }
}

impl<T> Default for RefPool<T> {
    /// A pool with the advisory default capacity.
    fn default() -> (r: Self)
        ensures
            r.allocated() == Set::<int>::empty(),
    {
        RefPool::new(DEFAULT_POOL_SIZE)
    }
}

} // verus!
