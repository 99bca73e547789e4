//! A pool of values addressed by generational handles.

use vstd::prelude::*;

verus! {

/// Index and generation of a slot of a [`Pool`]. A handle names the value that
/// was spawned into its slot at its generation, and nothing else.
#[derive(Clone, Copy, Debug, PartialEq, Eq, Hash, Structural)]
pub struct Handle {
    pub index: u32,
    pub generation: u32,
}

impl Handle {
    /// The handle that names nothing: generation zero is never given out.
    pub open spec fn none_spec() -> Handle {
        Handle { index: 0, generation: 0 }
    }

    pub open spec fn is_none_spec(&self) -> bool {
        self.index == 0 && self.generation == 0
    }

    /// The identifier under which a handle is kept in sets of integers.
    pub open spec fn key_spec(&self) -> u64 {
        (self.index as u64 * 0x1_0000_0000 + self.generation as u64) as u64
    }

    /// The handle whose key is `key`.
    pub open spec fn from_key_spec(key: u64) -> Handle {
        Handle {
            index: (key / 0x1_0000_0000) as u32,
            generation: (key % 0x1_0000_0000) as u32,
        }
    }

    pub fn none() -> (r: Handle)
        ensures
            r == Handle::none_spec(),
            r.is_none_spec(),
    {
        Handle { index: 0, generation: 0 }
    }

    pub fn new(index: u32, generation: u32) -> (r: Handle)
        ensures
            r.index == index,
            r.generation == generation,
    {
        Handle { index, generation }
    }

    pub fn is_none(&self) -> (r: bool)
        ensures
            r == self.is_none_spec(),
    {
        self.index == 0 && self.generation == 0
    }

    pub fn is_some(&self) -> (r: bool)
        ensures
            r == !self.is_none_spec(),
    {
        !(self.index == 0 && self.generation == 0)
    }

    pub fn index(&self) -> (r: u32)
        ensures
            r == self.index,
    {
        self.index
    }

    pub fn generation(&self) -> (r: u32)
        ensures
            r == self.generation,
    {
        self.generation
    }

    pub fn key(&self) -> (r: u64)
        ensures
            r == self.key_spec(),
    {
        let hi: u64 = self.index as u64;
        let lo: u64 = self.generation as u64;
        hi * 0x1_0000_0000 + lo
    }

    /// The handle whose key is `key`.
    pub fn from_key(key: u64) -> (r: Handle)
        ensures
            r == Handle::from_key_spec(key),
            r.key_spec() == key,
    {
        proof {
            lemma_key_of_handle(key);
        }
        Handle { index: (key / 0x1_0000_0000) as u32, generation: (key % 0x1_0000_0000) as u32 }
    }
}

/// Every integer of 64 bits is the key of the handle made from it.
pub proof fn lemma_key_of_handle(key: u64)
    ensures
        Handle::from_key_spec(key).key_spec() == key,
        key / 0x1_0000_0000 <= u32::MAX,
        key % 0x1_0000_0000 <= u32::MAX,
{
    let k = key as int;
    assert(k == 0x1_0000_0000 * (k / 0x1_0000_0000) + k % 0x1_0000_0000 && 0 <= k % 0x1_0000_0000
        < 0x1_0000_0000 && 0 <= k / 0x1_0000_0000 <= 0xffff_ffff) by (nonlinear_arith)
        requires
            0 <= k <= 0xffff_ffff_ffff_ffff,
    ;
}

/// Distinct handles have distinct keys.
pub proof fn lemma_key_injective(a: Handle, b: Handle)
    ensures
        a.key_spec() == b.key_spec() <==> a == b,
{
    if a.key_spec() == b.key_spec() {
        let ai = a.index as int;
        let bi = b.index as int;
        assert(ai * 0x1_0000_0000 + a.generation as int == bi * 0x1_0000_0000
            + b.generation as int);
        assert(ai == bi) by (nonlinear_arith)
            requires
                ai * 0x1_0000_0000 + a.generation as int == bi * 0x1_0000_0000
                    + b.generation as int,
                0 <= a.generation < 0x1_0000_0000,
                0 <= b.generation < 0x1_0000_0000,
        ;
    }
}

/// One slot of a pool: the generation of its latest tenant, and the tenant
/// while it lives there.
#[derive(Clone, Debug, PartialEq, Eq)]
pub struct PoolRecord<T> {
    pub generation: u32,
    pub payload: Option<T>,
}

/// Slots in a row. A slot is reused for a later value under a higher
/// generation, so a handle to a removed value never becomes valid again.
#[derive(Clone, Debug, PartialEq, Eq)]
pub struct Pool<T> {
    pub records: Vec<PoolRecord<T>>,
}

impl<T> Pool<T> {
    /// Every slot has a generation of at least one, and the slots can be
    /// counted in 32 bits.
    pub open spec fn wf(&self) -> bool {
        &&& self.records@.len() <= u32::MAX
        &&& forall|i: int| 0 <= i < self.records@.len() ==> (#[trigger] self.records@[i]).generation >= 1
    }

    /// Number of slots, vacant ones included.
    pub open spec fn capacity_spec(&self) -> nat {
        self.records@.len()
    }

    /// Whether slot `i` holds a value.
    pub open spec fn occupied(&self, i: int) -> bool {
        0 <= i < self.records@.len() && self.records@[i].payload is Some
    }

    /// The handle of the value in slot `i`.
    pub open spec fn handle_at(&self, i: int) -> Handle {
        Handle { index: i as u32, generation: self.records@[i].generation }
    }

    /// Whether `h` names a value of this pool.
    pub open spec fn contains(&self, h: Handle) -> bool {
        self.occupied(h.index as int) && self.records@[h.index as int].generation == h.generation
    }

    /// The value that `h` names.
    pub open spec fn get(&self, h: Handle) -> T
        recommends
            self.contains(h),
    {
        self.records@[h.index as int].payload->0
    }

    /// Whether another value can be spawned.
    pub open spec fn has_room(&self) -> bool {
        self.records@.len() < u32::MAX
    }

    /// Whether slot `i` can take a new tenant.
    pub open spec fn reusable(&self, i: int) -> bool {
        0 <= i < self.records@.len() && self.records@[i].payload is None
            && self.records@[i].generation < u32::MAX
    }

    pub fn new() -> (r: Pool<T>)
        ensures
            r.wf(),
            r.capacity_spec() == 0,
            forall|h: Handle| !r.contains(h),
    {
        Pool { records: Vec::new() }
    }

    /// Whether the pool is well formed.
    pub fn is_wf(&self) -> (r: bool)
        ensures
            r == self.wf(),
    {
        let n: usize = self.records.len();
        if n > u32::MAX as usize {
            return false;
        }
        let mut i: usize = 0;
        while i < n
            invariant
                n == self.records@.len(),
                i <= n,
                forall|j: int| 0 <= j < i ==> (#[trigger] self.records@[j]).generation >= 1,
            decreases n - i,
        {
            if self.records[i].generation == 0 {
                return false;
            }
            i += 1;
        }
        true
    }

    pub fn capacity(&self) -> (r: u32)
        requires
            self.wf(),
        ensures
            r == self.capacity_spec(),
    {
        self.records.len() as u32
    }

    /// The handle of the value in slot `index`, or the handle that names
    /// nothing where the slot is vacant or beyond the last slot.
    pub fn handle_from_index(&self, index: u32) -> (r: Handle)
        requires
            self.wf(),
        ensures
            self.occupied(index as int) ==> r == self.handle_at(index as int) && self.contains(r),
            !self.occupied(index as int) ==> r.is_none_spec(),
    {
        let i: usize = index as usize;
        if i < self.records.len() && self.records[i].payload.is_some() {
            Handle { index, generation: self.records[i].generation }
        } else {
            Handle { index: 0, generation: 0 }
        }
    }

    pub fn is_valid_handle(&self, handle: Handle) -> (r: bool)
        ensures
            r == self.contains(handle),
    {
        let i: usize = handle.index as usize;
        i < self.records.len() && self.records[i].payload.is_some() && self.records[i].generation
            == handle.generation
    }

    /// The value that `handle` names; the handle must be valid.
    pub fn borrow(&self, handle: Handle) -> (r: &T)
        requires
            self.contains(handle),
        ensures
            *r == self.get(handle),
    {
        self.records[handle.index as usize].payload.as_ref().unwrap()
    }

    /// The value that `handle` names, if it names one.
    pub fn try_borrow(&self, handle: Handle) -> (r: Option<&T>)
        ensures
            r is Some <==> self.contains(handle),
            r is Some ==> *r->0 == self.get(handle),
    {
        let i: usize = handle.index as usize;
        if i < self.records.len() && self.records[i].generation == handle.generation {
            self.records[i].payload.as_ref()
        } else {
            None
        }
    }

    /// Whether `next` is this pool after `value` was spawned into it under
    /// the handle `r`: into the lowest slot that can take a new tenant,
    /// under the next generation of that slot; where there is none, into a
    /// new slot at the end, under generation one. Values already in the
    /// pool keep their handles.
    pub open spec fn spawned(&self, next: Pool<T>, value: T, r: Handle) -> bool {
        &&& next.wf()
        &&& !r.is_none_spec()
        &&& !self.contains(r)
        &&& next.contains(r)
        &&& next.get(r) == value
        &&& forall|h: Handle|
            self.contains(h) ==> next.contains(h) && next.get(h) == self.get(h)
        &&& forall|h: Handle| next.contains(h) && h != r ==> self.contains(h)
        &&& self.reusable(r.index as int) || r.index == self.capacity_spec()
        &&& forall|i: int| 0 <= i < r.index ==> !self.reusable(i)
        &&& self.reusable(r.index as int) ==> r.generation == self.records@[r.index as int].generation
            + 1 && next.records@ == self.records@.update(
            r.index as int,
            PoolRecord { generation: r.generation, payload: Some(value) },
        )
        &&& !self.reusable(r.index as int) ==> r.generation == 1 && next.records@
            == self.records@.push(PoolRecord { generation: 1, payload: Some(value) })
    }

    /// Puts `value` into the pool and hands out its handle.
    pub fn spawn(&mut self, value: T) -> (r: Handle)
        requires
            old(self).wf(),
            old(self).has_room(),
        ensures
            old(self).spawned(*final(self), value, r),
    {
        let n: usize = self.records.len();
        let mut i: usize = 0;
        while i < n
            invariant
                n == self.records@.len(),
                i <= n,
                *self == *old(self),
                self.wf(),
                self.has_room(),
                forall|j: int| 0 <= j < i ==> !self.reusable(j),
            decreases n - i,
        {
            if self.records[i].payload.is_none() && self.records[i].generation < u32::MAX {
                let generation: u32 = self.records[i].generation + 1;
                self.records.set(i, PoolRecord { generation, payload: Some(value) });
                return Handle { index: i as u32, generation };
            }
            i += 1;
        }
        self.records.push(PoolRecord { generation: 1, payload: Some(value) });
        Handle { index: n as u32, generation: 1 }
    }

    /// Takes the value that `handle` names out of the pool; `None` where it
    /// names none. Only that handle stops being valid.
    pub fn free(&mut self, handle: Handle) -> (r: Option<T>)
        ensures
            old(self).contains(handle) ==> r == Some(old(self).get(handle)) && final(self).records@
                == old(self).records@.update(
                handle.index as int,
                PoolRecord { generation: handle.generation, payload: None },
            ),
            !old(self).contains(handle) ==> r is None && *final(self) == *old(self),
            !final(self).contains(handle),
            old(self).wf() ==> final(self).wf(),
            final(self).capacity_spec() == old(self).capacity_spec(),
            forall|h: Handle|
                h != handle ==> final(self).contains(h) == old(self).contains(h),
            forall|h: Handle|
                h != handle && old(self).contains(h) ==> final(self).get(h) == old(self).get(h),
    {
        let i: usize = handle.index as usize;
        if i < self.records.len() && self.records[i].generation == handle.generation
            && self.records[i].payload.is_some() {
            let slot = &mut self.records[i];
            slot.payload.take()
        } else {
            None
        }
    }

    /// The value that `handle` names, for changing it in place; the handle
    /// must be valid. No other value changes, and every handle stays as
    /// valid as it was.
    pub fn borrow_mut(&mut self, handle: Handle) -> (r: &mut T)
        requires
            old(self).contains(handle),
        ensures
            *r == old(self).get(handle),
            final(self).records@ == old(self).records@.update(
                handle.index as int,
                PoolRecord { generation: handle.generation, payload: Some(*final(r)) },
            ),
    {
        let slot = &mut self.records[handle.index as usize];
        match &mut slot.payload {
            Some(value) => value,
            None => vstd::pervasive::unreached(),
        }
    }

    /// Puts `value` in place of the value that `handle` names and hands the
    /// old one back; the handle must be valid. No other value changes, and
    /// every handle stays as valid as it was.
    pub fn replace(&mut self, handle: Handle, value: T) -> (r: T)
        requires
            old(self).contains(handle),
        ensures
            r == old(self).get(handle),
            final(self).records@ == old(self).records@.update(
                handle.index as int,
                PoolRecord { generation: handle.generation, payload: Some(value) },
            ),
            final(self).wf() == old(self).wf(),
            final(self).contains(handle),
            final(self).get(handle) == value,
            forall|h: Handle| final(self).contains(h) == old(self).contains(h),
            forall|h: Handle|
                old(self).contains(h) && h != handle ==> final(self).get(h) == old(self).get(h),
    {
        let i: usize = handle.index as usize;
        let slot = &mut self.records[i];
        let mut incoming = Some(value);
        core::mem::swap(&mut slot.payload, &mut incoming);
        let previous = incoming.unwrap();
        assert(self.records@ =~= old(self).records@.update(
            handle.index as int,
            PoolRecord { generation: handle.generation, payload: Some(value) },
        ));
        assert(old(self).wf() ==> self.wf()) by {
            if old(self).wf() {
                assert forall|j: int| 0 <= j < self.records@.len() implies (
                #[trigger] self.records@[j]).generation >= 1 by {
                    assert(old(self).records@[j].generation >= 1);
                }
            }
        }
        assert(self.wf() ==> old(self).wf()) by {
            if self.wf() {
                assert forall|j: int| 0 <= j < old(self).records@.len() implies (
                #[trigger] old(self).records@[j]).generation >= 1 by {
                    assert(self.records@[j].generation >= 1);
                }
            }
        }
        previous
    }
}

} // verus!
