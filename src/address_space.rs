//! Segments of words, each bound to a 32-bit identifier.
use std::collections::HashMap;
use vstd::prelude::*;

verus! {

use crate::error::UmError;

broadcast use vstd::std_specs::hash::group_hash_axioms;

/// A segment of `len` words, all zero.
pub open spec fn zeroed(len: nat) -> Seq<u32> {
    Seq::new(len, |i: int| 0u32)
}

/// The word at `index` of segment `id` of `m`, or the fault of reading it.
pub open spec fn read_word(m: Map<u32, Seq<u32>>, id: u32, index: u32) -> Result<u32, UmError> {
    if !m.contains_key(id) {
        Err(UmError::UnmappedSegment(id))
    } else if index >= m[id].len() {
        Err(UmError::OutOfBoundsIndex { segment: id, index })
    } else {
        Ok(m[id][index as int])
    }
}

/// `m` after storing `value` at `index` of segment `id`, or the fault of doing so.
pub open spec fn write_word(m: Map<u32, Seq<u32>>, id: u32, index: u32, value: u32) -> Result<
    Map<u32, Seq<u32>>,
    UmError,
> {
    match read_word(m, id, index) {
        Ok(_) => Ok(m.insert(id, m[id].update(index as int, value))),
        Err(e) => Err(e),
    }
}

/// `after` is `before` with a new segment of `size` zero words bound to `id`,
/// an identifier that is neither 0 nor mapped in `before`.
pub open spec fn allocated(before: Map<u32, Seq<u32>>, after: Map<u32, Seq<u32>>, id: u32, size: nat) -> bool {
    &&& id != 0
    &&& !before.contains_key(id)
    &&& after == before.insert(id, zeroed(size))
}

/// `m` after unmapping segment `id`, or the fault of doing so.
pub open spec fn unmapped(m: Map<u32, Seq<u32>>, id: u32) -> Result<Map<u32, Seq<u32>>, UmError> {
    if id == 0 {
        Err(UmError::UnmapSegmentZero)
    } else if !m.contains_key(id) {
        Err(UmError::DoubleUnmap(id))
    } else {
        Ok(m.remove(id))
    }
}

/// `m` after segment 0 has become a copy of segment `id`, or the fault of
/// doing so. A copy of segment 0 onto itself changes nothing.
pub open spec fn program_replaced(m: Map<u32, Seq<u32>>, id: u32) -> Result<Map<u32, Seq<u32>>, UmError> {
    if id == 0 {
        Ok(m)
    } else if !m.contains_key(id) {
        Err(UmError::UnmappedSegment(id))
    } else {
        Ok(m.insert(0, m[id]))
    }
}

/// After an allocation hands out `id`, the segment is mapped to `size` zero
/// words under a nonzero identifier; and a later allocation, made while `id`
/// is still mapped, hands out some other identifier.
pub proof fn lemma_allocation_not_reused(
    before: Map<u32, Seq<u32>>,
    after: Map<u32, Seq<u32>>,
    id: u32,
    size: nat,
    later: Map<u32, Seq<u32>>,
    later_after: Map<u32, Seq<u32>>,
    later_id: u32,
    later_size: nat,
)
    requires
        allocated(before, after, id, size),
        later.contains_key(id),
        allocated(later, later_after, later_id, later_size),
    ensures
        id != 0,
        after.contains_key(id),
        after[id].len() == size,
        forall|i: int| 0 <= i < size ==> after[id][i] == 0,
        later_id != id,
        later_after.contains_key(id),
        later_after[id] == later[id],
{
}

/// The largest identifier there is, plus one.
pub const ID_LIMIT: u64 = 0x1_0000_0000;

/// The memory of the machine: a finite map from segment identifiers to
/// sequences of words. Identifiers of unmapped segments are handed out again.
pub struct AddressSpace {
    segments: HashMap<u32, Vec<u32>>,
    /// Identifiers given back by `deallocate`, reused first. An entry may
    /// have been bound again by `insert` since.
    free_ids: Vec<u32>,
    /// Every mapped identifier lies below this bound.
    next_id: u64,
}

impl View for AddressSpace {
    type V = Map<u32, Seq<u32>>;

    closed spec fn view(&self) -> Map<u32, Seq<u32>> {
        Map::new(|k: u32| self.segments@.contains_key(k), |k: u32| self.segments@[k]@)
    }
}

impl AddressSpace {
    /// The identifier bound and the bound on segment lengths hold.
    pub closed spec fn wf(&self) -> bool {
        &&& 1 <= self.next_id <= ID_LIMIT
        &&& forall|k: u32| #[trigger] self.segments@.contains_key(k) ==> k < self.next_id
        &&& forall|k: u32| #[trigger] self.segments@.contains_key(k) ==> self.segments@[k]@.len() <= u32::MAX
        &&& forall|i: int| 0 <= i < self.free_ids@.len() ==> self.free_ids@[i] < self.next_id
    }

    /// Every segment is short enough to be indexed by a word.
    pub proof fn lemma_lengths(&self)
        requires
            self.wf(),
        ensures
            forall|k: u32| #[trigger] self@.contains_key(k) ==> self@[k].len() <= u32::MAX,
    {
    }

    /// An address space with no segment.
    pub fn new() -> (r: AddressSpace)
        ensures
            r.wf(),
            r@ == Map::<u32, Seq<u32>>::empty(),
    {
        let r = AddressSpace { segments: HashMap::new(), free_ids: Vec::new(), next_id: 1 };
        assert(r@ =~= Map::<u32, Seq<u32>>::empty());
        r
    }

    /// Whether `id` is mapped.
    pub fn contains(&self, id: u32) -> (r: bool)
        ensures
            r == self@.contains_key(id),
    {
        self.segments.contains_key(&id)
    }

    /// The segment bound to `id`, if any.
    pub fn get(&self, id: u32) -> (r: Option<&Vec<u32>>)
        ensures
            match r {
                Some(seg) => self@.contains_key(id) && seg@ == self@[id],
                None => !self@.contains_key(id),
            },
    {
        self.segments.get(&id)
    }

    /// Binds `id` to `seg`, replacing the segment it was bound to, if any.
    pub fn insert(&mut self, id: u32, seg: Vec<u32>)
        requires
            old(self).wf(),
            seg@.len() <= u32::MAX,
        ensures
            final(self).wf(),
            final(self)@ == old(self)@.insert(id, seg@),
    {
        if id as u64 >= self.next_id {
            self.next_id = id as u64 + 1;
        }
        self.segments.insert(id, seg);
        assert(self@ =~= old(self)@.insert(id, seg@));
    }

    /// Pops given-back identifiers until one that is still unmapped turns up.
    fn take_free_id(&mut self) -> (r: Option<u32>)
        requires
            old(self).wf(),
        ensures
            final(self).wf(),
            final(self)@ == old(self)@,
            final(self).next_id == old(self).next_id,
            r matches Some(id) ==> id != 0 && id < old(self).next_id && !old(self)@.contains_key(id),
    {
        loop
            invariant
                self.wf(),
                self@ == old(self)@,
                self.next_id == old(self).next_id,
            decreases self.free_ids@.len(),
        {
            match self.free_ids.pop() {
                None => {
                    return None;
                },
                Some(id) => {
                    if id != 0 && !self.segments.contains_key(&id) {
                        return Some(id);
                    }
                },
            }
        }
    }

    /// The lowest nonzero identifier that is not mapped, if there is one.
    fn lowest_free_id(&self) -> (r: Option<u32>)
        ensures
            match r {
                Some(id) => id != 0 && !self@.contains_key(id),
                None => forall|k: u32| k != 0 ==> #[trigger] self@.contains_key(k),
            },
    {
        let mut k: u32 = 1;
        loop
            invariant
                1 <= k,
                forall|j: u32| 1 <= j < k ==> #[trigger] self@.contains_key(j),
            decreases u32::MAX - k,
        {
            if !self.segments.contains_key(&k) {
                return Some(k);
            }
            if k == u32::MAX {
                return None;
            }
            k = k + 1;
        }
    }

    /// Maps a new segment of `size` zero words under an identifier that is
    /// neither 0 nor mapped, and returns that identifier. Fails only when
    /// every nonzero identifier is in use.
    pub fn allocate(&mut self, size: u32) -> (r: Result<u32, UmError>)
        requires
            old(self).wf(),
        ensures
            final(self).wf(),
            match r {
                Ok(id) => allocated(old(self)@, final(self)@, id, size as nat),
                Err(e) => {
                    &&& e == UmError::SegmentIdsExhausted
                    &&& final(self)@ == old(self)@
                    &&& forall|k: u32| k != 0 ==> #[trigger] old(self)@.contains_key(k)
                },
            },
    {
        let id = match self.take_free_id() {
            Some(id) => id,
            None => {
                if self.next_id < ID_LIMIT {
                    let id = self.next_id as u32;
                    self.next_id = self.next_id + 1;
                    id
                } else {
                    match self.lowest_free_id() {
                        Some(id) => id,
                        None => {
                            return Err(UmError::SegmentIdsExhausted);
                        },
                    }
                }
            },
        };
        let seg = vec![0u32; size as usize];
        assert(seg@ =~= zeroed(size as nat));
        self.segments.insert(id, seg);
        assert(self@ =~= old(self)@.insert(id, zeroed(size as nat)));
        Ok(id)
    }

    /// Unmaps segment `id`, whose identifier may then be handed out again.
    /// Segment 0 cannot be unmapped.
    pub fn deallocate(&mut self, id: u32) -> (r: Result<(), UmError>)
        requires
            old(self).wf(),
        ensures
            final(self).wf(),
            match unmapped(old(self)@, id) {
                Ok(m) => r is Ok && final(self)@ == m,
                Err(e) => r == Err::<(), UmError>(e) && final(self)@ == old(self)@,
            },
    {
        if id == 0 {
            return Err(UmError::UnmapSegmentZero);
        }
        if !self.segments.contains_key(&id) {
            return Err(UmError::DoubleUnmap(id));
        }
        self.segments.remove(&id);
        self.free_ids.push(id);
        assert(self@ =~= old(self)@.remove(id));
        Ok(())
    }

    /// The word at `index` of segment `id`.
    pub fn read(&self, id: u32, index: u32) -> (r: Result<u32, UmError>)
        ensures
            r == read_word(self@, id, index),
    {
        match self.segments.get(&id) {
            None => Err(UmError::UnmappedSegment(id)),
            Some(seg) => {
                if (index as usize) < seg.len() {
                    Ok(seg[index as usize])
                } else {
                    Err(UmError::OutOfBoundsIndex { segment: id, index })
                }
            },
        }
    }

    /// Stores `value` at `index` of segment `id`.
    pub fn write(&mut self, id: u32, index: u32, value: u32) -> (r: Result<(), UmError>)
        requires
            old(self).wf(),
        ensures
            final(self).wf(),
            match write_word(old(self)@, id, index, value) {
                Ok(m) => r is Ok && final(self)@ == m,
                Err(e) => r == Err::<(), UmError>(e) && final(self)@ == old(self)@,
            },
    {
        match self.segments.remove(&id) {
            None => Err(UmError::UnmappedSegment(id)),
            Some(mut seg) => {
                let in_bounds = (index as usize) < seg.len();
                if in_bounds {
                    seg[index as usize] = value;
                }
                self.segments.insert(id, seg);
                if in_bounds {
                    assert(self@ =~= old(self)@.insert(id, old(self)@[id].update(index as int, value)));
                    Ok(())
                } else {
                    assert(self@ =~= old(self)@);
                    Err(UmError::OutOfBoundsIndex { segment: id, index })
                }
            },
        }
    }

    /// Makes segment 0 a copy of segment `id`. For `id` 0 nothing changes.
    pub fn replace_program(&mut self, id: u32) -> (r: Result<(), UmError>)
        requires
            old(self).wf(),
        ensures
            final(self).wf(),
            match program_replaced(old(self)@, id) {
                Ok(m) => r is Ok && final(self)@ == m,
                Err(e) => r == Err::<(), UmError>(e) && final(self)@ == old(self)@,
            },
    {
        if id == 0 {
            return Ok(());
        }
        let copy = match self.segments.get(&id) {
            None => {
                return Err(UmError::UnmappedSegment(id));
            },
            Some(seg) => seg.clone(),
        };
        assert(copy@ =~= old(self)@[id]);
        self.segments.insert(0, copy);
        assert(self@ =~= old(self)@.insert(0, old(self)@[id]));
        Ok(())
    }
}

} // verus!
