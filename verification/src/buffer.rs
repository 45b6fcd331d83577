//! Raw byte buffers that are reserved on one side of the boundary, filled by
//! the other side, and given back for reclamation.

use vstd::prelude::*;

verus! {

/// A reserved region of `capacity` bytes together with the bytes that were
/// written into it so far.
///
/// The handle owns its region. It is not `Clone`: whoever holds the value is
/// the one side that may act on the region.
pub struct RawBuffer {
    bytes: Vec<u8>,
    capacity: usize,
}

impl View for RawBuffer {
    type V = Seq<u8>;

    /// The bytes written so far, in the order in which they were written.
    closed spec fn view(&self) -> Seq<u8> {
        self.bytes@
    }
}

impl RawBuffer {
    /// The number of bytes that the region was reserved for.
    pub closed spec fn spec_capacity(&self) -> nat {
        self.capacity as nat
    }

    /// No more bytes are written than the region was reserved for. Every
    /// handle that this module hands out is well formed, and every operation
    /// keeps it so.
    pub open spec fn wf(&self) -> bool {
        self@.len() <= self.spec_capacity()
    }

    /// The state of a handle as `allocate` returns it for `size` bytes:
    /// the full capacity is reserved and nothing is written.
    pub open spec fn is_fresh(&self, size: nat) -> bool {
        &&& self.spec_capacity() == size
        &&& self@ == Seq::<u8>::empty()
    }

    /// What `reclaim` accepts: a well-formed handle, together with the
    /// capacity that its region was reserved with, and no other.
    pub open spec fn reclaimable_with(&self, capacity: nat) -> bool {
        &&& self.wf()
        &&& capacity == self.spec_capacity()
    }

    /// The capacity that has to be echoed back at reclamation.
    pub fn capacity(&self) -> (cap: usize)
        ensures
            cap == self.spec_capacity(),
    {
        self.capacity
    }

    /// The number of bytes written so far.
    pub fn len(&self) -> (n: usize)
        requires
            self.wf(),
        ensures
            n == self@.len(),
            n <= self.spec_capacity(),
    {
        self.bytes.len()
    }

    /// Writes `data` behind the bytes already written, if the region has room
    /// for all of it, and says whether it did. A write that does not fit
    /// changes nothing.
    pub fn write(&mut self, data: &[u8]) -> (ok: bool)
        requires
            old(self).wf(),
        ensures
            final(self).wf(),
            final(self).spec_capacity() == old(self).spec_capacity(),
            ok == (old(self)@.len() + data@.len() <= old(self).spec_capacity()),
            ok ==> final(self)@ == old(self)@ + data@,
            !ok ==> final(self)@ == old(self)@,
    {
        if data.len() > self.capacity - self.bytes.len() {
            return false;
        }
        self.bytes.extend_from_slice(data);
        assert(self.bytes@ =~= old(self).bytes@ + data@);
        true
    }

    /// The bytes written so far.
    pub fn read(&self) -> (bytes: &[u8])
        ensures
            bytes@ == self@,
    {
        self.bytes.as_slice()
    }

    /// Takes the handle apart into the bytes written so far and the capacity.
    /// The handle is consumed; `from_parts` makes it again.
    pub fn into_parts(self) -> (parts: (Vec<u8>, usize))
        requires
            self.wf(),
        ensures
            parts.0@ == self@,
            parts.1 == self.spec_capacity(),
            parts.0@.len() <= parts.1,
    {
        (self.bytes, self.capacity)
    }

    /// Makes a handle from the bytes written so far and the capacity of their
    /// region. There is no handle for more bytes than the capacity.
    pub fn from_parts(bytes: Vec<u8>, capacity: usize) -> (made: Option<RawBuffer>)
        ensures
            made is Some <==> bytes@.len() <= capacity,
            made matches Some(handle) ==> handle.wf() && handle@ == bytes@
                && handle.spec_capacity() == capacity,
    {
        if bytes.len() <= capacity {
            Some(RawBuffer { bytes, capacity })
        } else {
            None
        }
    }
}

/// Reserves a region of `size` bytes and hands out its handle.
///
/// Nothing is written yet: the region is logically empty, and the receiving
/// side fills it with up to `size` bytes. A `size` of zero is legal. Where the
/// memory cannot be reserved the process is terminated; no error value is
/// returned.
pub fn allocate(size: usize) -> (handle: RawBuffer)
    ensures
        handle.wf(),
        handle.is_fresh(size as nat),
{
    RawBuffer { bytes: Vec::with_capacity(size), capacity: size }
}

/// Gives the region of `handle` back. The handle is consumed, so nothing can
/// reach the region afterwards, and it cannot be given back a second time.
///
/// `capacity` must be the capacity that the region was reserved with. A call
/// with any other value is outside the contract: do not call it this way.
pub fn reclaim(handle: RawBuffer, capacity: usize)
    requires
        handle.reclaimable_with(capacity as nat),
{
    let RawBuffer { bytes: _, capacity: _ } = handle;
}

/// A handle as `allocate(size)` returns it is accepted by `reclaim` with
/// `size`, and with no other capacity.
pub proof fn lemma_fresh_handle_reclaimable(handle: RawBuffer, size: usize, capacity: usize)
    requires
        handle.is_fresh(size as nat),
    ensures
        handle.reclaimable_with(size as nat),
        handle.reclaimable_with(capacity as nat) <==> capacity == size,
{
}

} // verus!
