//! Write-once staging buffers for output messages.

use vstd::prelude::*;

use crate::shm::{aligned_bytes, buffer_bytes, copy_into_buffer, AlignedBuffer, ShmemHandle};
use crate::tracker::DropToken;

verus! {

/// Where the bytes of a sample live.
enum DataSampleInner {
    Shmem(ShmemHandle),
    Vec(AlignedBuffer),
}

/// A data region suitable for sending as an output message: an aligned heap
/// buffer for small messages, a shared-memory region for large ones.
pub struct DataSample {
    inner: DataSampleInner,
    len: usize,
}

/// The payload of an output message as the daemon receives it.
pub enum DataMessage {
    /// The bytes themselves.
    Vec(AlignedBuffer),
    /// A reference to a shared-memory region holding `len` bytes.
    SharedMemory { shared_memory_id: String, len: usize, drop_token: DropToken },
}

impl DataSample {
    pub closed spec fn spec_len(&self) -> nat {
        self.len as nat
    }

    /// Whether the bytes live in shared memory.
    pub closed spec fn spec_is_shared(&self) -> bool {
        self.inner is Shmem
    }

    /// The bytes of an inline sample.
    pub closed spec fn inline_bytes(&self) -> Seq<u8> {
        match self.inner {
            DataSampleInner::Vec(b) => aligned_bytes(b),
            DataSampleInner::Shmem(_) => Seq::empty(),
        }
    }

    /// The region behind a shared sample.
    pub closed spec fn shared_region(&self) -> ShmemHandle
        recommends
            self.spec_is_shared(),
    {
        match self.inner {
            DataSampleInner::Shmem(h) => h,
            DataSampleInner::Vec(_) => arbitrary(),
        }
    }

    /// Capacity of the region behind a shared sample.
    pub open spec fn shared_capacity(&self) -> nat {
        self.shared_region().capacity()
    }

    pub closed spec fn wf(&self) -> bool {
        match self.inner {
            DataSampleInner::Shmem(h) => self.len <= h.capacity(),
            DataSampleInner::Vec(b) => aligned_bytes(b).len() == self.len,
        }
    }

    /// A sample of `len` bytes in the shared region `region`.
    pub(crate) fn from_shared(region: ShmemHandle, len: usize) -> (r: Self)
        requires
            len <= region.capacity(),
        ensures
            r.wf(),
            r.spec_len() == len,
            r.spec_is_shared(),
            r.shared_region() == region,
    {
        DataSample { inner: DataSampleInner::Shmem(region), len }
    }

    /// A sample holding the bytes of `buf`.
    pub(crate) fn from_buffer(buf: AlignedBuffer, len: usize) -> (r: Self)
        requires
            aligned_bytes(buf).len() == len,
        ensures
            r.wf(),
            r.spec_len() == len,
            !r.spec_is_shared(),
            r.inline_bytes() == aligned_bytes(buf),
    {
        DataSample { inner: DataSampleInner::Vec(buf), len }
    }

    pub fn len(&self) -> (r: usize)
        ensures
            r == self.spec_len(),
    {
        self.len
    }

    pub fn is_shared(&self) -> (r: bool)
        ensures
            r == self.spec_is_shared(),
    {
        match &self.inner {
            DataSampleInner::Shmem(_) => true,
            DataSampleInner::Vec(_) => false,
        }
    }

    /// Name of the backing store, for diagnostics.
    pub fn kind(&self) -> (r: &'static str)
        ensures
            r@ == (if self.spec_is_shared() {
                "SharedMemory"@
            } else {
                "Vec"@
            }),
    {
        match &self.inner {
            DataSampleInner::Shmem(_) => "SharedMemory",
            DataSampleInner::Vec(_) => "Vec",
        }
    }

    /// The bytes of an inline sample; `None` for a shared one.
    pub fn inline_data(&self) -> (r: Option<Vec<u8>>)
        requires
            self.wf(),
        ensures
            r is None <==> self.spec_is_shared(),
            r matches Some(v) ==> v@ == self.inline_bytes() && v@.len() == self.spec_len(),
    {
        match &self.inner {
            DataSampleInner::Vec(b) => Some(buffer_bytes(b)),
            DataSampleInner::Shmem(_) => None,
        }
    }

    /// Writes `data` to the start of an inline sample. A shared sample is
    /// written through its `region`; for it this returns `false` and
    /// changes nothing.
    pub fn write_inline(&mut self, data: &[u8]) -> (r: bool)
        requires
            old(self).wf(),
            data@.len() <= old(self).spec_len(),
        ensures
            final(self).wf(),
            r == !old(self).spec_is_shared(),
            final(self).spec_len() == old(self).spec_len(),
            final(self).spec_is_shared() == old(self).spec_is_shared(),
            final(self).spec_is_shared() ==> final(self).shared_region() == old(self).shared_region(),
            r ==> final(self).inline_bytes() == data@ + old(self).inline_bytes().subrange(
                data@.len() as int,
                old(self).spec_len() as int,
            ),
            !r ==> *final(self) == *old(self),
    {
        match &mut self.inner {
            DataSampleInner::Vec(b) => {
                copy_into_buffer(b, data);
                true
            },
            DataSampleInner::Shmem(_) => false,
        }
    }

    /// The shared region behind a shared sample, for writing its payload.
    pub fn region(&self) -> (r: Option<&ShmemHandle>)
        ensures
            r is Some <==> self.spec_is_shared(),
            r matches Some(h) ==> *h == self.shared_region(),
    {
        match &self.inner {
            DataSampleInner::Shmem(h) => Some(h),
            DataSampleInner::Vec(_) => None,
        }
    }

    /// Turns the sample into the payload of a message. A shared sample is
    /// bound to `drop_token`, and its region comes back to be kept alive until
    /// that token returns.
    pub fn finalize(self, drop_token: DropToken) -> (r: (DataMessage, Option<(ShmemHandle, DropToken)>))
        requires
            self.wf(),
        ensures
            self.spec_is_shared() <==> r.1 is Some,
            r.1 matches Some(p) ==> {
                &&& p.1 == drop_token
                &&& p.0 == self.shared_region()
                &&& (r.0 matches DataMessage::SharedMemory { shared_memory_id, len, drop_token: t }
                    && shared_memory_id@ == self.shared_region().spec_os_id() && len
                    == self.spec_len() && t == drop_token)
            },
            r.1 is None ==> (r.0 matches DataMessage::Vec(b) && aligned_bytes(b)
                == self.inline_bytes() && aligned_bytes(b).len() == self.spec_len()),
    {
        match self.inner {
            DataSampleInner::Shmem(shared_memory) => {
                let data = DataMessage::SharedMemory {
                    shared_memory_id: shared_memory.os_id(),
                    len: self.len,
                    drop_token,
                };
                (data, Some((shared_memory, drop_token)))
            },
            DataSampleInner::Vec(buffer) => (DataMessage::Vec(buffer), None),
        }
    }
}

} // verus!
