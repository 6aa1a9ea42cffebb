//! Owned shared-memory regions and the aligned heap buffers of inline samples.

use aligned_vec::{AVec, ConstAlign};
use shared_memory_extended::{Shmem, ShmemConf, ShmemError};
use vstd::prelude::*;

verus! {

#[verifier::external_type_specification]
#[verifier::external_body]
pub struct ExShmem(Shmem);

#[verifier::external_type_specification]
#[verifier::external_body]
pub struct ExShmemError(ShmemError);

/// A heap buffer of bytes whose start is aligned to 128 bytes.
#[verifier::external_body]
pub struct AlignedBuffer {
    buf: AVec<u8, ConstAlign<128>>,
}

/// The bytes held by an aligned buffer.
pub uninterp spec fn aligned_bytes(v: AlignedBuffer) -> Seq<u8>;

/// Owns one writable shared-memory mapping and knows its size.
pub struct ShmemHandle {
    shmem: Box<Shmem>,
    len: usize,
    os_id: String,
}

impl ShmemHandle {
    /// Size of the mapping in bytes.
    pub closed spec fn capacity(&self) -> nat {
        self.len as nat
    }

    pub fn len(&self) -> (r: usize)
        ensures
            r == self.capacity(),
    {
        self.len
    }

    /// The operating system's name of the mapping, which receivers open.
    pub closed spec fn spec_os_id(&self) -> Seq<char> {
        self.os_id@
    }

    pub fn os_id(&self) -> (r: String)
        ensures
            r@ == self.spec_os_id(),
    {
        self.os_id.clone()
    }

    /// The mapping itself, for writing the payload through its pointer.
    pub fn shmem(&self) -> &Shmem {
        &self.shmem
    }
}

/// Relies on `ShmemConf::create` with `size` and `writable(true)`: it refuses a
/// size of zero, and a mapping it creates is `size` bytes long (`Shmem::len`).
/// The handle also keeps the mapping's name (`Shmem::get_os_id`).
#[verifier::external_body]
pub(crate) fn create_region(size: usize) -> (r: Result<ShmemHandle, ShmemError>)
    ensures
        size == 0 ==> r is Err,
        r matches Ok(h) ==> h.capacity() == size,
{
    ShmemConf::new().size(size).writable(true).create().map(
        |shmem| ShmemHandle {
            len: shmem.len(),
            os_id: shmem.get_os_id().to_owned(),
            shmem: Box::new(shmem),
        },
    )
}

/// Relies on `AVec::__from_elem(128, 0, len)`: `len` zero bytes, aligned to
/// 128 bytes.
#[verifier::external_body]
pub(crate) fn zeroed_buffer(len: usize) -> (r: AlignedBuffer)
    ensures
        aligned_bytes(r) == Seq::new(len as nat, |i: int| 0u8),
{
    AlignedBuffer { buf: AVec::__from_elem(128, 0u8, len) }
}

/// Relies on `AVec::as_mut_slice` and `copy_from_slice`: the first
/// `data.len()` bytes become `data`, the rest stay.
#[verifier::external_body]
pub(crate) fn copy_into_buffer(buf: &mut AlignedBuffer, data: &[u8])
    requires
        data@.len() <= aligned_bytes(*old(buf)).len(),
    ensures
        aligned_bytes(*final(buf)) == data@ + aligned_bytes(*old(buf)).subrange(
            data@.len() as int,
            aligned_bytes(*old(buf)).len() as int,
        ),
{
    buf.buf.as_mut_slice()[..data.len()].copy_from_slice(data)
}

/// Relies on `AVec::as_slice`: a copy of the bytes held.
#[verifier::external_body]
pub(crate) fn buffer_bytes(buf: &AlignedBuffer) -> (r: Vec<u8>)
    ensures
        r@ == aligned_bytes(*buf),
{
    buf.buf.as_slice().to_vec()
}

} // verus!
