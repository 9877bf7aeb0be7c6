//! Buffers of the OpenGL backend.

use vstd::prelude::*;

verus! {

/// A buffer object of the driver and its size in bytes.
#[derive(Copy, Clone, Debug)]
pub struct RawBuffer {
    pub obj: u32,
    pub size: usize,
}

/// What a buffer of this backend is.
#[derive(Copy, Clone, Debug, Eq, PartialEq, Hash, Structural)]
pub struct BufferDescription {
    pub size: usize,
}

/// Names an entry of the table of buffers that may share memory.
#[derive(Copy, Clone, Debug, Eq, PartialEq, Hash, Structural)]
pub struct BufferAliasKey(pub u64);

/// The memory that a resource shares with others: the entry of the alias
/// table that stands for the memory, and the scope within which resources may
/// share it.
#[derive(Debug)]
pub struct AliasInfo<K> {
    pub key: K,
    pub scope: u64,
}

/// A buffer as commands see it: a range of a buffer object that starts at
/// `offset`.
#[derive(Debug)]
pub struct GlBuffer {
    pub raw: RawBuffer,
    pub should_destroy: bool,
    pub alias_info: Option<AliasInfo<BufferAliasKey>>,
    pub offset: usize,
}

/// Why a buffer cannot be had.
#[derive(Clone, Copy, Debug, PartialEq, Eq, Structural)]
pub enum BufferError {
    /// The size is beyond what the driver's interface can express.
    TooLarge,
    /// There is less initial data than the buffer is large.
    NotEnoughData,
}

/// What to ask of the driver to create a buffer: immutable storage of `size`
/// bytes with `flags`, filled from the initial data if `initialized` says so.
#[derive(Clone, Copy, Debug, PartialEq, Eq, Structural)]
pub struct BufferRequest {
    pub size: isize,
    pub flags: u32,
    pub initialized: bool,
}

/// What `create_buffer` answers for a buffer of `byte_size` bytes and, if
/// there is initial data, its length.
pub open spec fn buffer_request(byte_size: usize, flags: u32, initial_len: Option<nat>) -> Result<
    BufferRequest,
    BufferError,
> {
    if byte_size > isize::MAX {
        Err(BufferError::TooLarge)
    } else if initial_len is Some && initial_len->Some_0 < byte_size {
        Err(BufferError::NotEnoughData)
    } else {
        Ok(BufferRequest { size: byte_size as isize, flags, initialized: initial_len is Some })
    }
}

/// What to ask of the driver for a new buffer of `byte_size` bytes.
///
/// The driver reads `byte_size` bytes of initial data, so data that is
/// shorter is refused. So is a size that the driver's interface, which counts
/// in `isize`, cannot express.
pub fn create_buffer(byte_size: usize, flags: u32, initial_data: Option<&[u8]>) -> (result: Result<
    BufferRequest,
    BufferError,
>)
    ensures
        result == buffer_request(
            byte_size,
            flags,
            match initial_data {
                Some(data) => Some(data@.len()),
                None => None,
            },
        ),
{
    if byte_size > isize::MAX as usize {
        return Err(BufferError::TooLarge);
    }
    let initialized = match initial_data {
        Some(data) => {
            if data.len() < byte_size {
                return Err(BufferError::NotEnoughData);
            }
            true
        },
        None => false,
    };
    Ok(BufferRequest { size: byte_size as isize, flags, initialized })
}

} // verus!
