use vstd::prelude::*;

use crate::bytes::{be_u32_at, read_be_u32};
use crate::error::ParseDeviceTreeError;

verus! {

/// The value that opens every devicetree blob.
pub const DTB_MAGIC: u32 = 0xd00dfeed;

/// Length of the fixed blob header in bytes.
pub const HEADER_LEN: u32 = 40;

/// The newest `last_comp_version` this reader understands.
pub const SUPPORTED_VERSION: u32 = 17;

/// The header field at byte offset `off`.
pub open spec fn field(b: Seq<u8>, off: int) -> int {
    be_u32_at(b, off)
}

pub open spec fn spec_total_size(b: Seq<u8>) -> int {
    field(b, 4)
}

pub open spec fn spec_off_struct(b: Seq<u8>) -> int {
    field(b, 8)
}

pub open spec fn spec_off_strings(b: Seq<u8>) -> int {
    field(b, 12)
}

pub open spec fn spec_last_comp_version(b: Seq<u8>) -> int {
    field(b, 24)
}

pub open spec fn spec_size_strings(b: Seq<u8>) -> int {
    field(b, 32)
}

pub open spec fn spec_size_struct(b: Seq<u8>) -> int {
    field(b, 36)
}

/// The first four bytes of `b` hold the blob magic.
pub open spec fn has_magic(b: Seq<u8>) -> bool {
    b.len() >= 4 && be_u32_at(b, 0) == DTB_MAGIC
}

/// A header that can be trusted: the magic matches, the version is one this reader
/// supports, and every size and offset stays inside both the declared total size
/// and the buffer actually given.
pub open spec fn header_valid(b: Seq<u8>) -> bool {
    &&& b.len() >= HEADER_LEN
    &&& has_magic(b)
    &&& spec_last_comp_version(b) <= SUPPORTED_VERSION
    &&& HEADER_LEN <= spec_total_size(b) <= b.len()
    &&& spec_off_struct(b) >= HEADER_LEN
    &&& spec_off_struct(b) + spec_size_struct(b) <= spec_total_size(b)
    &&& spec_off_strings(b) >= HEADER_LEN
    &&& spec_off_strings(b) + spec_size_strings(b) <= spec_total_size(b)
}

/// The structure block of a blob whose header is valid.
pub open spec fn spec_structure(b: Seq<u8>) -> Seq<u8> {
    b.subrange(spec_off_struct(b), spec_off_struct(b) + spec_size_struct(b))
}

/// The strings block of a blob whose header is valid.
pub open spec fn spec_strings(b: Seq<u8>) -> Seq<u8> {
    b.subrange(spec_off_strings(b), spec_off_strings(b) + spec_size_strings(b))
}

/// A validated devicetree blob, borrowed from the caller's buffer.
#[derive(Clone, Copy)]
pub struct Dtb<'a> {
    pub raw: &'a [u8],
    pub structure: &'a [u8],
    pub strings: &'a [u8],
}

impl<'a> Dtb<'a> {
    /// The blob was built from a valid header, and its two blocks are the ones the
    /// header names.
    pub open spec fn wf(&self) -> bool {
        &&& header_valid(self.raw@)
        &&& self.structure@ == spec_structure(self.raw@)
        &&& self.strings@ == spec_strings(self.raw@)
    }
}

/// Validates the header of `raw` and wraps it.
///
/// Fails with `Format` exactly when the header cannot be trusted; in particular
/// whenever the first four bytes are not the magic.
pub fn parse_device_tree<'a>(raw: &'a [u8]) -> (r: Result<Dtb<'a>, ParseDeviceTreeError>)
    ensures
        r is Ok <==> header_valid(raw@),
        !has_magic(raw@) ==> r == Err::<Dtb<'a>, ParseDeviceTreeError>(
            ParseDeviceTreeError::Format,
        ),
        r is Err ==> r == Err::<Dtb<'a>, ParseDeviceTreeError>(ParseDeviceTreeError::Format),
        r matches Ok(d) ==> d.wf() && d.raw@ == raw@,
{
    if raw.len() < HEADER_LEN as usize {
        return Err(ParseDeviceTreeError::Format);
    }
    if read_be_u32(raw, 0) != DTB_MAGIC {
        return Err(ParseDeviceTreeError::Format);
    }
    if read_be_u32(raw, 24) > SUPPORTED_VERSION {
        return Err(ParseDeviceTreeError::Format);
    }
    let total = read_be_u32(raw, 4) as u64;
    if total < HEADER_LEN as u64 || total > raw.len() as u64 {
        return Err(ParseDeviceTreeError::Format);
    }
    let off_struct = read_be_u32(raw, 8) as u64;
    let size_struct = read_be_u32(raw, 36) as u64;
    if off_struct < HEADER_LEN as u64 || off_struct + size_struct > total {
        return Err(ParseDeviceTreeError::Format);
    }
    let off_strings = read_be_u32(raw, 12) as u64;
    let size_strings = read_be_u32(raw, 32) as u64;
    if off_strings < HEADER_LEN as u64 || off_strings + size_strings > total {
        return Err(ParseDeviceTreeError::Format);
    }
    let structure = vstd::slice::slice_subrange(
        raw,
        off_struct as usize,
        (off_struct + size_struct) as usize,
    );
    let strings = vstd::slice::slice_subrange(
        raw,
        off_strings as usize,
        (off_strings + size_strings) as usize,
    );
    Ok(Dtb { raw, structure, strings })
}

} // verus!
