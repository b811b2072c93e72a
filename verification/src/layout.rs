//! The header layout of a loaded image and the walk from its base to the
//! section table.
//!
//! A loaded image starts with a base header of 64 bytes whose last field, a
//! signed 32-bit number, is the distance from the image base to the extended
//! header. The extended header holds the section count, and the section table,
//! an array of 40-byte records, follows it directly. All positions in this
//! module are byte offsets from the image base.

use vstd::prelude::*;
use crate::bytes::{i32_le, read_i32, read_u16, read_u32, u16_le, u32_le};

verus! {

/// Size of the base header.
pub const BASE_HEADER_SIZE: usize = 64;

/// Offset, in the base header, of the distance to the extended header.
pub const EXTENDED_HEADER_FIELD: usize = 60;

/// Offset, in the extended header, of the 16-bit section count. A 4-byte
/// signature and the 2-byte machine field precede it.
pub const SECTION_COUNT_FIELD: usize = 6;

/// Size of one record of the section table.
pub const SECTION_RECORD_SIZE: usize = 40;

/// Size of the name field that opens a section record.
pub const SECTION_NAME_SIZE: usize = 8;

/// Offset, in a section record, of the 32-bit relative virtual address.
pub const SECTION_ADDRESS_FIELD: usize = 12;

/// Offset, in a section record, of the 32-bit size of the raw data.
pub const SECTION_DATA_SIZE_FIELD: usize = 16;

/// Size of the extended header of a native image: a 4-byte signature, the
/// 20-byte file header and the optional header, which takes 240 bytes where
/// addresses have 64 bits and 224 bytes where they have 32.
pub open spec fn spec_extended_header_size() -> usize {
    if usize::BITS == 64 {
        264
    } else {
        248
    }
}

/// Size of the extended header of an image native to this machine.
#[verifier::when_used_as_spec(spec_extended_header_size)]
pub fn extended_header_size() -> (size: usize)
    ensures
        size == spec_extended_header_size(),
{
    if usize::BITS == 64 {
        264
    } else {
        248
    }
}

/// Offset of the extended header, as the base header gives it.
pub open spec fn extended_header_offset(image: Seq<u8>) -> int {
    i32_le(image, EXTENDED_HEADER_FIELD as int)
}

/// Number of records in the section table, as the extended header gives it.
pub open spec fn section_count(image: Seq<u8>) -> int {
    u16_le(image, extended_header_offset(image) + SECTION_COUNT_FIELD)
}

/// Offset of the section table: it follows the extended header directly.
pub open spec fn section_table_offset(image: Seq<u8>) -> int {
    extended_header_offset(image) + spec_extended_header_size()
}

/// Offset of the section record at `index`.
pub open spec fn section_record_offset(image: Seq<u8>, index: int) -> int {
    section_table_offset(image) + index * SECTION_RECORD_SIZE
}

/// Offset of the first byte behind the section table.
pub open spec fn section_table_end(image: Seq<u8>) -> int {
    section_record_offset(image, section_count(image))
}

/// The relative virtual address stored in the section record at `index`.
pub open spec fn section_relative_address(image: Seq<u8>, index: int) -> int {
    u32_le(image, section_record_offset(image, index) + SECTION_ADDRESS_FIELD)
}

/// The raw data size stored in the section record at `index`.
pub open spec fn section_data_size(image: Seq<u8>, index: int) -> int {
    u32_le(image, section_record_offset(image, index) + SECTION_DATA_SIZE_FIELD)
}

/// The name field of the section record at `index`, padding included.
pub open spec fn section_name_field(image: Seq<u8>, index: int) -> Seq<u8> {
    image.subrange(
        section_record_offset(image, index),
        section_record_offset(image, index) + SECTION_NAME_SIZE,
    )
}

/// The bytes of `image` reach from the base header to the end of the section
/// table, and the extended header does not lie before the base.
pub open spec fn headers_mapped(image: Seq<u8>) -> bool {
    &&& BASE_HEADER_SIZE <= image.len()
    &&& 0 <= extended_header_offset(image)
    &&& section_table_offset(image) <= image.len()
    &&& section_table_end(image) <= image.len()
}

/// How many bytes, counted from the image base, must be at hand before the
/// section table can be walked, as far as the bytes given so far tell:
/// first the base header, then the extended header that it points to, then
/// the section table whose length the extended header gives. `None` where the
/// base header points before the image base.
pub open spec fn spec_required_len(image: Seq<u8>) -> Option<int> {
    if image.len() < BASE_HEADER_SIZE {
        Some(BASE_HEADER_SIZE as int)
    } else if extended_header_offset(image) < 0 {
        None
    } else if image.len() < section_table_offset(image) {
        Some(section_table_offset(image))
    } else {
        Some(section_table_end(image))
    }
}

/// `image` is the memory of a loaded image mapped at address `base`, far
/// enough to hold its section table, and every section it describes starts at
/// an address of this machine.
pub open spec fn valid_image(base: int, image: Seq<u8>) -> bool {
    &&& 0 < base
    &&& base + image.len() <= usize::MAX
    &&& headers_mapped(image)
    &&& forall|index: int|
        0 <= index < section_count(image) ==> base + #[trigger] section_relative_address(
            image,
            index,
        ) <= usize::MAX
}

/// Reads the offset of the extended header from the base header.
pub fn read_extended_header_offset(image: &[u8]) -> (offset: i32)
    requires
        BASE_HEADER_SIZE <= image@.len(),
    ensures
        offset == extended_header_offset(image@),
{
    read_i32(image, EXTENDED_HEADER_FIELD)
}

/// Tells how many bytes of the image, counted from its base, are needed to
/// walk its section table, given the bytes read so far. A caller that maps or
/// copies the image piece by piece starts with no bytes and extends the
/// buffer to the length returned until the buffer is that long.
pub fn required_len(image: &[u8]) -> (needed: Option<usize>)
    ensures
        match needed {
            Some(len) => spec_required_len(image@) == Some(len as int),
            None => spec_required_len(image@) is None,
        },
        headers_mapped(image@) <==> (needed matches Some(len) && len <= image@.len()),
{
    if image.len() < BASE_HEADER_SIZE {
        return Some(BASE_HEADER_SIZE);
    }
    let offset: i32 = read_extended_header_offset(image);
    if offset < 0 {
        return None;
    }
    let table: usize = offset as usize + extended_header_size();
    if image.len() < table {
        return Some(table);
    }
    let count: u16 = read_u16(image, offset as usize + SECTION_COUNT_FIELD);
    Some(table + count as usize * SECTION_RECORD_SIZE)
}

/// Finds the address of the extended header of the image mapped at
/// `module_handle`: the image base moved by the distance that the base header
/// gives.
pub fn get_nt_headers(module_handle: usize, image: &[u8]) -> (address: usize)
    requires
        valid_image(module_handle as int, image@),
    ensures
        address == module_handle + extended_header_offset(image@),
{
    let offset: i32 = read_extended_header_offset(image);
    module_handle + offset as usize
}

/// Tells whether `image`, taken as the memory mapped at address
/// `module_handle`, is an image whose section table can be walked.
pub fn is_valid_image(module_handle: usize, image: &[u8]) -> (valid: bool)
    ensures
        valid == valid_image(module_handle as int, image@),
{
    if module_handle == 0 || image.len() > usize::MAX - module_handle {
        return false;
    }
    let table_end: usize = match required_len(image) {
        Some(len) => len,
        None => {
            return false;
        },
    };
    if table_end > image.len() {
        return false;
    }
    let offset: usize = read_extended_header_offset(image) as usize;
    let count: usize = read_u16(image, offset + SECTION_COUNT_FIELD) as usize;
    let table: usize = offset + extended_header_size();
    let mut index: usize = 0;
    while index < count
        invariant
            index <= count == section_count(image@),
            table == section_table_offset(image@),
            table + count * SECTION_RECORD_SIZE <= image@.len(),
            forall|earlier: int|
                0 <= earlier < index ==> module_handle + #[trigger] section_relative_address(
                    image@,
                    earlier,
                ) <= usize::MAX,
        decreases count - index,
    {
        let record: usize = table + index * SECTION_RECORD_SIZE;
        let relative: u32 = read_u32(image, record + SECTION_ADDRESS_FIELD);
        if relative as usize > usize::MAX - module_handle {
            assert(module_handle + section_relative_address(image@, index as int) > usize::MAX);
            return false;
        }
        index = index + 1;
    }
    true
}

} // verus!
