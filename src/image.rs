//! The image: backing bytes, section table and data directory, with the
//! bounds-checked address translation built on them.

use vstd::prelude::*;

use vstd::slice::slice_subrange;

use crate::error::Error;

verus! {

/// Little-endian value of four bytes.
pub open spec fn le_u32(b: Seq<u8>) -> int {
    b[0] as int + 0x100 * b[1] as int + 0x1_0000 * b[2] as int + 0x100_0000 * b[3] as int
}

/// Little-endian value of two bytes.
pub open spec fn le_u16(b: Seq<u8>) -> int {
    b[0] as int + 0x100 * b[1] as int
}

/// Little-endian value of eight bytes.
pub open spec fn le_u64(b: Seq<u8>) -> int {
    le_u32(b) + 0x1_0000_0000 * le_u32(b.subrange(4, 8))
}

/// Reads the little-endian `u16` at `off`.
pub fn read_u16(b: &[u8], off: usize) -> (r: u16)
    requires
        off + 2 <= b@.len(),
    ensures
        r as int == le_u16(b@.subrange(off as int, off + 2)),
{
    let b0 = b[off] as u16;
    let b1 = b[off + 1] as u16;
    b0 + 0x100 * b1
}

/// Reads the little-endian `u32` at `off`.
pub fn read_u32(b: &[u8], off: usize) -> (r: u32)
    requires
        off + 4 <= b@.len(),
    ensures
        r as int == le_u32(b@.subrange(off as int, off + 4)),
{
    let b0 = b[off] as u32;
    let b1 = b[off + 1] as u32;
    let b2 = b[off + 2] as u32;
    let b3 = b[off + 3] as u32;
    b0 + 0x100 * b1 + 0x1_0000 * b2 + 0x100_0000 * b3
}

/// Reads the little-endian `u64` at `off`.
pub fn read_u64(b: &[u8], off: usize) -> (r: u64)
    requires
        off + 8 <= b@.len(),
    ensures
        r as int == le_u64(b@.subrange(off as int, off + 8)),
{
    let lo = read_u32(b, off) as u64;
    assert(off + 4 <= b.len());
    let hi = read_u32(b, off + 4) as u64;
    assert(b@.subrange(off as int, off + 8).subrange(4, 8) =~= b@.subrange(off + 4, off + 8));
    lo + 0x1_0000_0000 * hi
}

/// One entry of the section table: where a run of the image's address space
/// is stored in the backing buffer.
#[derive(Clone, Copy, Debug, PartialEq, Eq, Structural)]
pub struct SectionHeader {
    pub virtual_address: u32,
    pub size_of_raw_data: u32,
    pub pointer_to_raw_data: u32,
}

/// One entry of the optional header's data directory table.
#[derive(Clone, Copy, Debug, PartialEq, Eq, Structural)]
pub struct DataDirectoryEntry {
    pub virtual_address: u32,
    pub size: u32,
}

/// A PE image: the bytes of the file and the metadata that maps addresses
/// onto them. Every view handed out borrows from it.
pub struct Image {
    pub bytes: Vec<u8>,
    pub image_base: u64,
    pub sections: Vec<SectionHeader>,
    pub directories: Vec<DataDirectoryEntry>,
}

/// `rva` lies in the file-backed part of section `s`.
pub open spec fn section_holds(s: SectionHeader, rva: int) -> bool {
    s.virtual_address <= rva < s.virtual_address + s.size_of_raw_data
}

/// Index of the first section, from `i` on, that holds `rva`.
pub open spec fn section_from(secs: Seq<SectionHeader>, rva: int, i: nat) -> Option<int>
    decreases secs.len() - i,
{
    if i >= secs.len() {
        None
    } else if section_holds(secs[i as int], rva) {
        Some(i as int)
    } else {
        section_from(secs, rva, i + 1)
    }
}

/// A section found from `i` on is a section of the table that holds `rva`.
pub proof fn lemma_section_from(secs: Seq<SectionHeader>, rva: int, i: nat)
    ensures
        section_from(secs, rva, i) matches Some(j) ==> i <= j < secs.len() && section_holds(
            secs[j],
            rva,
        ),
    decreases secs.len() - i,
{
    if i < secs.len() && !section_holds(secs[i as int], rva) {
        lemma_section_from(secs, rva, i + 1);
    }
}

/// The section through which `rva` is translated: the first that holds it.
pub open spec fn section_of(secs: Seq<SectionHeader>, rva: int) -> Option<int> {
    section_from(secs, rva, 0)
}

/// Buffer offset of the `len` bytes at `rva`, when they all stay inside the
/// file-backed part of the section holding `rva` and inside the buffer.
pub open spec fn resolve(img: &Image, rva: int, len: int) -> Option<int> {
    match section_of(img.sections@, rva) {
        Some(i) => {
            let s = img.sections@[i];
            let off = s.pointer_to_raw_data + (rva - s.virtual_address);
            if rva + len <= s.virtual_address + s.size_of_raw_data && off + len <= img.bytes@.len() {
                Some(off)
            } else {
                None
            }
        },
        None => None,
    }
}

/// The `len` bytes at `rva` are mapped.
pub open spec fn mapped(img: &Image, rva: int, len: int) -> bool {
    resolve(img, rva, len) is Some
}

/// The bytes at `rva`, `len` of them, where they are mapped.
pub open spec fn bytes_at(img: &Image, rva: int, len: int) -> Seq<u8> {
    let off = resolve(img, rva, len)->Some_0;
    img.bytes@.subrange(off, off + len)
}

/// The directory entry at `index`, unless it lies outside the table or is
/// all zero.
pub open spec fn directory_entry(img: &Image, index: int) -> Option<DataDirectoryEntry> {
    if 0 <= index < img.directories@.len() {
        let e = img.directories@[index];
        if e.virtual_address == 0 && e.size == 0 {
            None
        } else {
            Some(e)
        }
    } else {
        None
    }
}

/// The relative address of `va`, where it lies within 4 GiB above the image base.
pub open spec fn rva_of(img: &Image, va: int) -> Option<int> {
    if img.image_base <= va && va - img.image_base <= u32::MAX {
        Some(va - img.image_base)
    } else {
        None
    }
}

/// Translation stays in bounds: where the `len` bytes at `rva` are mapped,
/// `rva` through `rva + len` lie in the file-backed part of one section, and
/// the bytes they resolve to lie inside the buffer.
pub proof fn lemma_mapped_in_bounds(img: &Image, rva: int, len: int)
    requires
        0 <= len,
        mapped(img, rva, len),
    ensures
        section_of(img.sections@, rva) matches Some(i) && 0 <= i < img.sections@.len()
            && section_holds(img.sections@[i], rva) && rva + len <= img.sections@[i].virtual_address
            + img.sections@[i].size_of_raw_data,
        0 <= resolve(img, rva, len)->Some_0,
        resolve(img, rva, len)->Some_0 + len <= img.bytes@.len(),
        bytes_at(img, rva, len).len() == len,
{
    lemma_section_from(img.sections@, rva, 0);
}

impl Image {
    /// An image over `bytes`, loaded at `image_base`, with the given section
    /// and data directory tables.
    pub fn new(
        bytes: Vec<u8>,
        image_base: u64,
        sections: Vec<SectionHeader>,
        directories: Vec<DataDirectoryEntry>,
    ) -> (r: Image)
        ensures
            r.bytes@ == bytes@,
            r.image_base == image_base,
            r.sections@ == sections@,
            r.directories@ == directories@,
    {
        Image { bytes, image_base, sections, directories }
    }

    /// The index of the section through which `rva` is translated.
    fn find_section(&self, rva: u32) -> (r: Option<usize>)
        ensures
            match r {
                Some(i) => section_of(self.sections@, rva as int) == Some(i as int),
                None => section_of(self.sections@, rva as int) is None,
            },
    {
        let n = self.sections.len();
        let mut i: usize = 0;
        while i < n
            invariant
                0 <= i <= n,
                n == self.sections@.len(),
                section_of(self.sections@, rva as int) == section_from(self.sections@, rva as int, i as nat),
            decreases n - i,
        {
            let s = self.sections[i];
            if s.virtual_address <= rva && (rva - s.virtual_address) < s.size_of_raw_data {
                return Some(i);
            }
            i = i + 1;
        }
        None
    }

    /// The ordered data directory table.
    pub fn data_directory(&self) -> (r: &[DataDirectoryEntry])
        ensures
            r@ == self.directories@,
    {
        self.directories.as_slice()
    }

    /// The directory entry at `index`; `None` outside the table and for an
    /// entry whose address and size are both zero.
    pub fn data_directory_entry(&self, index: usize) -> (r: Option<DataDirectoryEntry>)
        ensures
            r == directory_entry(self, index as int),
    {
        if index < self.directories.len() {
            let e = self.directories[index];
            if e.virtual_address == 0 && e.size == 0 {
                None
            } else {
                Some(e)
            }
        } else {
            None
        }
    }

    /// The `len` bytes at `rva`, borrowed from the buffer.
    pub fn derva(&self, rva: u32, len: usize) -> (r: Result<&[u8], Error>)
        ensures
            r is Ok <==> mapped(self, rva as int, len as int),
            r matches Ok(v) ==> v@ == bytes_at(self, rva as int, len as int) && v@.len() == len,
            r matches Err(e) ==> e == Error::OutOfBounds,
    {
        match self.find_section(rva) {
            None => Err(Error::OutOfBounds),
            Some(i) => {
                proof {
                    lemma_section_from(self.sections@, rva as int, 0);
                }
                let s = self.sections[i];
                let delta = rva - s.virtual_address;
                let avail = s.size_of_raw_data - delta;
                if len > avail as usize {
                    return Err(Error::OutOfBounds);
                }
                let size = self.bytes.len();
                match (s.pointer_to_raw_data as usize).checked_add(delta as usize) {
                    None => {
                        assert(s.pointer_to_raw_data + (rva - s.virtual_address) > size);
                        Err(Error::OutOfBounds)
                    },
                    Some(off) => {
                        if off > size || len > size - off {
                            Err(Error::OutOfBounds)
                        } else {
                            Ok(slice_subrange(self.bytes.as_slice(), off, off + len))
                        }
                    },
                }
            },
        }
    }

    /// The little-endian `u32` stored at `rva`; unaligned addresses are fine.
    pub fn deref_u32(&self, rva: u32) -> (r: Result<u32, Error>)
        ensures
            r is Ok <==> mapped(self, rva as int, 4),
            r matches Ok(x) ==> x as int == le_u32(bytes_at(self, rva as int, 4)),
            r matches Err(e) ==> e == Error::OutOfBounds,
    {
        let v = self.derva(rva, 4)?;
        let x = read_u32(v, 0);
        assert(v@.subrange(0, 4) =~= v@);
        Ok(x)
    }

    /// The view of `count` contiguous records of `elem_size` bytes at `rva`.
    /// A zero count gives an empty view whatever `rva` is; a byte length that
    /// does not fit in `usize` is refused.
    pub fn deref_slice(&self, rva: u32, count: usize, elem_size: usize) -> (r: Result<&[u8], Error>)
        ensures
            count == 0 ==> (r matches Ok(v) && v@.len() == 0),
            count != 0 && count * elem_size > usize::MAX ==> r == Err::<&[u8], Error>(
                Error::OutOfBounds,
            ),
            count != 0 && count * elem_size <= usize::MAX ==> {
                &&& r is Ok <==> mapped(self, rva as int, count * elem_size)
                &&& r matches Ok(v) ==> v@ == bytes_at(self, rva as int, count * elem_size)
                    && v@.len() == count * elem_size
                &&& r matches Err(e) ==> e == Error::OutOfBounds
            },
    {
        if count == 0 {
            return Ok(slice_subrange(self.bytes.as_slice(), 0, 0));
        }
        match count.checked_mul(elem_size) {
            None => Err(Error::OutOfBounds),
            Some(len) => self.derva(rva, len),
        }
    }

    /// The relative address of the virtual address `va`.
    pub fn va_to_rva(&self, va: u64) -> (r: Result<u32, Error>)
        ensures
            match rva_of(self, va as int) {
                Some(x) => r == Ok::<u32, Error>(x as u32),
                None => r == Err::<u32, Error>(Error::OutOfBounds),
            },
    {
        if va < self.image_base || va - self.image_base > u32::MAX as u64 {
            Err(Error::OutOfBounds)
        } else {
            Ok((va - self.image_base) as u32)
        }
    }
}

} // verus!
