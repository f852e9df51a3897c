//! The Load Configuration Directory and its accessor.

use vstd::prelude::*;

use crate::error::Error;
use crate::image::{
    bytes_at, directory_entry, le_u16, le_u32, le_u64, lemma_mapped_in_bounds, mapped, read_u16,
    read_u32, read_u64,
    rva_of, Image,
};

verus! {

/// Index of the Load Configuration entry in the data directory table.
pub const IMAGE_DIRECTORY_ENTRY_LOAD_CONFIG: usize = 10;

/// Bytes of the 64-bit Load Configuration record read here, up to and
/// including `se_handler_count`.
pub const LOAD_CONFIG_DIRECTORY_SIZE: usize = 112;

/// Bytes of one entry of the exception handler table: a virtual address.
pub const VA_SIZE: usize = 8;

/// The 64-bit Load Configuration record, field by field.
#[derive(Clone, Copy, Debug, PartialEq, Eq, Structural)]
pub struct LoadConfigDirectory {
    pub size: u32,
    pub time_date_stamp: u32,
    pub major_version: u16,
    pub minor_version: u16,
    pub global_flags_clear: u32,
    pub global_flags_set: u32,
    pub critical_section_default_timeout: u32,
    pub de_commit_free_block_threshold: u64,
    pub de_commit_total_free_threshold: u64,
    pub lock_prefix_table: u64,
    pub maximum_allocation_size: u64,
    pub virtual_memory_threshold: u64,
    pub process_affinity_mask: u64,
    pub process_heap_flags: u32,
    pub csd_version: u16,
    pub reserved1: u16,
    pub edit_list: u64,
    pub security_cookie: u64,
    pub se_handler_table: u64,
    pub se_handler_count: u64,
}

/// The `u16` field at `off` of the record bytes `b`.
pub open spec fn field_u16(b: Seq<u8>, off: int) -> u16 {
    le_u16(b.subrange(off, off + 2)) as u16
}

/// The `u32` field at `off` of the record bytes `b`.
pub open spec fn field_u32(b: Seq<u8>, off: int) -> u32 {
    le_u32(b.subrange(off, off + 4)) as u32
}

/// The `u64` field at `off` of the record bytes `b`.
pub open spec fn field_u64(b: Seq<u8>, off: int) -> u64 {
    le_u64(b.subrange(off, off + 8)) as u64
}

/// The record that the bytes `b` encode, fields at their offsets in the format.
pub open spec fn decode_directory(b: Seq<u8>) -> LoadConfigDirectory {
    LoadConfigDirectory {
        size: field_u32(b, 0x00),
        time_date_stamp: field_u32(b, 0x04),
        major_version: field_u16(b, 0x08),
        minor_version: field_u16(b, 0x0A),
        global_flags_clear: field_u32(b, 0x0C),
        global_flags_set: field_u32(b, 0x10),
        critical_section_default_timeout: field_u32(b, 0x14),
        de_commit_free_block_threshold: field_u64(b, 0x18),
        de_commit_total_free_threshold: field_u64(b, 0x20),
        lock_prefix_table: field_u64(b, 0x28),
        maximum_allocation_size: field_u64(b, 0x30),
        virtual_memory_threshold: field_u64(b, 0x38),
        process_affinity_mask: field_u64(b, 0x40),
        process_heap_flags: field_u32(b, 0x48),
        csd_version: field_u16(b, 0x4C),
        reserved1: field_u16(b, 0x4E),
        edit_list: field_u64(b, 0x50),
        security_cookie: field_u64(b, 0x58),
        se_handler_table: field_u64(b, 0x60),
        se_handler_count: field_u64(b, 0x68),
    }
}

/// Decodes the record stored at the start of `b`.
pub fn parse_directory(b: &[u8]) -> (r: LoadConfigDirectory)
    requires
        b@.len() >= LOAD_CONFIG_DIRECTORY_SIZE,
    ensures
        r == decode_directory(b@),
{
    LoadConfigDirectory {
        size: read_u32(b, 0x00),
        time_date_stamp: read_u32(b, 0x04),
        major_version: read_u16(b, 0x08),
        minor_version: read_u16(b, 0x0A),
        global_flags_clear: read_u32(b, 0x0C),
        global_flags_set: read_u32(b, 0x10),
        critical_section_default_timeout: read_u32(b, 0x14),
        de_commit_free_block_threshold: read_u64(b, 0x18),
        de_commit_total_free_threshold: read_u64(b, 0x20),
        lock_prefix_table: read_u64(b, 0x28),
        maximum_allocation_size: read_u64(b, 0x30),
        virtual_memory_threshold: read_u64(b, 0x38),
        process_affinity_mask: read_u64(b, 0x40),
        process_heap_flags: read_u32(b, 0x48),
        csd_version: read_u16(b, 0x4C),
        reserved1: read_u16(b, 0x4E),
        edit_list: read_u64(b, 0x50),
        security_cookie: read_u64(b, 0x58),
        se_handler_table: read_u64(b, 0x60),
        se_handler_count: read_u64(b, 0x68),
    }
}

/// The record that the Load Configuration entry of `pe` points at; `Err`
/// where the entry is absent or the record is not fully mapped.
pub open spec fn directory_of(pe: &Image) -> Result<LoadConfigDirectory, Error> {
    match directory_entry(pe, IMAGE_DIRECTORY_ENTRY_LOAD_CONFIG as int) {
        None => Err(Error::OutOfBounds),
        Some(e) => if mapped(pe, e.virtual_address as int, LOAD_CONFIG_DIRECTORY_SIZE as int) {
            Ok(
                decode_directory(
                    bytes_at(pe, e.virtual_address as int, LOAD_CONFIG_DIRECTORY_SIZE as int),
                ),
            )
        } else {
            Err(Error::OutOfBounds)
        },
    }
}

/// The security cookie that `dir` points at in `pe`.
pub open spec fn cookie_of(pe: &Image, dir: LoadConfigDirectory) -> Result<u32, Error> {
    match rva_of(pe, dir.security_cookie as int) {
        None => Err(Error::OutOfBounds),
        Some(rva) => if mapped(pe, rva, 4) {
            Ok(le_u32(bytes_at(pe, rva, 4)) as u32)
        } else {
            Err(Error::OutOfBounds)
        },
    }
}

/// The `i`-th handler address in the table bytes `b`.
pub open spec fn handler_at(b: Seq<u8>, i: int) -> u64 {
    le_u64(b.subrange(VA_SIZE * i, VA_SIZE * i + VA_SIZE)) as u64
}

/// The exception handler table that `dir` describes in `pe`, in file order.
/// A zero count gives the empty table whatever the table address is.
pub open spec fn handler_table_of(pe: &Image, dir: LoadConfigDirectory) -> Result<Seq<u64>, Error> {
    let n = dir.se_handler_count as int;
    if n == 0 {
        Ok(Seq::empty())
    } else {
        match rva_of(pe, dir.se_handler_table as int) {
            None => Err(Error::OutOfBounds),
            Some(rva) => if n * VA_SIZE <= usize::MAX && mapped(pe, rva, n * VA_SIZE) {
                Ok(Seq::new(n as nat, |i: int| handler_at(bytes_at(pe, rva, n * VA_SIZE), i)))
            } else {
                Err(Error::OutOfBounds)
            },
        }
    }
}

/// Accessor of the Load Configuration Directory of an image. It holds the
/// image by reference and the record read once at construction; the fields
/// that point elsewhere are resolved anew at each call.
#[derive(Clone, Copy)]
pub struct LoadConfig<'a> {
    pe: &'a Image,
    image: LoadConfigDirectory,
}

/// What the accessor shows of itself: the security cookie and the length of
/// the handler table, or the error that each gave.
#[derive(Clone, Copy, Debug, PartialEq, Eq)]
pub struct LoadConfigSummary {
    pub security_cookie: Result<u32, Error>,
    pub se_handler_table_len: Result<usize, Error>,
}

impl<'a> LoadConfig<'a> {
    /// The image the accessor reads.
    pub closed spec fn spec_pe(&self) -> &'a Image {
        self.pe
    }

    /// The record read at construction.
    pub closed spec fn spec_image(&self) -> LoadConfigDirectory {
        self.image
    }

    /// Locates the Load Configuration entry of `pe` and reads the record it
    /// points at.
    pub fn new(pe: &'a Image) -> (r: Result<LoadConfig<'a>, Error>)
        ensures
            match r {
                Ok(lc) => lc.spec_pe() == pe && directory_of(pe) == Ok::<LoadConfigDirectory, Error>(
                    lc.spec_image(),
                ),
                Err(e) => directory_of(pe) == Err::<LoadConfigDirectory, Error>(e),
            },
    {
        let entry = match pe.data_directory_entry(IMAGE_DIRECTORY_ENTRY_LOAD_CONFIG) {
            Some(e) => e,
            None => return Err(Error::OutOfBounds),
        };
        let bytes = pe.derva(entry.virtual_address, LOAD_CONFIG_DIRECTORY_SIZE)?;
        let image = parse_directory(bytes);
        Ok(LoadConfig { pe, image })
    }

    /// The image this accessor reads.
    pub fn pe(&self) -> (r: &'a Image)
        ensures
            r == self.spec_pe(),
    {
        self.pe
    }

    /// The Load Configuration record.
    pub fn image(&self) -> (r: LoadConfigDirectory)
        ensures
            r == self.spec_image(),
    {
        self.image
    }

    /// The default security cookie of the image. Zero is a value like any
    /// other; only an address that does not resolve is an error.
    pub fn security_cookie(&self) -> (r: Result<u32, Error>)
        ensures
            r == cookie_of(self.spec_pe(), self.spec_image()),
    {
        let rva = self.pe.va_to_rva(self.image.security_cookie)?;
        self.pe.deref_u32(rva)
    }

    /// The structured exception handler table, one virtual address per entry.
    pub fn se_handler_table(&self) -> (r: Result<Vec<u64>, Error>)
        ensures
            match r {
                Ok(v) => handler_table_of(self.spec_pe(), self.spec_image()) == Ok::<Seq<u64>, Error>(
                    v@,
                ),
                Err(e) => handler_table_of(self.spec_pe(), self.spec_image()) == Err::<
                    Seq<u64>,
                    Error,
                >(e),
            },
    {
        let count = self.image.se_handler_count;
        if count == 0 {
            let v: Vec<u64> = Vec::new();
            assert(v@ =~= Seq::<u64>::empty());
            return Ok(v);
        }
        let rva = self.pe.va_to_rva(self.image.se_handler_table)?;
        if count > usize::MAX as u64 {
            return Err(Error::OutOfBounds);
        }
        let n = count as usize;
        let b = self.pe.deref_slice(rva, n, VA_SIZE)?;
        let ghost len = n * VA_SIZE;
        let mut v: Vec<u64> = Vec::new();
        let mut i: usize = 0;
        while i < n
            invariant
                0 <= i <= n,
                n == count,
                len == n * VA_SIZE,
                len <= usize::MAX,
                b@.len() == len,
                v@.len() == i,
                forall|j: int| 0 <= j < i ==> v@[j] == #[trigger] handler_at(b@, j),
            decreases n - i,
        {
            let x = read_u64(b, VA_SIZE * i);
            v.push(x);
            i = i + 1;
        }
        assert(v@ =~= Seq::new(n as nat, |j: int| handler_at(b@, j)));
        Ok(v)
    }

    /// The security cookie and the handler table's length, or their errors.
    pub fn summary(&self) -> (r: LoadConfigSummary)
        ensures
            r.security_cookie == cookie_of(self.spec_pe(), self.spec_image()),
            match handler_table_of(self.spec_pe(), self.spec_image()) {
                Ok(t) => r.se_handler_table_len == Ok::<usize, Error>(t.len() as usize),
                Err(e) => r.se_handler_table_len == Err::<usize, Error>(e),
            },
    {
        let security_cookie = self.security_cookie();
        let se_handler_table_len = match self.se_handler_table() {
            Ok(t) => Ok(t.len()),
            Err(e) => Err(e),
        };
        LoadConfigSummary { security_cookie, se_handler_table_len }
    }
}

/// An image whose Load Configuration entry is absent, outside the table or
/// all zero, has no Load Configuration record: construction fails with
/// `OutOfBounds`.
pub proof fn lemma_absent_directory(pe: &Image)
    requires
        pe.directories@.len() <= IMAGE_DIRECTORY_ENTRY_LOAD_CONFIG || (
        pe.directories@[IMAGE_DIRECTORY_ENTRY_LOAD_CONFIG as int].virtual_address == 0
            && pe.directories@[IMAGE_DIRECTORY_ENTRY_LOAD_CONFIG as int].size == 0),
    ensures
        directory_of(pe) == Err::<LoadConfigDirectory, Error>(Error::OutOfBounds),
{
}

/// A handler count of zero gives the empty table, whatever the stored table
/// address is.
pub proof fn lemma_empty_handler_table(pe: &Image, dir: LoadConfigDirectory)
    requires
        dir.se_handler_count == 0,
    ensures
        handler_table_of(pe, dir) == Ok::<Seq<u64>, Error>(Seq::empty()),
{
}

/// A handler table that resolves has exactly `se_handler_count` entries, and
/// entry `i` is the address stored in the `i`-th eight bytes of the view at
/// the table's address, so the entries come in file order.
pub proof fn lemma_handler_table_entries(pe: &Image, dir: LoadConfigDirectory)
    requires
        handler_table_of(pe, dir) is Ok,
    ensures
        handler_table_of(pe, dir) matches Ok(t) && t.len() == dir.se_handler_count && (
        dir.se_handler_count > 0 ==> {
            let rva = rva_of(pe, dir.se_handler_table as int)->Some_0;
            let table = bytes_at(pe, rva, VA_SIZE * dir.se_handler_count);
            &&& table.len() == VA_SIZE * dir.se_handler_count
            &&& forall|i: int|
                0 <= i < t.len() ==> #[trigger] t[i] == le_u64(
                    table.subrange(VA_SIZE * i, VA_SIZE * i + VA_SIZE),
                ) as u64
        }),
{
    let n = dir.se_handler_count as int;
    if n > 0 {
        let rva = rva_of(pe, dir.se_handler_table as int)->Some_0;
        assert(VA_SIZE * n == n * VA_SIZE);
        lemma_mapped_in_bounds(pe, rva, n * VA_SIZE);
    }
}

/// The accessor mutates nothing: two calls of `security_cookie` on one
/// accessor return the same result, and so do two calls of
/// `se_handler_table` and of `image`.
pub proof fn lemma_repeated_calls_agree(lc: LoadConfig)
    ensures
        forall|r1: Result<u32, Error>, r2: Result<u32, Error>|
            call_ensures(LoadConfig::security_cookie, (&lc,), r1) && call_ensures(
                LoadConfig::security_cookie,
                (&lc,),
                r2,
            ) ==> r1 == r2,
        forall|r1: Result<Vec<u64>, Error>, r2: Result<Vec<u64>, Error>|
            call_ensures(LoadConfig::se_handler_table, (&lc,), r1) && call_ensures(
                LoadConfig::se_handler_table,
                (&lc,),
                r2,
            ) ==> match (r1, r2) {
                (Ok(a), Ok(b)) => a@ == b@,
                (Err(a), Err(b)) => a == b,
                _ => false,
            },
        forall|r1: LoadConfigDirectory, r2: LoadConfigDirectory|
            call_ensures(LoadConfig::image, (&lc,), r1) && call_ensures(LoadConfig::image, (&lc,), r2)
                ==> r1 == r2,
{
}

} // verus!
