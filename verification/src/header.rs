use crate::bytes::{be16_at, be32_at, read_u16, read_u32};
use crate::error::DbError;
use vstd::prelude::*;

verus! {

/// The length of the database file header, in bytes.
pub const HEADER_LEN: usize = 100;

/// "SQLite format 3" and the nul character that ends it.
pub const MAGIC: [u8; 16] = [
    0x53, 0x51, 0x4c, 0x69, 0x74, 0x65, 0x20, 0x66, 0x6f, 0x72, 0x6d, 0x61, 0x74, 0x20, 0x33, 0x00,
];

/// The database file header: the first 100 bytes of the file.
#[derive(Debug, PartialEq, Eq)]
pub struct DbHeader<'m> {
    /// The 16 bytes of the signature, as found in the file.
    pub magic: &'m [u8],
    /// The page size in bytes: a power of two from 512 to 32768, or 65536.
    pub page_size: u32,
    /// 1 for rollback journalling, 2 for write-ahead logging.
    pub format_write_version: u8,
    /// 1 for rollback journalling, 2 for write-ahead logging.
    pub format_read_version: u8,
    /// The bytes left unused at the end of each page.
    pub reserved_space: u8,
    /// Always 64.
    pub max_embedded_payload: u8,
    /// Always 32.
    pub min_embedded_payload: u8,
    /// Always 32.
    pub leaf_payload: u8,
    /// Counts the changes made to the file.
    pub file_change_count: u32,
    /// The size of the file in pages, as the header has it.
    pub page_count: u32,
    /// The first page of the freelist, or zero where the list is empty.
    pub freelist_trunk_head: u32,
    /// The number of pages on the freelist.
    pub freelist_page_count: u32,
    /// Counts the changes made to the schema.
    pub schema_cookie: u32,
    /// The schema format: 0 for an empty database, else 1 to 4.
    pub schema_format: u32,
    /// The suggested size of the page cache.
    pub default_page_cache_size: u32,
    /// The largest root page, where a vacuum mode is on.
    pub vacuum_root_page: Option<u32>,
    /// How text is stored: 1 is UTF-8, 2 is UTF-16le, 3 is UTF-16be.
    pub db_text_encoding: u32,
    /// A number that the application sets and reads.
    pub user_version: u32,
    /// Whether the incremental vacuum mode is on.
    pub incremental_vacuum: bool,
    /// A number that names the application that owns the file.
    pub application_id: u32,
    /// The change count at the time the version number was stored.
    pub version_valid_for: u32,
    /// The version number of the library that last wrote the file.
    pub sqlite_version: u32,
}

/// Whether `n` is a power of two.
pub open spec fn is_power_of_two(n: int) -> bool
    decreases n,
{
    n == 1 || (n > 1 && n % 2 == 0 && is_power_of_two(n / 2))
}

/// Whether the two bytes of the page size field may stand in a header: 1,
/// which stands for 65536, or a power of two from 512 to 32768.
pub open spec fn page_size_valid(raw: int) -> bool {
    raw == 1 || (512 <= raw <= 32768 && is_power_of_two(raw))
}

/// The page size in bytes that the field's value `raw` stands for.
pub open spec fn page_size_of(raw: int) -> int {
    if raw == 1 {
        65536
    } else {
        raw
    }
}

/// Whether the first 16 bytes are the signature.
pub open spec fn has_magic(bytes: Seq<u8>) -> bool {
    bytes.len() >= 16 && bytes.subrange(0, 16) == MAGIC@
}

/// Whether the values of the header's checked fields are all legal. `bytes`
/// holds at least 100 bytes.
pub open spec fn fields_valid(bytes: Seq<u8>) -> bool {
    &&& has_magic(bytes)
    &&& page_size_valid(be16_at(bytes, 16))
    &&& (bytes[18] == 1 || bytes[18] == 2)
    &&& (bytes[19] == 1 || bytes[19] == 2)
    &&& bytes[21] == 64
    &&& bytes[22] == 32
    &&& bytes[23] == 32
    &&& (be32_at(bytes, 32) == 0 <==> be32_at(bytes, 36) == 0)
    &&& be32_at(bytes, 44) <= 4
    &&& 1 <= be32_at(bytes, 56) <= 3
}

/// Why `bytes` do not start with a database header, if they do not: they are
/// fewer than 100, or a checked field has an illegal value.
pub open spec fn header_error(bytes: Seq<u8>) -> Option<DbError> {
    if bytes.len() < 100 {
        Some(DbError::Bounds)
    } else if !fields_valid(bytes) {
        Some(DbError::Format)
    } else {
        None
    }
}

impl<'m> DbHeader<'m> {
    /// Whether each field holds what `bytes` have at its offset.
    pub open spec fn decodes(self, bytes: Seq<u8>) -> bool {
        &&& self.magic@ == bytes.subrange(0, 16)
        &&& self.page_size == page_size_of(be16_at(bytes, 16))
        &&& self.format_write_version == bytes[18]
        &&& self.format_read_version == bytes[19]
        &&& self.reserved_space == bytes[20]
        &&& self.max_embedded_payload == bytes[21]
        &&& self.min_embedded_payload == bytes[22]
        &&& self.leaf_payload == bytes[23]
        &&& self.file_change_count == be32_at(bytes, 24)
        &&& self.page_count == be32_at(bytes, 28)
        &&& self.freelist_trunk_head == be32_at(bytes, 32)
        &&& self.freelist_page_count == be32_at(bytes, 36)
        &&& self.schema_cookie == be32_at(bytes, 40)
        &&& self.schema_format == be32_at(bytes, 44)
        &&& self.default_page_cache_size == be32_at(bytes, 48)
        &&& self.vacuum_root_page == (if be32_at(bytes, 52) == 0 {
            None
        } else {
            Some(be32_at(bytes, 52) as u32)
        })
        &&& self.db_text_encoding == be32_at(bytes, 56)
        &&& self.user_version == be32_at(bytes, 60)
        &&& self.incremental_vacuum == (be32_at(bytes, 64) > 0)
        &&& self.application_id == be32_at(bytes, 68)
        &&& self.version_valid_for == be32_at(bytes, 92)
        &&& self.sqlite_version == be32_at(bytes, 96)
    }

    /// Whether the fields hold values that a header may have.
    pub open spec fn wf(self) -> bool {
        &&& self.magic@ == MAGIC@
        &&& (self.page_size == 65536 || (512 <= self.page_size <= 32768 && is_power_of_two(
            self.page_size as int,
        )))
        &&& (self.format_write_version == 1 || self.format_write_version == 2)
        &&& (self.format_read_version == 1 || self.format_read_version == 2)
        &&& self.max_embedded_payload == 64
        &&& self.min_embedded_payload == 32
        &&& self.leaf_payload == 32
        &&& (self.freelist_trunk_head == 0 <==> self.freelist_page_count == 0)
        &&& self.schema_format <= 4
        &&& 1 <= self.db_text_encoding <= 3
        &&& self.vacuum_root_page != Some(0u32)
    }

    /// Decodes the database header from the first 100 bytes of the file.
    /// Fails where there are fewer bytes, and where the signature or another
    /// checked field is wrong.
    pub fn parse(bytes: &'m [u8]) -> (r: Result<DbHeader<'m>, DbError>)
        ensures
            r is Ok <==> header_error(bytes@) is None,
            r matches Ok(h) ==> h.decodes(bytes@) && h.wf(),
            r matches Err(e) ==> header_error(bytes@) == Some(e),
    {
        if bytes.len() < HEADER_LEN {
            return Err(DbError::Bounds);
        }
        let magic = &bytes[0..16];
        if !is_magic(magic) {
            return Err(DbError::Format);
        }
        let raw = read_u16(bytes, 16);
        let page_size: u32 = if raw == 1 {
            65536
        } else {
            if raw < 512 || raw > 32768 || !power_of_two(raw) {
                return Err(DbError::Format);
            }
            raw as u32
        };
        let format_write_version = bytes[18];
        if format_write_version != 1 && format_write_version != 2 {
            return Err(DbError::Format);
        }
        let format_read_version = bytes[19];
        if format_read_version != 1 && format_read_version != 2 {
            return Err(DbError::Format);
        }
        let reserved_space = bytes[20];
        let max_embedded_payload = bytes[21];
        if max_embedded_payload != 64 {
            return Err(DbError::Format);
        }
        let min_embedded_payload = bytes[22];
        if min_embedded_payload != 32 {
            return Err(DbError::Format);
        }
        let leaf_payload = bytes[23];
        if leaf_payload != 32 {
            return Err(DbError::Format);
        }
        let file_change_count = read_u32(bytes, 24);
        let page_count = read_u32(bytes, 28);
        let freelist_trunk_head = read_u32(bytes, 32);
        let freelist_page_count = read_u32(bytes, 36);
        if (freelist_page_count == 0) != (freelist_trunk_head == 0) {
            return Err(DbError::Format);
        }
        let schema_cookie = read_u32(bytes, 40);
        let schema_format = read_u32(bytes, 44);
        if schema_format > 4 {
            return Err(DbError::Format);
        }
        let default_page_cache_size = read_u32(bytes, 48);
        let vacuum = read_u32(bytes, 52);
        let vacuum_root_page = if vacuum == 0 {
            None
        } else {
            Some(vacuum)
        };
        let db_text_encoding = read_u32(bytes, 56);
        if db_text_encoding < 1 || db_text_encoding > 3 {
            return Err(DbError::Format);
        }
        let user_version = read_u32(bytes, 60);
        let incremental_vacuum = read_u32(bytes, 64) > 0;
        let application_id = read_u32(bytes, 68);
        let version_valid_for = read_u32(bytes, 92);
        let sqlite_version = read_u32(bytes, 96);
        Ok(
            DbHeader {
                magic,
                page_size,
                format_write_version,
                format_read_version,
                reserved_space,
                max_embedded_payload,
                min_embedded_payload,
                leaf_payload,
                file_change_count,
                page_count,
                freelist_trunk_head,
                freelist_page_count,
                schema_cookie,
                schema_format,
                default_page_cache_size,
                vacuum_root_page,
                db_text_encoding,
                user_version,
                incremental_vacuum,
                application_id,
                version_valid_for,
                sqlite_version,
            },
        )
    }
}

/// Whether `bytes` are the 16 bytes of the signature.
fn is_magic(bytes: &[u8]) -> (b: bool)
    ensures
        b == (bytes@ == MAGIC@),
{
    if bytes.len() != 16 {
        return false;
    }
    let mut i: usize = 0;
    while i < 16
        invariant
            i <= 16,
            bytes.len() == 16,
            forall|j: int| 0 <= j < i ==> bytes@[j] == MAGIC@[j],
        decreases 16 - i,
    {
        if bytes[i] != MAGIC[i] {
            return false;
        }
        i += 1;
    }
    assert(bytes@ =~= MAGIC@);
    true
}

/// Whether `n` is a power of two.
fn power_of_two(n: u16) -> (b: bool)
    ensures
        b == is_power_of_two(n as int),
{
    if n == 0 {
        return false;
    }
    let mut m: u16 = n;
    while m % 2 == 0
        invariant
            m >= 1,
            is_power_of_two(n as int) == is_power_of_two(m as int),
        decreases m,
    {
        m = m / 2;
    }
    m == 1
}

/// Altering any one byte of the signature makes a header that does not
/// decode.
pub proof fn lemma_altered_magic_fails(bytes: Seq<u8>, i: int, b: u8)
    requires
        has_magic(bytes),
        0 <= i < 16,
        b != bytes[i],
    ensures
        !has_magic(bytes.update(i, b)),
        header_error(bytes.update(i, b)) is Some,
{
    let altered = bytes.update(i, b);
    assert(bytes.subrange(0, 16)[i] == bytes[i]);
    assert(altered.subrange(0, 16)[i] == b);
}

} // verus!
