use crate::bytes::{be16_at, be32_at, read_u16, read_u32};
use crate::error::DbError;
use vstd::prelude::*;
use vstd::std_specs::convert::TryFromSpecImpl;

verus! {

/// The four kinds of B-tree page.
#[derive(Clone, Copy, Debug, PartialEq, Eq, Structural)]
pub enum BTreePageType {
    /// An interior page of an index, flag byte 0x02.
    InteriorIndex,
    /// An interior page of a table, flag byte 0x05.
    InteriorTable,
    /// A leaf page of an index, flag byte 0x0a.
    LeafIndex,
    /// A leaf page of a table, flag byte 0x0d.
    LeafTable,
}

/// The page type that a flag byte stands for, if it stands for one.
pub open spec fn page_type_of(flag: u8) -> Option<BTreePageType> {
    if flag == 0x02 {
        Some(BTreePageType::InteriorIndex)
    } else if flag == 0x05 {
        Some(BTreePageType::InteriorTable)
    } else if flag == 0x0a {
        Some(BTreePageType::LeafIndex)
    } else if flag == 0x0d {
        Some(BTreePageType::LeafTable)
    } else {
        None
    }
}

impl BTreePageType {
    /// Whether pages of this type have children.
    pub open spec fn is_interior(self) -> bool {
        self == BTreePageType::InteriorIndex || self == BTreePageType::InteriorTable
    }

    /// The length in bytes of the header of a page of this type.
    pub open spec fn spec_header_len(self) -> int {
        if self.is_interior() {
            12
        } else {
            8
        }
    }
}

impl TryFrom<u8> for BTreePageType {
    type Error = DbError;

    fn try_from(value: u8) -> (r: Result<BTreePageType, DbError>) {
        if value == 0x02 {
            Ok(BTreePageType::InteriorIndex)
        } else if value == 0x05 {
            Ok(BTreePageType::InteriorTable)
        } else if value == 0x0a {
            Ok(BTreePageType::LeafIndex)
        } else if value == 0x0d {
            Ok(BTreePageType::LeafTable)
        } else {
            Err(DbError::Format)
        }
    }
}

impl TryFromSpecImpl<u8> for BTreePageType {
    open spec fn obeys_try_from_spec() -> bool {
        true
    }

    open spec fn try_from_spec(value: u8) -> Result<BTreePageType, DbError> {
        match page_type_of(value) {
            Some(t) => Ok(t),
            None => Err(DbError::Format),
        }
    }
}

/// The header of a B-tree page: 8 bytes on a leaf page, 12 on an interior
/// page.
#[derive(Clone, Copy, Debug, PartialEq, Eq)]
pub struct BTreePageHeader {
    /// The kind of page.
    pub page_type: BTreePageType,
    /// The offset of the first freeblock on the page, or zero.
    pub first_freeblock: u16,
    /// The number of cells on the page.
    pub num_cells: u16,
    /// The offset at which the cell content starts; 65536 where the file has
    /// zero.
    pub cell_content_area: u32,
    /// The number of fragmented free bytes within the cell content.
    pub fragmented: u8,
    /// The page number of the right-most child, on an interior page.
    pub right_most: Option<u32>,
}

/// Why `bytes` do not start with a page header, if they do not: the flag
/// byte names no page type, or the bytes end before the header does.
pub open spec fn page_header_error(bytes: Seq<u8>) -> Option<DbError> {
    if bytes.len() < 1 {
        Some(DbError::Bounds)
    } else {
        match page_type_of(bytes[0]) {
            None => Some(DbError::Format),
            Some(t) => if bytes.len() < t.spec_header_len() {
                Some(DbError::Bounds)
            } else {
                None
            },
        }
    }
}

/// The page header that `bytes` start with. `bytes` hold a whole header.
pub open spec fn page_header_of(bytes: Seq<u8>) -> BTreePageHeader {
    let t = page_type_of(bytes[0]).unwrap();
    BTreePageHeader {
        page_type: t,
        first_freeblock: be16_at(bytes, 1) as u16,
        num_cells: be16_at(bytes, 3) as u16,
        cell_content_area: (if be16_at(bytes, 5) == 0 {
            65536
        } else {
            be16_at(bytes, 5)
        }) as u32,
        fragmented: bytes[7],
        right_most: if t.is_interior() {
            Some(be32_at(bytes, 8) as u32)
        } else {
            None
        },
    }
}

impl BTreePageHeader {
    /// Whether the right-most pointer is there on an interior page and on no
    /// other.
    pub open spec fn wf(self) -> bool {
        &&& self.right_most is Some <==> self.page_type.is_interior()
        &&& 1 <= self.cell_content_area <= 65536
    }

    /// The length in bytes of this header, and so the offset of the cell
    /// pointer array.
    pub fn len(&self) -> (n: usize)
        ensures
            n == self.page_type.spec_header_len(),
    {
        match self.page_type {
            BTreePageType::InteriorIndex | BTreePageType::InteriorTable => 12,
            BTreePageType::LeafIndex | BTreePageType::LeafTable => 8,
        }
    }

    /// Decodes the page header that `bytes` start with. Fails where the flag
    /// byte names no page type, and where the bytes end before the header
    /// does.
    pub fn parse(bytes: &[u8]) -> (r: Result<BTreePageHeader, DbError>)
        ensures
            r is Ok <==> page_header_error(bytes@) is None,
            r matches Ok(h) ==> h == page_header_of(bytes@) && h.wf(),
            r matches Err(e) ==> page_header_error(bytes@) == Some(e),
    {
        if bytes.len() < 1 {
            return Err(DbError::Bounds);
        }
        let page_type = BTreePageType::try_from(bytes[0])?;
        let interior = match page_type {
            BTreePageType::InteriorIndex | BTreePageType::InteriorTable => true,
            BTreePageType::LeafIndex | BTreePageType::LeafTable => false,
        };
        if bytes.len() < 8 || (interior && bytes.len() < 12) {
            return Err(DbError::Bounds);
        }
        let first_freeblock = read_u16(bytes, 1);
        let num_cells = read_u16(bytes, 3);
        let cca = read_u16(bytes, 5);
        let cell_content_area: u32 = if cca == 0 {
            65536
        } else {
            cca as u32
        };
        let fragmented = bytes[7];
        let right_most = if interior {
            Some(read_u32(bytes, 8))
        } else {
            None
        };
        Ok(
            BTreePageHeader {
                page_type,
                first_freeblock,
                num_cells,
                cell_content_area,
                fragmented,
                right_most,
            },
        )
    }
}

} // verus!
