use crate::bytes::{be32_at, read_u32};
use crate::error::DbError;
use crate::page_header::BTreePageType;
use crate::record::{parse_record, Record, RecordModel};
use crate::varint::{varint_value, varint_width, Varint};
use vstd::prelude::*;
use vstd::slice::slice_subrange;

verus! {

/// One entry of a B-tree page.
#[derive(Debug, PartialEq, Eq)]
pub enum Cell {
    /// A row of a table.
    TableLeaf {
        /// The length of the payload in bytes, overflow included.
        payload_len: Varint,
        /// The row id.
        key: Varint,
        /// The row.
        payload: Record,
        /// The first overflow page, where the record's length differs from
        /// that of the payload.
        overflow: Option<u32>,
    },
    /// A pointer to a child page of a table.
    TableInterior {
        /// The page number of the child.
        left_child: u32,
        /// The largest row id in the child's subtree.
        key: Varint,
    },
    /// A cell of an index leaf page.
    IndexLeaf,
    /// A cell of an index interior page.
    IndexInterior,
}

/// What a `Cell` holds.
pub enum CellModel {
    TableLeaf { payload_len: int, key: int, payload: RecordModel, overflow: Option<u32> },
    TableInterior { left_child: u32, key: int },
    IndexLeaf,
    IndexInterior,
}

impl CellModel {
    /// Whether this is a cell of a page of the type `kind`, with a well-formed
    /// record where it has one.
    pub open spec fn fits(self, kind: BTreePageType) -> bool {
        match kind {
            BTreePageType::LeafTable => self is TableLeaf && self->payload.wf(),
            BTreePageType::InteriorTable => self is TableInterior,
            BTreePageType::LeafIndex => self is IndexLeaf,
            BTreePageType::InteriorIndex => self is IndexInterior,
        }
    }
}

impl View for Cell {
    type V = CellModel;

    open spec fn view(&self) -> CellModel {
        match self {
            Cell::TableLeaf { payload_len, key, payload, overflow } => CellModel::TableLeaf {
                payload_len: payload_len.0 as int,
                key: key.0 as int,
                payload: payload@,
                overflow: *overflow,
            },
            Cell::TableInterior { left_child, key } => CellModel::TableInterior {
                left_child: *left_child,
                key: key.0 as int,
            },
            Cell::IndexLeaf => CellModel::IndexLeaf,
            Cell::IndexInterior => CellModel::IndexInterior,
        }
    }
}

/// The cell of an interior table page that `bytes` start with: the child's
/// page number in four bytes, then the key.
pub open spec fn parse_interior_cell(bytes: Seq<u8>) -> Result<CellModel, DbError> {
    if bytes.len() < 4 {
        Err(DbError::Bounds)
    } else {
        let rest = bytes.subrange(4, bytes.len() as int);
        if varint_width(rest) > rest.len() {
            Err(DbError::Bounds)
        } else {
            Ok(
                CellModel::TableInterior {
                    left_child: be32_at(bytes, 0) as u32,
                    key: varint_value(rest),
                },
            )
        }
    }
}

/// The cell of a leaf table page that `bytes` start with: the payload's
/// length, the row id, the record, and the number of the first overflow page
/// where the record's length is not the payload's.
pub open spec fn parse_leaf_cell(bytes: Seq<u8>) -> Result<CellModel, DbError> {
    let w1 = varint_width(bytes);
    if w1 > bytes.len() {
        Err(DbError::Bounds)
    } else {
        let after_len = bytes.subrange(w1, bytes.len() as int);
        let w2 = varint_width(after_len);
        if w2 > after_len.len() {
            Err(DbError::Bounds)
        } else {
            let payload_len = varint_value(bytes);
            let key = varint_value(after_len);
            let start = w1 + w2;
            match parse_record(bytes.subrange(start, bytes.len() as int)) {
                Err(e) => Err(e),
                Ok((payload, n)) => if n == payload_len {
                    Ok(CellModel::TableLeaf { payload_len, key, payload, overflow: None })
                } else if start + n + 4 > bytes.len() {
                    Err(DbError::Bounds)
                } else {
                    Ok(
                        CellModel::TableLeaf {
                            payload_len,
                            key,
                            payload,
                            overflow: Some(be32_at(bytes, start + n) as u32),
                        },
                    )
                },
            }
        }
    }
}

/// The cell of a page of the type `kind` that `bytes` start with. The cells
/// of index pages are not decoded.
pub open spec fn parse_cell(kind: BTreePageType, bytes: Seq<u8>) -> Result<CellModel, DbError> {
    match kind {
        BTreePageType::InteriorIndex => Err(DbError::Unsupported),
        BTreePageType::LeafIndex => Err(DbError::Unsupported),
        BTreePageType::InteriorTable => parse_interior_cell(bytes),
        BTreePageType::LeafTable => parse_leaf_cell(bytes),
    }
}

impl Cell {
    /// Decodes the cell of a page of the type `kind` that `bytes` start
    /// with.
    pub fn parse(kind: BTreePageType, bytes: &[u8]) -> (r: Result<Cell, DbError>)
        ensures
            r is Ok <==> parse_cell(kind, bytes@) is Ok,
            r matches Ok(c) ==> parse_cell(kind, bytes@) == Ok::<CellModel, DbError>(c@)
                && c@.fits(kind),
            r matches Err(e) ==> parse_cell(kind, bytes@) == Err::<CellModel, DbError>(e),
    {
        match kind {
            BTreePageType::InteriorIndex => Err(DbError::Unsupported),
            BTreePageType::LeafIndex => Err(DbError::Unsupported),
            BTreePageType::InteriorTable => {
                if bytes.len() < 4 {
                    return Err(DbError::Bounds);
                }
                let left_child = read_u32(bytes, 0);
                match Varint::parse(slice_subrange(bytes, 4, bytes.len())) {
                    Ok((key, _)) => Ok(Cell::TableInterior { left_child, key }),
                    Err(e) => Err(e),
                }
            },
            BTreePageType::LeafTable => {
                let (payload_len, w1) = Varint::parse(bytes)?;
                let (key, w2) = Varint::parse(slice_subrange(bytes, w1, bytes.len()))?;
                let start = w1 + w2;
                let (payload, n) = Record::parse(slice_subrange(bytes, start, bytes.len()))?;
                let end = start + n;
                let overflow = if payload_len.0 >= 0 && n as u64 == payload_len.0 as u64 {
                    None
                } else {
                    if bytes.len() - end < 4 {
                        return Err(DbError::Bounds);
                    }
                    Some(read_u32(bytes, end))
                };
                Ok(Cell::TableLeaf { payload_len, key, payload, overflow })
            },
        }
    }
}

} // verus!
