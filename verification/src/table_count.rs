use crate::btree_page::{BTreePage, PageModel};
use crate::error::DbError;
use crate::page_header::BTreePageType;
use crate::schema::{count_tables, count_tables_from};
use crate::walk::{children, children_of, children_valid, Step, Walk, WalkModel};
use vstd::prelude::*;

verus! {

/// What one page of the schema table adds to a count of tables: the
/// children to visit and the number of tables that the page describes. Index
/// pages are not read.
pub open spec fn tables_on_page(page: PageModel) -> Result<(Seq<u32>, nat), DbError> {
    match page.header.page_type {
        BTreePageType::InteriorIndex => Err(DbError::Unsupported),
        BTreePageType::LeafIndex => Err(DbError::Unsupported),
        BTreePageType::InteriorTable => if children_valid(page) {
            Ok((children_of(page), 0))
        } else {
            Err(DbError::Format)
        },
        BTreePageType::LeafTable => match count_tables_from(page.cells, 0) {
            Ok(n) => Ok((Seq::empty(), n)),
            Err(e) => Err(e),
        },
    }
}

/// Counts the tables that the schema table describes, one page at a time.
pub struct TableCounter {
    walk: Walk,
    tables: u64,
}

/// What a `TableCounter` holds.
pub struct TableCounterModel {
    /// The walk over the pages of the schema table.
    pub walk: WalkModel,
    /// The number of tables found so far.
    pub tables: nat,
}

impl TableCounterModel {
    /// The counter that has seen no page yet and may visit `limit` pages.
    pub open spec fn start(limit: nat) -> TableCounterModel {
        TableCounterModel {
            walk: WalkModel { at_root: true, pending: Seq::empty(), budget: limit },
            tables: 0,
        }
    }

    /// The counter after it was fed the bytes of the page it asked for, and
    /// what the caller does next.
    pub open spec fn feed(self, bytes: Seq<u8>) -> Result<(TableCounterModel, Step), DbError> {
        match self.walk.decode(bytes) {
            Err(e) => Err(e),
            Ok(page) => match tables_on_page(page) {
                Err(e) => Err(e),
                Ok((children, found)) => {
                    let walk = self.walk.visited(children);
                    Ok(
                        (
                            TableCounterModel {
                                walk: walk.popped(),
                                tables: self.tables + found,
                            },
                            walk.next_step(),
                        ),
                    )
                },
            },
        }
    }
}

impl View for TableCounter {
    type V = TableCounterModel;

    closed spec fn view(&self) -> TableCounterModel {
        TableCounterModel { walk: self.walk@, tables: self.tables as nat }
    }
}

impl TableCounter {
    /// The count leaves room for the cells of every page that may still be
    /// visited.
    #[verifier::type_invariant]
    spec fn room_left(self) -> bool {
        self.tables + 0xffff * self.walk@.budget <= 0xffff * 0x1_0000_0000
    }

    /// A counter that starts at the first page of the file and may visit
    /// `limit` pages.
    pub fn new(limit: u32) -> (c: TableCounter)
        ensures
            c@ == TableCounterModel::start(limit as nat),
    {
        TableCounter { walk: Walk::new(limit), tables: 0 }
    }

    /// The number of tables found so far.
    pub fn tables(&self) -> (n: u64)
        ensures
            n == self@.tables,
    {
        self.tables
    }

    /// Takes the bytes of the page that was asked for last, at the start
    /// those of the first page of the file, and says what to do next. An
    /// error leaves the counter as it was.
    pub fn feed(&mut self, bytes: &[u8]) -> (r: Result<Step, DbError>)
        ensures
            match old(self)@.feed(bytes@) {
                Ok((next, step)) => r == Ok::<Step, DbError>(step) && final(self)@ == next,
                Err(e) => r == Err::<Step, DbError>(e) && final(self)@ == old(self)@,
            },
    {
        let page = self.walk.decode(bytes)?;
        let (kids, found) = tables_found(&page)?;
        proof {
            use_type_invariant(&*self);
        }
        let mut walk = Walk::inner(0);
        std::mem::swap(&mut walk, &mut self.walk);
        let step = walk.advance(kids);
        self.walk = walk;
        self.tables = self.tables + found as u64;
        Ok(step)
    }
}

/// Finds what one page of the schema table adds to a count of tables.
pub fn tables_found(page: &BTreePage) -> (r: Result<(Vec<u32>, usize), DbError>)
    ensures
        match tables_on_page(page@) {
            Ok((kids, found)) => r matches Ok((v, n)) && v@ == kids && n == found && n
                <= page@.cells.len(),
            Err(e) => r matches Err(f) && f == e,
        },
{
    match page.header.page_type {
        BTreePageType::InteriorIndex => Err(DbError::Unsupported),
        BTreePageType::LeafIndex => Err(DbError::Unsupported),
        BTreePageType::InteriorTable => match children(page) {
            Ok(kids) => Ok((kids, 0)),
            Err(e) => Err(e),
        },
        BTreePageType::LeafTable => {
            assert(page@.cells.len() == page.cells@.len());
            match count_tables(&page.cells) {
                Ok(n) => Ok((Vec::new(), n)),
                Err(e) => Err(e),
            }
        },
    }
}

} // verus!
