use crate::btree_page::{BTreePage, PageModel};
use crate::error::DbError;
use crate::page_header::BTreePageType;
use crate::schema::{find_root, find_root_from};
use crate::walk::{children, children_of, children_valid, Step, Walk, WalkModel};
use vstd::prelude::*;

verus! {

/// What one page of the schema table says to a search for the table `name`:
/// the children to visit, or the index of the table's root page. Index pages
/// are not read.
pub enum Found {
    /// The page has children, and these are their indices.
    Children(Seq<u32>),
    /// The page is a leaf that describes the table, with this root page.
    Root(u32),
    /// The page is a leaf that does not describe the table.
    Nothing,
}

/// What one page of the schema table says to a search for the table `name`.
pub open spec fn search_page(page: PageModel, name: Seq<char>) -> Result<Found, DbError> {
    match page.header.page_type {
        BTreePageType::InteriorIndex => Err(DbError::Unsupported),
        BTreePageType::LeafIndex => Err(DbError::Unsupported),
        BTreePageType::InteriorTable => if children_valid(page) {
            Ok(Found::Children(children_of(page)))
        } else {
            Err(DbError::Format)
        },
        BTreePageType::LeafTable => match find_root_from(page.cells, name, 0) {
            Ok(Some(root)) => Ok(Found::Root(root)),
            Ok(None) => Ok(Found::Nothing),
            Err(e) => Err(e),
        },
    }
}

/// What one page of a table adds to a count of its rows: the children to
/// visit and the number of rows on the page. A leaf holds as many rows as it
/// has cells; an interior page holds none. Index pages are not read.
pub open spec fn rows_on_page(page: PageModel) -> Result<(Seq<u32>, nat), DbError> {
    match page.header.page_type {
        BTreePageType::InteriorIndex => Err(DbError::Unsupported),
        BTreePageType::LeafIndex => Err(DbError::Unsupported),
        BTreePageType::InteriorTable => if children_valid(page) {
            Ok((children_of(page), 0))
        } else {
            Err(DbError::Format)
        },
        BTreePageType::LeafTable => Ok((Seq::empty(), page.header.num_cells as nat)),
    }
}

/// Counts the rows of one table, one page at a time: first it looks through
/// the schema table for the table's root page, then it walks the table's own
/// pages.
pub struct RowCounter {
    table: String,
    limit: u32,
    searching: bool,
    walk: Walk,
    rows: u64,
}

/// What a `RowCounter` holds.
pub struct RowCounterModel {
    /// The name of the table.
    pub table: Seq<char>,
    /// The number of pages that each of the two walks may visit.
    pub limit: nat,
    /// Whether the root page of the table is still looked for.
    pub searching: bool,
    /// The walk over the pages of the schema table, or over those of the
    /// table.
    pub walk: WalkModel,
    /// The number of rows found so far.
    pub rows: nat,
}

impl RowCounterModel {
    /// The counter that has seen no page yet, for the table `table` and
    /// walks of `limit` pages at most.
    pub open spec fn start(table: Seq<char>, limit: nat) -> RowCounterModel {
        RowCounterModel {
            table,
            limit,
            searching: true,
            walk: WalkModel { at_root: true, pending: Seq::empty(), budget: limit },
            rows: 0,
        }
    }

    /// The counter after a page of the schema table, and what the caller
    /// does next. Once the table is found its root page is next, and the
    /// pages of the schema table that still wait are dropped. Where no page
    /// waits and the table was not found, there is no such table.
    pub open spec fn search(self, page: PageModel) -> Result<(RowCounterModel, Step), DbError> {
        match search_page(page, self.table) {
            Err(e) => Err(e),
            Ok(Found::Root(root)) => Ok(
                (
                    RowCounterModel {
                        searching: false,
                        walk: WalkModel {
                            at_root: false,
                            pending: Seq::empty(),
                            budget: self.limit,
                        },
                        ..self
                    },
                    Step::Fetch(root),
                ),
            ),
            Ok(Found::Children(kids)) => {
                let walk = self.walk.visited(kids);
                Ok((RowCounterModel { walk: walk.popped(), ..self }, walk.next_step()))
            },
            Ok(Found::Nothing) => {
                let walk = self.walk.visited(Seq::empty());
                if walk.pending.len() == 0 {
                    Err(DbError::NotFound)
                } else {
                    Ok((RowCounterModel { walk: walk.popped(), ..self }, walk.next_step()))
                }
            },
        }
    }

    /// The counter after a page of the table, and what the caller does
    /// next.
    pub open spec fn count(self, page: PageModel) -> Result<(RowCounterModel, Step), DbError> {
        match rows_on_page(page) {
            Err(e) => Err(e),
            Ok((kids, found)) => {
                let walk = self.walk.visited(kids);
                Ok(
                    (
                        RowCounterModel { walk: walk.popped(), rows: self.rows + found, ..self },
                        walk.next_step(),
                    ),
                )
            },
        }
    }

    /// The counter after it was fed the bytes of the page it asked for, and
    /// what the caller does next.
    pub open spec fn feed(self, bytes: Seq<u8>) -> Result<(RowCounterModel, Step), DbError> {
        match self.walk.decode(bytes) {
            Err(e) => Err(e),
            Ok(page) => if self.searching {
                self.search(page)
            } else {
                self.count(page)
            },
        }
    }
}

impl View for RowCounter {
    type V = RowCounterModel;

    closed spec fn view(&self) -> RowCounterModel {
        RowCounterModel {
            table: self.table@,
            limit: self.limit as nat,
            searching: self.searching,
            walk: self.walk@,
            rows: self.rows as nat,
        }
    }
}

impl RowCounter {
    /// The count leaves room for the cells of every page that may still be
    /// visited, and starts when the table is found.
    #[verifier::type_invariant]
    spec fn room_left(self) -> bool {
        &&& self.rows + 0xffff * self.walk@.budget <= 0xffff * 0x1_0000_0000
        &&& self.searching ==> self.rows == 0
    }

    /// A counter for the table `table` that starts at the first page of the
    /// file. Each of its two walks may visit `limit` pages.
    pub fn new(table: &str, limit: u32) -> (c: RowCounter)
        ensures
            c@ == RowCounterModel::start(table@, limit as nat),
    {
        RowCounter {
            table: table.to_owned(),
            limit,
            searching: true,
            walk: Walk::new(limit),
            rows: 0,
        }
    }

    /// The number of rows found so far.
    pub fn rows(&self) -> (n: u64)
        ensures
            n == self@.rows,
    {
        self.rows
    }

    /// The number of pages that the walk under way may still visit.
    pub fn budget(&self) -> (n: u32)
        ensures
            n == self@.walk.budget,
    {
        self.walk.budget()
    }

    /// Whether the root page of the table is still looked for.
    pub fn is_searching(&self) -> (b: bool)
        ensures
            b == self@.searching,
    {
        self.searching
    }

    /// Takes the bytes of the page that was asked for last, at the start
    /// those of the first page of the file, and says what to do next. An
    /// error leaves the counter as it was.
    pub fn feed(&mut self, bytes: &[u8]) -> (r: Result<Step, DbError>)
        ensures
            match old(self)@.feed(bytes@) {
                Ok((next, step)) => r == Ok::<Step, DbError>(step) && final(self)@ == next,
                Err(e) => r == Err::<Step, DbError>(e) && final(self)@ == old(self)@,
            },
    {
        proof {
            use_type_invariant(&*self);
        }
        let page = self.walk.decode(bytes)?;
        if self.searching {
            let kids = match page.header.page_type {
                BTreePageType::InteriorIndex => {
                    return Err(DbError::Unsupported);
                },
                BTreePageType::LeafIndex => {
                    return Err(DbError::Unsupported);
                },
                BTreePageType::InteriorTable => children(&page)?,
                BTreePageType::LeafTable => match find_root(&page.cells, self.table.as_str())? {
                    Some(root) => {
                        self.walk = Walk::inner(self.limit);
                        self.searching = false;
                        return Ok(Step::Fetch(root));
                    },
                    None => Vec::new(),
                },
            };
            if kids.len() == 0 && self.walk.is_idle() {
                proof {
                    assert(self.walk@.pending + kids@ =~= self.walk@.pending);
                }
                return Err(DbError::NotFound);
            }
            assert(self.walk@.visited(kids@).pending.len() > 0);
            let mut walk = Walk::inner(0);
            std::mem::swap(&mut walk, &mut self.walk);
            let step = walk.advance(kids);
            self.walk = walk;
            Ok(step)
        } else {
            let (kids, found) = rows_found(&page)?;
            let mut walk = Walk::inner(0);
            std::mem::swap(&mut walk, &mut self.walk);
            let step = walk.advance(kids);
            self.walk = walk;
            self.rows = self.rows + found as u64;
            Ok(step)
        }
    }
}

/// Finds what one page of a table adds to a count of its rows.
pub fn rows_found(page: &BTreePage) -> (r: Result<(Vec<u32>, u16), DbError>)
    ensures
        match rows_on_page(page@) {
            Ok((kids, found)) => r matches Ok((v, n)) && v@ == kids && n == found,
            Err(e) => r matches Err(f) && f == e,
        },
{
    match page.header.page_type {
        BTreePageType::InteriorIndex => Err(DbError::Unsupported),
        BTreePageType::LeafIndex => Err(DbError::Unsupported),
        BTreePageType::InteriorTable => match children(page) {
            Ok(kids) => Ok((kids, 0)),
            Err(e) => Err(e),
        },
        BTreePageType::LeafTable => Ok((Vec::new(), page.header.num_cells)),
    }
}

/// A search that has come to a leaf of the schema table which does not
/// describe the table, with no page left to visit, ends with `NotFound`.
pub proof fn lemma_missing_table_not_found(state: RowCounterModel, bytes: Seq<u8>)
    requires
        state.searching,
        state.walk.pending.len() == 0,
        state.walk.decode(bytes) matches Ok(page) && search_page(page, state.table) == Ok::<
            Found,
            DbError,
        >(Found::Nothing),
    ensures
        state.feed(bytes) == Err::<(RowCounterModel, Step), DbError>(DbError::NotFound),
{
    assert(state.walk.pending + Seq::<u32>::empty() =~= state.walk.pending);
}

} // verus!
