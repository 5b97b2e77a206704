use crate::btree_page::{parse_page, PageModel};
use crate::bytes::{be16_at, be32_at};
use crate::error::DbError;
use crate::header::{header_error, page_size_of, DbHeader};
use crate::page_header::BTreePageType;
use crate::row_count::{lemma_missing_table_not_found, RowCounter, RowCounterModel};
use crate::schema::{count_tables_from, find_root_from, names_from, names_view};
use crate::table_count::{TableCounter, TableCounterModel};
use crate::table_list::{TableLister, TableListerModel};
use crate::walk::Step;
use vstd::prelude::*;
use vstd::slice::slice_subrange;

verus! {

/// The text encoding that is read: UTF-8.
pub const UTF8: u32 = 1;

/// How a database file is cut into pages.
#[derive(Clone, Copy, Debug, PartialEq, Eq, Structural)]
pub struct Paging {
    /// The size of each page in bytes.
    pub page_size: u32,
    /// The number of pages that one walk may visit: the number of whole
    /// pages in the file, and `u32::MAX` at most.
    pub limit: u32,
}

/// What `.dbinfo` reports.
#[derive(Clone, Copy, Debug, PartialEq, Eq, Structural)]
pub struct DbInfo {
    /// The page size in bytes.
    pub db_page_size: u32,
    /// The number of tables that the schema describes.
    pub num_tables: u64,
}

/// The number of pages that one walk may visit in a file of `file_len`
/// bytes.
pub open spec fn page_limit(file_len: int, page_size: int) -> int {
    if file_len / page_size > u32::MAX {
        u32::MAX as int
    } else {
        file_len / page_size
    }
}

/// How a file of `file_len` bytes with the header `header` is cut into
/// pages. Text in another encoding than UTF-8 is not read.
pub open spec fn paging_of(header: DbHeader, file_len: int) -> Result<Paging, DbError> {
    if header.page_size == 0 {
        Err(DbError::Format)
    } else if header.db_text_encoding != 1 {
        Err(DbError::Unsupported)
    } else {
        Ok(
            Paging {
                page_size: header.page_size,
                limit: page_limit(file_len, header.page_size as int) as u32,
            },
        )
    }
}

/// The bytes of the page of the index `index`, where the file holds the
/// whole page.
pub open spec fn page_of(image: Seq<u8>, page_size: int, index: int) -> Option<Seq<u8>> {
    if index * page_size + page_size <= image.len() {
        Some(image.subrange(index * page_size, index * page_size + page_size))
    } else {
        None
    }
}

impl Paging {
    /// Says how a file of `file_len` bytes with the header `header` is cut
    /// into pages.
    pub fn of(header: &DbHeader, file_len: u64) -> (r: Result<Paging, DbError>)
        ensures
            r == paging_of(*header, file_len as int),
    {
        if header.page_size == 0 {
            return Err(DbError::Format);
        }
        if header.db_text_encoding != UTF8 {
            return Err(DbError::Unsupported);
        }
        let pages: u64 = file_len / (header.page_size as u64);
        let limit: u32 = if pages > 0xffff_ffff {
            0xffff_ffff
        } else {
            pages as u32
        };
        Ok(Paging { page_size: header.page_size, limit })
    }

    /// The offset in the file of the page of the index `index`.
    pub fn offset(&self, index: u32) -> (r: u64)
        ensures
            r == index * self.page_size,
    {
        assert(index * self.page_size <= 0xffff_ffff * 0xffff_ffff) by (nonlinear_arith)
            requires
                0 <= index <= 0xffff_ffff,
                0 <= self.page_size <= 0xffff_ffff,
        ;
        (index as u64) * (self.page_size as u64)
    }

    /// The bytes of the page of the index `index` in a file that is held in
    /// memory.
    pub fn page<'a>(&self, image: &'a [u8], index: u32) -> (r: Option<&'a [u8]>)
        ensures
            r is Some <==> page_of(image@, self.page_size as int, index as int) is Some,
            r matches Some(p) ==> page_of(image@, self.page_size as int, index as int) == Some(p@),
    {
        let start = self.offset(index);
        let len = image.len() as u64;
        if start > len || len - start < self.page_size as u64 {
            None
        } else {
            Some(slice_subrange(image, start as usize, (start + self.page_size as u64) as usize))
        }
    }
}

/// The paging of the file `image`, as its header has it.
pub open spec fn paging_in(image: Seq<u8>) -> Result<Paging, DbError> {
    match header_error(image) {
        Some(e) => Err(e),
        None => if be32_at(image, 56) != 1 {
            Err(DbError::Unsupported)
        } else {
            let page_size = page_size_of(be16_at(image, 16));
            Ok(
                Paging {
                    page_size: page_size as u32,
                    limit: page_limit(image.len() as int, page_size) as u32,
                },
            )
        },
    }
}

/// Reads the header of a file that is held in memory, and says how the file
/// is cut into pages.
pub fn paging(image: &[u8]) -> (r: Result<Paging, DbError>)
    ensures
        r == paging_in(image@),
        r matches Ok(p) ==> p.page_size >= 512,
{
    let header = DbHeader::parse(image)?;
    Paging::of(&header, image.len() as u64)
}

/// The number of tables that a walk finds which is in the state `state` and
/// waits for the page of the index `index`.
pub open spec fn count_tables_in(image: Seq<u8>, page_size: int, state: TableCounterModel, index: int)
    -> Result<nat, DbError>
    decreases state.walk.budget,
{
    match page_of(image, page_size, index) {
        None => Err(DbError::Bounds),
        Some(bytes) => match state.feed(bytes) {
            Err(e) => Err(e),
            Ok((next, Step::Done)) => Ok(next.tables),
            Ok((next, Step::Fetch(n))) => count_tables_in(image, page_size, next, n as int),
        },
    }
}

/// The number of tables of the file `image`, as a walk over the schema table
/// finds it, from the first page on.
pub open spec fn tables_counted(image: Seq<u8>) -> Result<nat, DbError> {
    match paging_in(image) {
        Err(e) => Err(e),
        Ok(paging) => count_tables_in(
            image,
            paging.page_size as int,
            TableCounterModel::start(paging.limit as nat),
            0,
        ),
    }
}

/// Reports the page size and the number of tables of a database file that
/// is held in memory.
#[verifier::loop_isolation(false)]
pub fn dbinfo(image: &[u8]) -> (r: Result<DbInfo, DbError>)
    ensures
        match tables_counted(image@) {
            Ok(n) => r matches Ok(info) && info.num_tables == n && info.db_page_size
                == paging_in(image@).unwrap().page_size,
            Err(e) => r matches Err(f) && f == e,
        },
{
    let paging = paging(image)?;
    let ghost page_size = paging.page_size as int;
    let ghost start = TableCounterModel::start(paging.limit as nat);
    let mut counter = TableCounter::new(paging.limit);
    let mut index: u32 = 0;
    loop
        invariant
            count_tables_in(image@, page_size, start, 0) == count_tables_in(
                image@,
                page_size,
                counter@,
                index as int,
            ),
        decreases counter@.walk.budget,
    {
        let bytes = match paging.page(image, index) {
            Some(bytes) => bytes,
            None => {
                return Err(DbError::Bounds);
            },
        };
        match counter.feed(bytes)? {
            Step::Done => {
                return Ok(
                    DbInfo { db_page_size: paging.page_size, num_tables: counter.tables() },
                );
            },
            Step::Fetch(n) => {
                index = n;
            },
        }
    }
}

/// The names that a walk collects which is in the state `state` and waits
/// for the page of the index `index`.
pub open spec fn list_tables_in(image: Seq<u8>, page_size: int, state: TableListerModel, index: int)
    -> Result<Seq<Seq<char>>, DbError>
    decreases state.walk.budget,
{
    match page_of(image, page_size, index) {
        None => Err(DbError::Bounds),
        Some(bytes) => match state.feed(bytes) {
            Err(e) => Err(e),
            Ok((next, Step::Done)) => Ok(next.names),
            Ok((next, Step::Fetch(n))) => list_tables_in(image, page_size, next, n as int),
        },
    }
}

/// The names of the tables of the file `image`, as a walk over the schema
/// table finds them, from the first page on.
pub open spec fn tables_listed(image: Seq<u8>) -> Result<Seq<Seq<char>>, DbError> {
    match paging_in(image) {
        Err(e) => Err(e),
        Ok(paging) => list_tables_in(
            image,
            paging.page_size as int,
            TableListerModel::start(paging.limit as nat),
            0,
        ),
    }
}

/// Lists the tables of a database file that is held in memory.
#[verifier::loop_isolation(false)]
pub fn list_tables(image: &[u8]) -> (r: Result<Vec<String>, DbError>)
    ensures
        match tables_listed(image@) {
            Ok(names) => r matches Ok(v) && names_view(v@) == names,
            Err(e) => r matches Err(f) && f == e,
        },
{
    let paging = paging(image)?;
    let ghost page_size = paging.page_size as int;
    let ghost start = TableListerModel::start(paging.limit as nat);
    let mut lister = TableLister::new(paging.limit);
    let mut index: u32 = 0;
    loop
        invariant
            list_tables_in(image@, page_size, start, 0) == list_tables_in(
                image@,
                page_size,
                lister@,
                index as int,
            ),
        decreases lister@.walk.budget,
    {
        let bytes = match paging.page(image, index) {
            Some(bytes) => bytes,
            None => {
                return Err(DbError::Bounds);
            },
        };
        match lister.feed(bytes)? {
            Step::Done => {
                return Ok(lister.into_names());
            },
            Step::Fetch(n) => {
                index = n;
            },
        }
    }
}

/// The number of rows that a counter finds which is in the state `state` and
/// waits for the page of the index `index`.
pub open spec fn count_rows_in(image: Seq<u8>, page_size: int, state: RowCounterModel, index: int)
    -> Result<nat, DbError>
    decreases
            (if state.searching {
                1nat
            } else {
                0nat
            }),
            state.walk.budget,
{
    match page_of(image, page_size, index) {
        None => Err(DbError::Bounds),
        Some(bytes) => match state.feed(bytes) {
            Err(e) => Err(e),
            Ok((next, Step::Done)) => Ok(next.rows),
            Ok((next, Step::Fetch(n))) => count_rows_in(image, page_size, next, n as int),
        },
    }
}

/// The number of rows of the table `table` of the file `image`: the schema
/// table is searched for the table's root page, from the first page on, and
/// the cells of the leaves under that root are counted.
pub open spec fn rows_counted(image: Seq<u8>, table: Seq<char>) -> Result<nat, DbError> {
    match paging_in(image) {
        Err(e) => Err(e),
        Ok(paging) => count_rows_in(
            image,
            paging.page_size as int,
            RowCounterModel::start(table, paging.limit as nat),
            0,
        ),
    }
}

/// Counts the rows of the table `table` of a database file that is held in
/// memory.
#[verifier::loop_isolation(false)]
pub fn count_rows(image: &[u8], table: &str) -> (r: Result<u64, DbError>)
    ensures
        match rows_counted(image@, table@) {
            Ok(n) => r matches Ok(k) && k == n,
            Err(e) => r matches Err(f) && f == e,
        },
{
    let paging = paging(image)?;
    let ghost page_size = paging.page_size as int;
    let ghost start = RowCounterModel::start(table@, paging.limit as nat);
    let mut counter = RowCounter::new(table, paging.limit);
    let mut index: u32 = 0;
    loop
        invariant
            count_rows_in(image@, page_size, start, 0) == count_rows_in(
                image@,
                page_size,
                counter@,
                index as int,
            ),
        decreases
                (if counter@.searching {
                    1nat
                } else {
                    0nat
                }),
                counter@.walk.budget,
    {
        let bytes = match paging.page(image, index) {
            Some(bytes) => bytes,
            None => {
                return Err(DbError::Bounds);
            },
        };
        match counter.feed(bytes)? {
            Step::Done => {
                return Ok(counter.rows());
            },
            Step::Fetch(n) => {
                index = n;
            },
        }
    }
}

/// The first page of the file `image` as a walk decodes it: the leaf that
/// holds the whole schema table, where the schema table has one page.
pub open spec fn single_schema_page(image: Seq<u8>) -> Option<PageModel> {
    match paging_in(image) {
        Err(_) => None,
        Ok(paging) => match page_of(image, paging.page_size as int, 0) {
            None => None,
            Some(bytes) => match parse_page(bytes.subrange(100, bytes.len() as int), true) {
                Err(_) => None,
                Ok(page) => if page.header.page_type == BTreePageType::LeafTable {
                    Some(page)
                } else {
                    None
                },
            },
        },
    }
}

/// Where the schema table has one page, the number of tables is the number
/// of cells of that page that describe a table.
pub proof fn lemma_single_page_tables(image: Seq<u8>)
    requires
        single_schema_page(image) is Some,
    ensures
        tables_counted(image) == count_tables_from(single_schema_page(image).unwrap().cells, 0),
{
    let paging = paging_in(image).unwrap();
    lemma_whole_page_within(image, paging.page_size as int);
    let bytes = page_of(image, paging.page_size as int, 0).unwrap();
    let start = TableCounterModel::start(paging.limit as nat);
    let page = single_schema_page(image).unwrap();
    assert(start.walk.decode(bytes) == Ok::<PageModel, DbError>(page));
    assert(start.walk.pending + Seq::<u32>::empty() =~= start.walk.pending);
}

/// Where the schema table has one page, the tables listed are those that
/// the cells of that page list, in the order of the cells.
pub proof fn lemma_single_page_names(image: Seq<u8>)
    requires
        single_schema_page(image) is Some,
    ensures
        tables_listed(image) == names_from(single_schema_page(image).unwrap().cells, 0),
{
    let paging = paging_in(image).unwrap();
    lemma_whole_page_within(image, paging.page_size as int);
    let bytes = page_of(image, paging.page_size as int, 0).unwrap();
    let start = TableListerModel::start(paging.limit as nat);
    let page = single_schema_page(image).unwrap();
    assert(start.walk.decode(bytes) == Ok::<PageModel, DbError>(page));
    assert(start.walk.pending + Seq::<u32>::empty() =~= start.walk.pending);
    match names_from(page.cells, 0) {
        Ok(names) => {
            assert(start.names + names =~= names);
        },
        Err(_) => {},
    }
}

/// Where the schema table has one page and none of its cells describes the
/// table `table`, counting the rows of that table ends with `NotFound`.
pub proof fn lemma_single_page_not_found(image: Seq<u8>, table: Seq<char>)
    requires
        single_schema_page(image) matches Some(page) && find_root_from(page.cells, table, 0)
            == Ok::<Option<u32>, DbError>(None),
    ensures
        rows_counted(image, table) == Err::<nat, DbError>(DbError::NotFound),
{
    let paging = paging_in(image).unwrap();
    lemma_whole_page_within(image, paging.page_size as int);
    let bytes = page_of(image, paging.page_size as int, 0).unwrap();
    let start = RowCounterModel::start(table, paging.limit as nat);
    let page = single_schema_page(image).unwrap();
    assert(start.walk.decode(bytes) == Ok::<PageModel, DbError>(page));
    lemma_missing_table_not_found(start, bytes);
}

/// A file that holds its first page whole allows a walk at least one page.
proof fn lemma_whole_page_within(image: Seq<u8>, page_size: int)
    requires
        page_size > 0,
        page_of(image, page_size, 0) is Some,
    ensures
        page_limit(image.len() as int, page_size) >= 1,
{
    assert(image.len() / (page_size as nat) >= 1) by (nonlinear_arith)
        requires
            page_size > 0,
            image.len() >= page_size,
    ;
}

} // verus!
