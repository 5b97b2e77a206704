use crate::bytes::{be16_at, read_u16};
use crate::cell::{parse_cell, Cell, CellModel};
use crate::error::DbError;
use crate::page_header::{page_header_error, page_header_of, BTreePageHeader, BTreePageType};
use vstd::prelude::*;
use vstd::slice::slice_subrange;

verus! {

/// The number of bytes by which the cell pointers of the first page are
/// larger than offsets into its B-tree region: the file header's length.
pub const FIRST_PAGE_SHIFT: u16 = 100;

/// One decoded B-tree page.
#[derive(Debug, PartialEq, Eq)]
pub struct BTreePage {
    /// The page's header.
    pub header: BTreePageHeader,
    /// The offset of each cell within the buffer that was decoded.
    pub cell_pointer_array: Vec<u16>,
    /// The cells, in the order of their pointers.
    pub cells: Vec<Cell>,
}

/// What a `BTreePage` holds.
pub struct PageModel {
    pub header: BTreePageHeader,
    pub cell_pointer_array: Seq<u16>,
    pub cells: Seq<CellModel>,
}

/// What each of `cells` holds.
pub open spec fn cells_view(cells: Seq<Cell>) -> Seq<CellModel> {
    Seq::new(cells.len(), |i: int| cells[i]@)
}

impl PageModel {
    /// Whether there is one pointer and one cell for each cell that the
    /// header counts, each cell of the kind that the page's type asks for.
    pub open spec fn wf(self) -> bool {
        &&& self.header.wf()
        &&& self.cell_pointer_array.len() == self.header.num_cells
        &&& self.cells.len() == self.header.num_cells
        &&& forall|i: int|
            0 <= i < self.cells.len() ==> (#[trigger] self.cells[i]).fits(self.header.page_type)
    }
}

impl View for BTreePage {
    type V = PageModel;

    open spec fn view(&self) -> PageModel {
        PageModel {
            header: self.header,
            cell_pointer_array: self.cell_pointer_array@,
            cells: cells_view(self.cells@),
        }
    }
}

/// The amount that is taken off each stored cell pointer.
pub open spec fn pointer_shift(first_page: bool) -> int {
    if first_page {
        100
    } else {
        0
    }
}

/// The `i`-th cell pointer as the page stores it, the array starting at
/// `start`.
pub open spec fn stored_pointer(bytes: Seq<u8>, start: int, i: int) -> int {
    be16_at(bytes, start + 2 * i)
}

/// Whether the array of `n` cell pointers at `start` cannot be read: it runs
/// past the end of `bytes`, or a pointer of the first page is less than 100.
pub open spec fn pointers_out_of_bounds(bytes: Seq<u8>, start: int, n: int, first_page: bool)
    -> bool {
    ||| start + 2 * n > bytes.len()
    ||| exists|i: int| 0 <= i < n && #[trigger] stored_pointer(bytes, start, i) < pointer_shift(first_page)
}

/// The `n` cell pointers at `start`, each less the shift of the first page.
pub open spec fn pointers_of(bytes: Seq<u8>, start: int, n: int, first_page: bool) -> Seq<u16> {
    Seq::new(
        n as nat,
        |i: int| (stored_pointer(bytes, start, i) - pointer_shift(first_page)) as u16,
    )
}

/// `front` before what `rest` gives, where it gives something.
pub open spec fn cells_after(front: Seq<CellModel>, rest: Result<Seq<CellModel>, DbError>)
    -> Result<Seq<CellModel>, DbError> {
    match rest {
        Ok(s) => Ok(front + s),
        Err(e) => Err(e),
    }
}

/// The cells that the pointers from the `i`-th on point to. It is an error
/// for a pointer to point past the end of `bytes`, and for a cell not to
/// decode.
pub open spec fn cells_from(bytes: Seq<u8>, kind: BTreePageType, pointers: Seq<u16>, i: int)
    -> Result<Seq<CellModel>, DbError>
    decreases pointers.len() - i,
{
    if i >= pointers.len() || i < 0 {
        Ok(Seq::empty())
    } else if pointers[i] > bytes.len() {
        Err(DbError::Bounds)
    } else {
        match parse_cell(kind, bytes.subrange(pointers[i] as int, bytes.len() as int)) {
            Err(e) => Err(e),
            Ok(c) => cells_after(seq![c], cells_from(bytes, kind, pointers, i + 1)),
        }
    }
}

/// The page that `bytes` hold: the header at the start, the cell pointers
/// after it, and the cell that each pointer points to. On the first page of
/// the file `bytes` start after the file header, and 100 is taken off each
/// stored pointer.
pub open spec fn parse_page(bytes: Seq<u8>, first_page: bool) -> Result<PageModel, DbError> {
    match page_header_error(bytes) {
        Some(e) => Err(e),
        None => {
            let header = page_header_of(bytes);
            let start = header.page_type.spec_header_len();
            let n = header.num_cells as int;
            if pointers_out_of_bounds(bytes, start, n, first_page) {
                Err(DbError::Bounds)
            } else {
                let pointers = pointers_of(bytes, start, n, first_page);
                match cells_from(bytes, header.page_type, pointers, 0) {
                    Err(e) => Err(e),
                    Ok(cells) => Ok(PageModel { header, cell_pointer_array: pointers, cells }),
                }
            }
        },
    }
}

/// Reads the `n` cell pointers at `start`.
fn read_pointers(page: &[u8], start: usize, n: u16, first_page: bool) -> (r: Result<
    Vec<u16>,
    DbError,
>)
    requires
        start <= 12,
        start <= page.len(),
    ensures
        r is Ok <==> !pointers_out_of_bounds(page@, start as int, n as int, first_page),
        r matches Ok(v) ==> v@ == pointers_of(page@, start as int, n as int, first_page),
        r matches Err(e) ==> e == DbError::Bounds,
{
    let ghost shift = pointer_shift(first_page);
    let mut pointers: Vec<u16> = Vec::new();
    let mut c: u16 = 0;
    while c < n
        invariant
            c <= n,
            start <= 12,
            shift == pointer_shift(first_page),
            pointers@.len() == c,
            start + 2 * c <= page.len(),
            forall|i: int| 0 <= i < c ==> stored_pointer(page@, start as int, i) >= shift,
            forall|i: int|
                0 <= i < c ==> pointers@[i] == stored_pointer(page@, start as int, i) - shift,
        decreases n - c,
    {
        let offset = start + 2 * (c as usize);
        if page.len() - offset < 2 {
            return Err(DbError::Bounds);
        }
        let mut cp = read_u16(page, offset);
        assert(cp == stored_pointer(page@, start as int, c as int));
        if first_page {
            if cp < FIRST_PAGE_SHIFT {
                return Err(DbError::Bounds);
            }
            cp -= FIRST_PAGE_SHIFT;
        }
        pointers.push(cp);
        c += 1;
    }
    assert(pointers@ =~= pointers_of(page@, start as int, n as int, first_page));
    Ok(pointers)
}

/// Decodes the cell that each of `pointers` points to.
fn read_cells(page: &[u8], kind: BTreePageType, pointers: &Vec<u16>) -> (r: Result<
    Vec<Cell>,
    DbError,
>)
    ensures
        r is Ok <==> cells_from(page@, kind, pointers@, 0) is Ok,
        r matches Ok(v) ==> cells_from(page@, kind, pointers@, 0) == Ok::<Seq<CellModel>, DbError>(
            cells_view(v@),
        ) && v@.len() == pointers@.len() && forall|k: int|
            0 <= k < v@.len() ==> (#[trigger] cells_view(v@)[k]).fits(kind),
        r matches Err(e) ==> cells_from(page@, kind, pointers@, 0) == Err::<
            Seq<CellModel>,
            DbError,
        >(e),
{
    let mut cells: Vec<Cell> = Vec::new();
    let mut i: usize = 0;
    while i < pointers.len()
        invariant
            i <= pointers.len(),
            cells.len() == i,
            forall|k: int| 0 <= k < i ==> (#[trigger] cells_view(cells@)[k]).fits(kind),
            cells_from(page@, kind, pointers@, 0) == cells_after(
                cells_view(cells@),
                cells_from(page@, kind, pointers@, i as int),
            ),
        decreases pointers.len() - i,
    {
        let cp = pointers[i] as usize;
        if cp > page.len() {
            return Err(DbError::Bounds);
        }
        let cell = Cell::parse(kind, slice_subrange(page, cp, page.len()))?;
        proof {
            let before = cells_view(cells@);
            assert(cells_view(cells@.push(cell)) =~= before.push(cell@));
            let tail = cells_from(page@, kind, pointers@, i + 1);
            if let Ok(t) = tail {
                assert(before.push(cell@) + t =~= before + (seq![cell@] + t));
            }
        }
        cells.push(cell);
        i += 1;
    }
    proof {
        assert(cells_view(cells@) + Seq::<CellModel>::empty() =~= cells_view(cells@));
    }
    Ok(cells)
}

impl BTreePage {
    /// Decodes one page. `page` holds the page's bytes from its B-tree
    /// header on: the whole page, or on the first page of the file what
    /// follows the file header.
    pub fn parse(page: &[u8], first_page: bool) -> (r: Result<BTreePage, DbError>)
        ensures
            r is Ok <==> parse_page(page@, first_page) is Ok,
            r matches Ok(p) ==> parse_page(page@, first_page) == Ok::<PageModel, DbError>(p@)
                && p@.wf(),
            r matches Err(e) ==> parse_page(page@, first_page) == Err::<PageModel, DbError>(e),
    {
        let header = BTreePageHeader::parse(page)?;
        let cell_pointer_array = read_pointers(
            page,
            header.len(),
            header.num_cells,
            first_page,
        )?;
        let cells = read_cells(page, header.page_type, &cell_pointer_array)?;
        Ok(BTreePage { header, cell_pointer_array, cells })
    }
}

} // verus!
