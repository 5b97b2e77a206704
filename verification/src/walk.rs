use crate::btree_page::{parse_page, BTreePage, PageModel};
use crate::cell::{Cell, CellModel};
use crate::error::DbError;
use crate::header::HEADER_LEN;
use vstd::prelude::*;
use vstd::slice::slice_subrange;

verus! {

/// What the caller of a walk does next.
#[derive(Clone, Copy, Debug, PartialEq, Eq, Structural)]
pub enum Step {
    /// Fetch the page of this index (the page's number less one) and feed
    /// it to the walk.
    Fetch(u32),
    /// Nothing: the walk has ended.
    Done,
}

/// The state of a walk over the pages of one B-tree: the pages that wait to
/// be visited, last pushed first out, and the number of pages that the walk
/// may still visit.
pub struct Walk {
    at_root: bool,
    pending: Vec<u32>,
    budget: u32,
}

/// What a `Walk` holds.
pub struct WalkModel {
    /// Whether the page that is fed next is the first page of the file,
    /// which starts with the file header.
    pub at_root: bool,
    /// The indices of the pages that wait to be visited; the last is next.
    pub pending: Seq<u32>,
    /// The number of pages that may still be visited.
    pub budget: nat,
}

/// The index of the page that a cell of an interior table page points to:
/// its page number less one. Page numbers start at one.
pub open spec fn child_of(cell: CellModel) -> Option<u32> {
    match cell {
        CellModel::TableInterior { left_child, .. } => if left_child >= 1 {
            Some((left_child - 1) as u32)
        } else {
            None
        },
        _ => None,
    }
}

/// Whether an interior table page names each of its children by a page
/// number.
pub open spec fn children_valid(page: PageModel) -> bool {
    &&& page.header.right_most matches Some(r) && r >= 1
    &&& forall|i: int| 0 <= i < page.cells.len() ==> child_of(#[trigger] page.cells[i]) is Some
}

/// The indices of the children of an interior table page: that of each cell
/// in the order of the cells, then the right-most.
pub open spec fn children_of(page: PageModel) -> Seq<u32> {
    Seq::new(
        page.cells.len() + 1,
        |i: int|
            if i < page.cells.len() {
                child_of(page.cells[i]).unwrap()
            } else {
                (page.header.right_most.unwrap() - 1) as u32
            },
    )
}

impl WalkModel {
    /// The page that `bytes` hold for a walk in this state. The walk's first
    /// page is the first of the file, whose B-tree region starts after the
    /// file header. It is an error to visit more pages than the budget
    /// allows.
    pub open spec fn decode(self, bytes: Seq<u8>) -> Result<PageModel, DbError> {
        if self.budget == 0 {
            Err(DbError::Bounds)
        } else if self.at_root {
            if bytes.len() < 100 {
                Err(DbError::Bounds)
            } else {
                parse_page(bytes.subrange(100, bytes.len() as int), true)
            }
        } else {
            parse_page(bytes, false)
        }
    }

    /// This state after the visit of a page with the children `children`.
    pub open spec fn visited(self, children: Seq<u32>) -> WalkModel {
        WalkModel {
            at_root: false,
            pending: self.pending + children,
            budget: if self.budget > 0 {
                (self.budget - 1) as nat
            } else {
                0
            },
        }
    }

    /// What the caller does next: fetch the page that was pushed last, or
    /// nothing where none waits.
    pub open spec fn next_step(self) -> Step {
        if self.pending.len() == 0 {
            Step::Done
        } else {
            Step::Fetch(self.pending.last())
        }
    }

    /// This state once the caller has been told what to do next.
    pub open spec fn popped(self) -> WalkModel {
        if self.pending.len() == 0 {
            self
        } else {
            WalkModel { pending: self.pending.drop_last(), ..self }
        }
    }
}

impl View for Walk {
    type V = WalkModel;

    closed spec fn view(&self) -> WalkModel {
        WalkModel { at_root: self.at_root, pending: self.pending@, budget: self.budget as nat }
    }
}

/// Collects the indices of the children of an interior table page.
pub fn children(page: &BTreePage) -> (r: Result<Vec<u32>, DbError>)
    ensures
        r is Ok <==> children_valid(page@),
        r matches Ok(v) ==> v@ == children_of(page@),
        r matches Err(e) ==> e == DbError::Format,
{
    let right_most = match page.header.right_most {
        Some(r) => r,
        None => {
            return Err(DbError::Format);
        },
    };
    if right_most < 1 {
        return Err(DbError::Format);
    }
    let mut out: Vec<u32> = Vec::new();
    let mut i: usize = 0;
    while i < page.cells.len()
        invariant
            i <= page.cells.len(),
            out@.len() == i,
            forall|k: int| 0 <= k < i ==> child_of(#[trigger] page@.cells[k]) == Some(out@[k]),
        decreases page.cells.len() - i,
    {
        assert(page@.cells[i as int] == page.cells@[i as int]@);
        match &page.cells[i] {
            Cell::TableInterior { left_child, .. } => {
                if *left_child < 1 {
                    return Err(DbError::Format);
                }
                out.push(*left_child - 1);
            },
            _ => {
                return Err(DbError::Format);
            },
        }
        i += 1;
    }
    out.push(right_most - 1);
    assert(out@ =~= children_of(page@));
    Ok(out)
}

impl Walk {
    /// A walk that starts at the first page of the file and may visit
    /// `limit` pages.
    pub fn new(limit: u32) -> (w: Walk)
        ensures
            w@ == (WalkModel { at_root: true, pending: Seq::empty(), budget: limit as nat }),
    {
        Walk { at_root: true, pending: Vec::new(), budget: limit }
    }

    /// A walk that starts at another page than the first and may visit
    /// `limit` pages.
    pub fn inner(limit: u32) -> (w: Walk)
        ensures
            w@ == (WalkModel { at_root: false, pending: Seq::empty(), budget: limit as nat }),
    {
        Walk { at_root: false, pending: Vec::new(), budget: limit }
    }

    /// The number of pages that the walk may still visit.
    pub fn budget(&self) -> (n: u32)
        ensures
            n == self@.budget,
    {
        self.budget
    }

    /// Whether no page waits to be visited.
    pub fn is_idle(&self) -> (b: bool)
        ensures
            b == (self@.pending.len() == 0),
    {
        self.pending.len() == 0
    }

    /// Decodes the page that was fetched for this walk.
    pub fn decode(&self, bytes: &[u8]) -> (r: Result<BTreePage, DbError>)
        ensures
            r is Ok <==> self@.decode(bytes@) is Ok,
            r matches Ok(p) ==> self@.decode(bytes@) == Ok::<PageModel, DbError>(p@) && p@.wf(),
            r matches Err(e) ==> self@.decode(bytes@) == Err::<PageModel, DbError>(e),
    {
        if self.budget == 0 {
            Err(DbError::Bounds)
        } else if self.at_root {
            if bytes.len() < HEADER_LEN {
                Err(DbError::Bounds)
            } else {
                BTreePage::parse(slice_subrange(bytes, HEADER_LEN, bytes.len()), true)
            }
        } else {
            BTreePage::parse(bytes, false)
        }
    }

    /// Records the visit of a page with the children `children`, and says
    /// what the caller does next.
    pub fn advance(&mut self, children: Vec<u32>) -> (step: Step)
        ensures
            step == old(self)@.visited(children@).next_step(),
            final(self)@ == old(self)@.visited(children@).popped(),
    {
        let mut children = children;
        self.at_root = false;
        if self.budget > 0 {
            self.budget = self.budget - 1;
        }
        self.pending.append(&mut children);
        match self.pending.pop() {
            Some(n) => Step::Fetch(n),
            None => Step::Done,
        }
    }
}

} // verus!
