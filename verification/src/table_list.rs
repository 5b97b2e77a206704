use crate::btree_page::{BTreePage, PageModel};
use crate::error::DbError;
use crate::page_header::BTreePageType;
use crate::schema::{list_names, names_from, names_view};
use crate::text::{trim, trimmed};
use crate::walk::{children, children_of, children_valid, Step, Walk, WalkModel};
use vstd::prelude::*;
use vstd::string::StringExecFns;

verus! {

/// What one page of the schema table adds to a list of tables: the children
/// to visit and the names that the page lists. Index pages are not read.
pub open spec fn names_on_page(page: PageModel) -> Result<(Seq<u32>, Seq<Seq<char>>), DbError> {
    match page.header.page_type {
        BTreePageType::InteriorIndex => Err(DbError::Unsupported),
        BTreePageType::LeafIndex => Err(DbError::Unsupported),
        BTreePageType::InteriorTable => if children_valid(page) {
            Ok((children_of(page), Seq::empty()))
        } else {
            Err(DbError::Format)
        },
        BTreePageType::LeafTable => match names_from(page.cells, 0) {
            Ok(names) => Ok((Seq::empty(), names)),
            Err(e) => Err(e),
        },
    }
}

/// Lists the tables that the schema table describes, one page at a time.
/// Tables whose name starts with "sqlite_" are left out. The names come in
/// the order in which the walk visits the pages: a page's children wait
/// behind one another, and the one that was pushed last is visited first.
pub struct TableLister {
    walk: Walk,
    names: Vec<String>,
}

/// What a `TableLister` holds.
pub struct TableListerModel {
    /// The walk over the pages of the schema table.
    pub walk: WalkModel,
    /// The names found so far.
    pub names: Seq<Seq<char>>,
}

impl TableListerModel {
    /// The lister that has seen no page yet and may visit `limit` pages.
    pub open spec fn start(limit: nat) -> TableListerModel {
        TableListerModel {
            walk: WalkModel { at_root: true, pending: Seq::empty(), budget: limit },
            names: Seq::empty(),
        }
    }

    /// The lister after it was fed the bytes of the page it asked for, and
    /// what the caller does next.
    pub open spec fn feed(self, bytes: Seq<u8>) -> Result<(TableListerModel, Step), DbError> {
        match self.walk.decode(bytes) {
            Err(e) => Err(e),
            Ok(page) => match names_on_page(page) {
                Err(e) => Err(e),
                Ok((children, found)) => {
                    let walk = self.walk.visited(children);
                    Ok(
                        (
                            TableListerModel { walk: walk.popped(), names: self.names + found },
                            walk.next_step(),
                        ),
                    )
                },
            },
        }
    }
}

impl View for TableLister {
    type V = TableListerModel;

    closed spec fn view(&self) -> TableListerModel {
        TableListerModel { walk: self.walk@, names: names_view(self.names@) }
    }
}

impl TableLister {
    /// A lister that starts at the first page of the file and may visit
    /// `limit` pages.
    pub fn new(limit: u32) -> (c: TableLister)
        ensures
            c@ == TableListerModel::start(limit as nat),
    {
        let c = TableLister { walk: Walk::new(limit), names: Vec::new() };
        assert(names_view(c.names@) =~= Seq::<Seq<char>>::empty());
        c
    }

    /// The number of pages that the lister may still visit.
    pub fn budget(&self) -> (n: u32)
        ensures
            n == self@.walk.budget,
    {
        self.walk.budget()
    }

    /// Hands out the names found.
    pub fn into_names(self) -> (names: Vec<String>)
        ensures
            names_view(names@) == self@.names,
    {
        self.names
    }

    /// Takes the bytes of the page that was asked for last, at the start
    /// those of the first page of the file, and says what to do next. An
    /// error leaves the lister as it was.
    pub fn feed(&mut self, bytes: &[u8]) -> (r: Result<Step, DbError>)
        ensures
            match old(self)@.feed(bytes@) {
                Ok((next, step)) => r == Ok::<Step, DbError>(step) && final(self)@ == next,
                Err(e) => r == Err::<Step, DbError>(e) && final(self)@ == old(self)@,
            },
    {
        let page = self.walk.decode(bytes)?;
        let (kids, mut found) = names_found(&page)?;
        proof {
            assert(names_view(self.names@ + found@) =~= names_view(self.names@) + names_view(
                found@,
            ));
        }
        self.names.append(&mut found);
        let step = self.walk.advance(kids);
        Ok(step)
    }
}

/// Finds what one page of the schema table adds to a list of tables.
pub fn names_found(page: &BTreePage) -> (r: Result<(Vec<u32>, Vec<String>), DbError>)
    ensures
        match names_on_page(page@) {
            Ok((kids, found)) => r matches Ok((v, n)) && v@ == kids && names_view(n@) == found,
            Err(e) => r matches Err(f) && f == e,
        },
{
    match page.header.page_type {
        BTreePageType::InteriorIndex => Err(DbError::Unsupported),
        BTreePageType::LeafIndex => Err(DbError::Unsupported),
        BTreePageType::InteriorTable => match children(page) {
            Ok(kids) => {
                let none: Vec<String> = Vec::new();
                assert(names_view(none@) =~= Seq::<Seq<char>>::empty());
                Ok((kids, none))
            },
            Err(e) => Err(e),
        },
        BTreePageType::LeafTable => match list_names(&page.cells) {
            Ok(names) => Ok((Vec::new(), names)),
            Err(e) => Err(e),
        },
    }
}

/// The names one after another, a space before each.
pub open spec fn spaced(names: Seq<Seq<char>>) -> Seq<char>
    decreases names.len(),
{
    if names.len() == 0 {
        Seq::empty()
    } else {
        spaced(names.drop_last()) + " "@ + names.last()
    }
}

/// Writes the names on one line, a space between them, with no white space
/// at either end of the line.
pub fn tables_line(names: &Vec<String>) -> (line: String)
    ensures
        line@ == trimmed(spaced(names_view(names@))),
{
    let ghost all = names_view(names@);
    let mut line = String::new();
    let mut i: usize = 0;
    while i < names.len()
        invariant
            i <= names.len(),
            all == names_view(names@),
            line@ == spaced(all.take(i as int)),
        decreases names.len() - i,
    {
        proof {
            assert(all.take(i + 1).drop_last() =~= all.take(i as int));
            assert(all.take(i + 1).last() == names@[i as int]@);
        }
        line.append(" ");
        line.append(names[i].as_str());
        i += 1;
    }
    assert(all.take(names.len() as int) =~= all);
    trim(line.as_str())
}

} // verus!
