use crate::btree_page::cells_view;
use crate::cell::{Cell, CellModel};
use crate::error::DbError;
use crate::record::{Record, RecordModel, RecordValue};
use crate::text::{starts_with, text_eq};
use vstd::prelude::*;

verus! {

/// The text in the `i`-th column of a record, where there is such a column
/// and it holds text.
pub open spec fn column_text(record: RecordModel, i: int) -> Option<Seq<char>> {
    if 0 <= i < record.values.len() {
        record.values[i].text()
    } else {
        None
    }
}

/// The integer in the `i`-th column of a record, where there is such a
/// column and it holds an integer that is stored in the record's body.
pub open spec fn column_int(record: RecordModel, i: int) -> Option<int> {
    if 0 <= i < record.values.len() {
        record.values[i].stored_int()
    } else {
        None
    }
}

/// Whether a cell of the schema table describes a table: whether its first
/// column is the text "table". It is an error for the cell not to be a row,
/// and for the column not to hold text.
pub open spec fn is_table_row(cell: CellModel) -> Result<bool, DbError> {
    match cell {
        CellModel::TableLeaf { payload, .. } => match column_text(payload, 0) {
            Some(kind) => Ok(kind == "table"@),
            None => Err(DbError::Format),
        },
        _ => Err(DbError::Format),
    }
}

/// The name of the table that a cell of the schema table describes: its
/// third column. `None` where the cell describes something else. It is an
/// error for the column not to hold text.
pub open spec fn table_name(cell: CellModel) -> Result<Option<Seq<char>>, DbError> {
    match is_table_row(cell) {
        Err(e) => Err(e),
        Ok(false) => Ok(None),
        Ok(true) => match column_text(cell->payload, 2) {
            Some(name) => Ok(Some(name)),
            None => Err(DbError::Format),
        },
    }
}

/// The name of the table that a cell of the schema table describes, unless
/// the name marks the table as internal: unless it starts with "sqlite_".
pub open spec fn listed_name(cell: CellModel) -> Result<Option<Seq<char>>, DbError> {
    match table_name(cell) {
        Err(e) => Err(e),
        Ok(None) => Ok(None),
        Ok(Some(name)) => if "sqlite_"@.is_prefix_of(name) {
            Ok(None)
        } else {
            Ok(Some(name))
        },
    }
}

/// The index of the root page of the table `name`, where the cell describes
/// that table: its fourth column less one. `None` where the cell describes
/// something else. It is an error for the column not to hold a stored
/// integer, and for the integer not to be a page number.
pub open spec fn root_if_named(cell: CellModel, name: Seq<char>) -> Result<Option<u32>, DbError> {
    match table_name(cell) {
        Err(e) => Err(e),
        Ok(None) => Ok(None),
        Ok(Some(found)) => if found != name {
            Ok(None)
        } else {
            match column_int(cell->payload, 3) {
                Some(page) => if 1 <= page <= u32::MAX {
                    Ok(Some((page - 1) as u32))
                } else {
                    Err(DbError::Format)
                },
                None => Err(DbError::Format),
            }
        },
    }
}

/// `n` more than what `rest` gives, where it gives something.
pub open spec fn count_after(n: nat, rest: Result<nat, DbError>) -> Result<nat, DbError> {
    match rest {
        Ok(m) => Ok(n + m),
        Err(e) => Err(e),
    }
}

/// The number of cells from the `i`-th on that describe a table.
pub open spec fn count_tables_from(cells: Seq<CellModel>, i: int) -> Result<nat, DbError>
    decreases cells.len() - i,
{
    if i >= cells.len() || i < 0 {
        Ok(0)
    } else {
        match is_table_row(cells[i]) {
            Err(e) => Err(e),
            Ok(b) => count_after(
                if b {
                    1
                } else {
                    0
                },
                count_tables_from(cells, i + 1),
            ),
        }
    }
}

/// `front` before what `rest` gives, where it gives something.
pub open spec fn names_after(front: Seq<Seq<char>>, rest: Result<Seq<Seq<char>>, DbError>)
    -> Result<Seq<Seq<char>>, DbError> {
    match rest {
        Ok(s) => Ok(front + s),
        Err(e) => Err(e),
    }
}

/// The names that the cells from the `i`-th on list, in the order of the
/// cells.
pub open spec fn names_from(cells: Seq<CellModel>, i: int) -> Result<Seq<Seq<char>>, DbError>
    decreases cells.len() - i,
{
    if i >= cells.len() || i < 0 {
        Ok(Seq::empty())
    } else {
        match listed_name(cells[i]) {
            Err(e) => Err(e),
            Ok(None) => names_from(cells, i + 1),
            Ok(Some(name)) => names_after(seq![name], names_from(cells, i + 1)),
        }
    }
}

/// The index of the root page of the table `name`, as the first of the cells
/// from the `i`-th on that describes this table has it. `None` where none of
/// them describes it. Cells after that one are not looked at.
pub open spec fn find_root_from(cells: Seq<CellModel>, name: Seq<char>, i: int) -> Result<
    Option<u32>,
    DbError,
>
    decreases cells.len() - i,
{
    if i >= cells.len() || i < 0 {
        Ok(None)
    } else {
        match root_if_named(cells[i], name) {
            Err(e) => Err(e),
            Ok(Some(root)) => Ok(Some(root)),
            Ok(None) => find_root_from(cells, name, i + 1),
        }
    }
}

/// What each of `names` holds.
pub open spec fn names_view(names: Seq<String>) -> Seq<Seq<char>> {
    Seq::new(names.len(), |i: int| names[i]@)
}

/// The text in the `i`-th column of a record.
pub fn text_column<'a>(record: &'a Record, i: usize) -> (r: Option<&'a str>)
    ensures
        r is Some <==> column_text(record@, i as int) is Some,
        r matches Some(s) ==> column_text(record@, i as int) == Some(s@),
{
    if i < record.values.len() {
        assert(record@.values[i as int] == record.values@[i as int]@);
        match &record.values[i] {
            RecordValue::N13AndOdd(s) => Some(s.as_str()),
            _ => None,
        }
    } else {
        None
    }
}

/// The stored integer in the `i`-th column of a record.
pub fn int_column(record: &Record, i: usize) -> (r: Option<i64>)
    ensures
        r is Some <==> column_int(record@, i as int) is Some,
        r matches Some(n) ==> column_int(record@, i as int) == Some(n as int),
{
    if i < record.values.len() {
        assert(record@.values[i as int] == record.values@[i as int]@);
        match &record.values[i] {
            RecordValue::I8(x) => Some(*x as i64),
            RecordValue::I16(x) => Some(*x as i64),
            RecordValue::I24(x) => Some(*x as i64),
            RecordValue::I32(x) => Some(*x as i64),
            RecordValue::I48(x) => Some(*x),
            RecordValue::I64(x) => Some(*x),
            _ => None,
        }
    } else {
        None
    }
}

/// The name of the table that a cell of the schema table describes.
pub fn named_table<'a>(cell: &'a Cell) -> (r: Result<Option<&'a str>, DbError>)
    ensures
        match table_name(cell@) {
            Ok(Some(name)) => r matches Ok(Some(s)) && s@ == name,
            Ok(None) => r matches Ok(None),
            Err(e) => r matches Err(f) && f == e,
        },
{
    match cell {
        Cell::TableLeaf { payload, .. } => {
            let kind = match text_column(payload, 0) {
                Some(kind) => kind,
                None => {
                    return Err(DbError::Format);
                },
            };
            if !text_eq(kind, "table") {
                return Ok(None);
            }
            match text_column(payload, 2) {
                Some(name) => Ok(Some(name)),
                None => Err(DbError::Format),
            }
        },
        _ => Err(DbError::Format),
    }
}

/// The name of the table that a cell of the schema table describes, unless
/// the name marks the table as internal.
pub fn listed<'a>(cell: &'a Cell) -> (r: Result<Option<&'a str>, DbError>)
    ensures
        match listed_name(cell@) {
            Ok(Some(name)) => r matches Ok(Some(s)) && s@ == name,
            Ok(None) => r matches Ok(None),
            Err(e) => r matches Err(f) && f == e,
        },
{
    match named_table(cell)? {
        Some(name) => if starts_with(name, "sqlite_") {
            Ok(None)
        } else {
            Ok(Some(name))
        },
        None => Ok(None),
    }
}

/// Whether a cell of the schema table describes a table.
pub fn describes_table(cell: &Cell) -> (r: Result<bool, DbError>)
    ensures
        r == is_table_row(cell@),
{
    match cell {
        Cell::TableLeaf { payload, .. } => {
            match text_column(payload, 0) {
                Some(kind) => Ok(text_eq(kind, "table")),
                None => Err(DbError::Format),
            }
        },
        _ => Err(DbError::Format),
    }
}

/// Counts the cells that describe a table.
pub fn count_tables(cells: &Vec<Cell>) -> (r: Result<usize, DbError>)
    ensures
        match count_tables_from(cells_view(cells@), 0) {
            Ok(n) => r matches Ok(k) && k == n && n <= cells@.len(),
            Err(e) => r matches Err(f) && f == e,
        },
{
    let ghost models = cells_view(cells@);
    let mut count: usize = 0;
    let mut i: usize = 0;
    while i < cells.len()
        invariant
            i <= cells.len(),
            count <= i,
            models == cells_view(cells@),
            count_tables_from(models, 0) == count_after(
                count as nat,
                count_tables_from(models, i as int),
            ),
        decreases cells.len() - i,
    {
        assert(models[i as int] == cells@[i as int]@);
        if describes_table(&cells[i])? {
            count += 1;
        }
        i += 1;
    }
    Ok(count)
}

/// Collects the names that the cells list.
pub fn list_names(cells: &Vec<Cell>) -> (r: Result<Vec<String>, DbError>)
    ensures
        match names_from(cells_view(cells@), 0) {
            Ok(names) => r matches Ok(v) && names_view(v@) == names,
            Err(e) => r matches Err(f) && f == e,
        },
{
    let ghost models = cells_view(cells@);
    let mut names: Vec<String> = Vec::new();
    let mut i: usize = 0;
    while i < cells.len()
        invariant
            i <= cells.len(),
            models == cells_view(cells@),
            names_from(models, 0) == names_after(names_view(names@), names_from(models, i as int)),
        decreases cells.len() - i,
    {
        assert(models[i as int] == cells@[i as int]@);
        if let Some(name) = listed(&cells[i])? {
            let owned = name.to_owned();
            proof {
                let before = names_view(names@);
                assert(names_view(names@.push(owned)) =~= before.push(name@));
                let tail = names_from(models, i + 1);
                if let Ok(t) = tail {
                    assert(before.push(name@) + t =~= before + (seq![name@] + t));
                }
            }
            names.push(owned);
        }
        i += 1;
    }
    proof {
        assert(names_view(names@) + Seq::<Seq<char>>::empty() =~= names_view(names@));
    }
    Ok(names)
}

/// The index of the root page of the table `name`, where the cell describes
/// that table.
pub fn root_of(cell: &Cell, name: &str) -> (r: Result<Option<u32>, DbError>)
    ensures
        r == root_if_named(cell@, name@),
{
    let found = match named_table(cell)? {
        Some(found) => found,
        None => {
            return Ok(None);
        },
    };
    if !text_eq(found, name) {
        return Ok(None);
    }
    let payload = match cell {
        Cell::TableLeaf { payload, .. } => payload,
        _ => {
            return Err(DbError::Format);
        },
    };
    match int_column(payload, 3) {
        Some(page) => {
            if 1 <= page && page <= 0xffff_ffff {
                Ok(Some((page - 1) as u32))
            } else {
                Err(DbError::Format)
            }
        },
        None => Err(DbError::Format),
    }
}

/// Looks among the cells for the table `name`, and gives the index of its
/// root page.
pub fn find_root(cells: &Vec<Cell>, name: &str) -> (r: Result<Option<u32>, DbError>)
    ensures
        r == find_root_from(cells_view(cells@), name@, 0),
{
    let ghost models = cells_view(cells@);
    let mut i: usize = 0;
    while i < cells.len()
        invariant
            i <= cells.len(),
            models == cells_view(cells@),
            find_root_from(models, name@, 0) == find_root_from(models, name@, i as int),
        decreases cells.len() - i,
    {
        assert(models[i as int] == cells@[i as int]@);
        if let Some(root) = root_of(&cells[i], name)? {
            return Ok(Some(root));
        }
        i += 1;
    }
    Ok(None)
}

} // verus!
