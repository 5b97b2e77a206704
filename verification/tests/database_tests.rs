use sqlite_reader::row_count::RowCounter;
use sqlite_reader::database::{count_rows, dbinfo, list_tables, paging, DbInfo, Paging};
use sqlite_reader::table_count::TableCounter;
use sqlite_reader::error::DbError;
use sqlite_reader::header::DbHeader;
use sqlite_reader::table_list::{tables_line, TableLister};
use sqlite_reader::walk::Step;

// ---------------------------------------------------------------------------
// A small writer of database files, independent of the library.
// ---------------------------------------------------------------------------

fn put_varint(out: &mut Vec<u8>, v: u64) {
    assert!(v < 1 << 56);
    let mut n = 1;
    while v >> (7 * n) != 0 {
        n += 1;
    }
    for i in 0..n {
        let group = ((v >> (7 * (n - 1 - i))) & 0x7f) as u8;
        out.push(if i + 1 < n { 0x80 | group } else { group });
    }
}

#[derive(Clone)]
enum Col {
    Null,
    Int(i64),
    One,
    Text(String),
    Blob(Vec<u8>),
}

fn text(s: &str) -> Col {
    Col::Text(s.to_string())
}

fn record(cols: &[Col]) -> Vec<u8> {
    let mut types = Vec::new();
    let mut body = Vec::new();
    for c in cols {
        match c {
            Col::Null => put_varint(&mut types, 0),
            Col::One => put_varint(&mut types, 9),
            Col::Int(v) => {
                if *v >= -128 && *v <= 127 {
                    put_varint(&mut types, 1);
                    body.push(*v as u8);
                } else if *v >= -32768 && *v <= 32767 {
                    put_varint(&mut types, 2);
                    body.extend_from_slice(&(*v as i16).to_be_bytes());
                } else if *v >= -(1 << 23) && *v < (1 << 23) {
                    put_varint(&mut types, 3);
                    body.extend_from_slice(&(*v as i32).to_be_bytes()[1..]);
                } else if *v >= i32::MIN as i64 && *v <= i32::MAX as i64 {
                    put_varint(&mut types, 4);
                    body.extend_from_slice(&(*v as i32).to_be_bytes());
                } else if *v >= -(1 << 47) && *v < (1 << 47) {
                    put_varint(&mut types, 5);
                    body.extend_from_slice(&v.to_be_bytes()[2..]);
                } else {
                    put_varint(&mut types, 6);
                    body.extend_from_slice(&v.to_be_bytes());
                }
            }
            Col::Text(s) => {
                put_varint(&mut types, 13 + 2 * s.len() as u64);
                body.extend_from_slice(s.as_bytes());
            }
            Col::Blob(b) => {
                put_varint(&mut types, 12 + 2 * b.len() as u64);
                body.extend_from_slice(b);
            }
        }
    }
    let mut header_len = types.len() + 1;
    if header_len > 127 {
        header_len += 1;
    }
    let mut out = Vec::new();
    put_varint(&mut out, header_len as u64);
    out.extend_from_slice(&types);
    out.extend_from_slice(&body);
    out
}

fn leaf_cell(rowid: u64, record: &[u8]) -> Vec<u8> {
    let mut out = Vec::new();
    put_varint(&mut out, record.len() as u64);
    put_varint(&mut out, rowid);
    out.extend_from_slice(record);
    out
}

fn interior_cell(left_child: u32, key: u64) -> Vec<u8> {
    let mut out = left_child.to_be_bytes().to_vec();
    put_varint(&mut out, key);
    out
}

/// One page. On the first page of the file the B-tree header stands at
/// offset 100; the cell pointers count from the start of the page either way.
fn page(size: usize, first: bool, flag: u8, cells: &[Vec<u8>], right_most: Option<u32>) -> Vec<u8> {
    let mut bytes = vec![0u8; size];
    let h = if first { 100 } else { 0 };
    bytes[h] = flag;
    bytes[h + 3..h + 5].copy_from_slice(&(cells.len() as u16).to_be_bytes());
    let mut array = h + 8;
    if let Some(r) = right_most {
        bytes[h + 8..h + 12].copy_from_slice(&r.to_be_bytes());
        array = h + 12;
    }
    let mut end = size;
    for (i, c) in cells.iter().enumerate() {
        end -= c.len();
        assert!(end >= array + 2 * cells.len(), "the cells do not fit on the page");
        bytes[end..end + c.len()].copy_from_slice(c);
        bytes[array + 2 * i..array + 2 * i + 2].copy_from_slice(&(end as u16).to_be_bytes());
    }
    bytes[h + 5..h + 7].copy_from_slice(&(end as u16).to_be_bytes());
    bytes
}

fn leaf(size: usize, first: bool, cells: &[Vec<u8>]) -> Vec<u8> {
    page(size, first, 0x0d, cells, None)
}

/// An interior table page with the children `children`, the last of them as
/// the right-most.
fn interior(size: usize, first: bool, children: &[u32]) -> Vec<u8> {
    let (last, rest) = children.split_last().unwrap();
    let cells: Vec<Vec<u8>> =
        rest.iter().enumerate().map(|(i, c)| interior_cell(*c, 1000 * (i as u64 + 1))).collect();
    page(size, first, 0x05, &cells, Some(*last))
}

fn file_header(page_size: usize, pages: u32, encoding: u32) -> Vec<u8> {
    let mut h = vec![0u8; 100];
    h[0..16].copy_from_slice(b"SQLite format 3\0");
    let raw: u16 = if page_size == 65536 { 1 } else { page_size as u16 };
    h[16..18].copy_from_slice(&raw.to_be_bytes());
    h[18] = 1;
    h[19] = 1;
    h[21] = 64;
    h[22] = 32;
    h[23] = 32;
    h[24..28].copy_from_slice(&1u32.to_be_bytes());
    h[28..32].copy_from_slice(&pages.to_be_bytes());
    h[40..44].copy_from_slice(&1u32.to_be_bytes());
    h[44..48].copy_from_slice(&4u32.to_be_bytes());
    h[56..60].copy_from_slice(&encoding.to_be_bytes());
    h[92..96].copy_from_slice(&1u32.to_be_bytes());
    h[96..100].copy_from_slice(&3_045_000u32.to_be_bytes());
    h
}

/// A database file under construction. `pages[0]` is page 1.
struct Image {
    page_size: usize,
    pages: Vec<Vec<u8>>,
}

impl Image {
    fn new(page_size: usize) -> Image {
        Image { page_size, pages: vec![vec![0u8; page_size]] }
    }

    /// Adds a page and gives its page number.
    fn add(&mut self, bytes: Vec<u8>) -> u32 {
        assert_eq!(bytes.len(), self.page_size);
        self.pages.push(bytes);
        self.pages.len() as u32
    }

    /// Adds the pages of a table with `rows` rows: leaves of `per_leaf`
    /// rows, and over them interior pages of `fanout` children, up to one
    /// root. Gives the root's page number.
    fn add_table(&mut self, rows: usize, per_leaf: usize, fanout: usize) -> u32 {
        let mut level: Vec<u32> = Vec::new();
        let mut rowid = 1u64;
        let mut left = rows;
        loop {
            let n = left.min(per_leaf);
            let cells: Vec<Vec<u8>> = (0..n)
                .map(|_| {
                    let c = leaf_cell(rowid, &record(&[Col::Null, Col::Int(rowid as i64 % 100)]));
                    rowid += 1;
                    c
                })
                .collect();
            let bytes = leaf(self.page_size, false, &cells);
            level.push(self.add(bytes));
            left -= n;
            if left == 0 {
                break;
            }
        }
        while level.len() > 1 {
            let mut above = Vec::new();
            for group in level.chunks(fanout) {
                if group.len() == 1 {
                    above.push(group[0]);
                } else {
                    let bytes = interior(self.page_size, false, group);
                    above.push(self.add(bytes));
                }
            }
            level = above;
        }
        level[0]
    }

    fn set_first(&mut self, bytes: Vec<u8>) {
        assert_eq!(bytes.len(), self.page_size);
        self.pages[0] = bytes;
    }

    fn bytes_with_encoding(&self, encoding: u32) -> Vec<u8> {
        let mut out: Vec<u8> = self.pages.concat();
        let header = file_header(self.page_size, self.pages.len() as u32, encoding);
        out[0..100].copy_from_slice(&header);
        out
    }

    fn bytes(&self) -> Vec<u8> {
        self.bytes_with_encoding(1)
    }
}

fn schema_row(rowid: u64, kind: &str, name: &str, root: Col) -> Vec<u8> {
    let sql = format!("CREATE {} {} (id integer primary key, value integer)", kind, name);
    leaf_cell(rowid, &record(&[text(kind), text(name), text(name), root, text(&sql)]))
}

fn table_row(rowid: u64, name: &str, root: u32) -> Vec<u8> {
    schema_row(rowid, "table", name, Col::Int(root as i64))
}

/// A file with one table for each of `tables`, given by name and number of
/// rows, and a schema table of one page.
fn database(page_size: usize, tables: &[(&str, usize)], per_leaf: usize, fanout: usize) -> Vec<u8> {
    let mut img = Image::new(page_size);
    let mut rows = Vec::new();
    for (i, (name, n)) in tables.iter().enumerate() {
        let root = img.add_table(*n, per_leaf, fanout);
        rows.push(table_row(i as u64 + 1, name, root));
    }
    img.set_first(leaf(page_size, true, &rows));
    img.bytes()
}

fn sample_db() -> Vec<u8> {
    database(4096, &[("apples", 4), ("sqlite_sequence", 2), ("oranges", 6)], 50, 50)
}

fn superheroes_db() -> Vec<u8> {
    database(4096, &[("superheroes", 6895), ("sqlite_sequence", 1)], 300, 100)
}

fn companies_db() -> Vec<u8> {
    let mut img = Image::new(4096);
    let root = img.add_table(55991, 350, 40);
    let seq = img.add_table(1, 10, 10);
    let index = img.add(page(4096, false, 0x0a, &[], None));
    let rows = vec![
        table_row(1, "companies", root),
        table_row(2, "sqlite_sequence", seq),
        schema_row(3, "index", "idx_companies_country", Col::Int(index as i64)),
    ];
    img.set_first(leaf(4096, true, &rows));
    img.bytes()
}

fn named_db(name: &str) -> Vec<u8> {
    match name {
        "sample.db" => sample_db(),
        "superheroes.db" => superheroes_db(),
        "companies.db" => companies_db(),
        _ => panic!("no such database"),
    }
}

fn dot_dbinfo(db: &str) -> Result<DbInfo, DbError> {
    dbinfo(&named_db(db))
}

fn dot_tables(db: &str) -> Result<String, DbError> {
    let names = list_tables(&named_db(db))?;
    Ok(tables_line(&names))
}

fn count_rows_of(table: &str, db: &str) -> Result<u64, DbError> {
    count_rows(&named_db(db), table)
}

// ---------------------------------------------------------------------------
// The three queries on whole files.
// ---------------------------------------------------------------------------

#[test]
fn dbinfo_outputs_correct_page_size() {
    let test_db_files = vec![("sample.db", 4096), ("superheroes.db", 4096), ("companies.db", 4096)];

    for (db, expected) in test_db_files {
        let db_info = dot_dbinfo(db).unwrap();

        assert_eq!(db_info.db_page_size, expected, "{db}");
    }
}

#[test]
fn dbinfo_outputs_correct_num_tables() {
    let test_db_files = vec![("sample.db", 3), ("superheroes.db", 2), ("companies.db", 2)];

    for (db, expected) in test_db_files {
        let db_info = dot_dbinfo(db).unwrap();

        assert_eq!(db_info.num_tables, expected, "{db}");
    }
}

#[test]
fn tables_outputs_correct_table_names() {
    let test_db_files = vec![
        ("sample.db", "apples oranges"),
        ("superheroes.db", "superheroes"),
        ("companies.db", "companies"),
    ];

    for (db, expected) in test_db_files {
        let tables = dot_tables(db).unwrap();

        assert_eq!(tables, expected, "{db}");
    }
}

#[test]
fn count_rows_outputs_correct_number_of_rows() {
    let test_db_files = vec![
        ("sample.db", vec![("apples", 4), ("oranges", 6)]),
        ("superheroes.db", vec![("superheroes", 6895)]),
        ("companies.db", vec![("companies", 55991)]),
    ];

    for (db, tables) in test_db_files {
        for (table, expected) in tables {
            let rows = count_rows_of(table, db).unwrap();

            assert_eq!(rows, expected, "DB: {db}, table: {table}");
        }
    }
}

#[test]
fn apples_and_oranges_end_to_end() {
    let image = database(4096, &[("apples", 4), ("oranges", 6)], 50, 50);
    let names = list_tables(&image).unwrap();
    assert_eq!(names, vec!["apples".to_string(), "oranges".to_string()]);
    assert_eq!(tables_line(&names), "apples oranges");
    assert_eq!(count_rows(&image, "apples"), Ok(4));
    assert_eq!(count_rows(&image, "oranges"), Ok(6));
    assert_eq!(dbinfo(&image), Ok(DbInfo { db_page_size: 4096, num_tables: 2 }));
}

#[test]
fn single_page_schema_with_three_tables() {
    let image = database(512, &[("a", 0), ("b", 1), ("c", 2)], 10, 10);
    assert_eq!(dbinfo(&image), Ok(DbInfo { db_page_size: 512, num_tables: 3 }));
}

#[test]
fn empty_schema_has_no_tables() {
    let image = database(1024, &[], 10, 10);
    assert_eq!(dbinfo(&image), Ok(DbInfo { db_page_size: 1024, num_tables: 0 }));
    assert_eq!(list_tables(&image), Ok(vec![]));
    assert_eq!(tables_line(&[].to_vec()), "");
    assert_eq!(count_rows(&image, "apples"), Err(DbError::NotFound));
}

#[test]
fn page_size_65536_is_read() {
    let image = database(65536, &[("big", 3)], 10, 10);
    assert_eq!(dbinfo(&image), Ok(DbInfo { db_page_size: 65536, num_tables: 1 }));
    assert_eq!(count_rows(&image, "big"), Ok(3));
}

#[test]
fn three_level_tree_counts_every_leaf_once() {
    let size = 512;
    let mut img = Image::new(size);
    let counts = [3usize, 5, 7, 11];
    let mut leaves = Vec::new();
    let mut rowid = 1;
    for n in counts {
        let cells: Vec<Vec<u8>> = (0..n)
            .map(|_| {
                rowid += 1;
                leaf_cell(rowid, &record(&[Col::Int(rowid as i64)]))
            })
            .collect();
        leaves.push(img.add(leaf(size, false, &cells)));
    }
    let left = img.add(interior(size, false, &leaves[0..2]));
    let right = img.add(interior(size, false, &leaves[2..4]));
    let root = img.add(interior(size, false, &[left, right]));
    img.set_first(leaf(size, true, &[table_row(1, "deep", root)]));
    let image = img.bytes();
    assert_eq!(count_rows(&image, "deep"), Ok(26));
    assert_eq!(dbinfo(&image).unwrap().num_tables, 1);
}

#[test]
fn builder_trees_of_several_levels_are_counted() {
    // 1000 rows, 7 to a leaf, 3 children to an interior page: six levels
    let image = database(512, &[("wide", 1000), ("none", 0), ("one", 1)], 7, 3);
    assert_eq!(count_rows(&image, "wide"), Ok(1000));
    assert_eq!(count_rows(&image, "none"), Ok(0));
    assert_eq!(count_rows(&image, "one"), Ok(1));
}

#[test]
fn missing_table_is_not_found() {
    let image = sample_db();
    assert_eq!(count_rows(&image, "pears"), Err(DbError::NotFound));
    assert_eq!(count_rows(&image, ""), Err(DbError::NotFound));
    assert_eq!(count_rows(&image, "Apples"), Err(DbError::NotFound));
    assert_eq!(count_rows(&image, "apple"), Err(DbError::NotFound));
}

#[test]
fn internal_tables_are_counted_and_can_be_asked_for_but_not_listed() {
    let image = sample_db();
    assert_eq!(dbinfo(&image).unwrap().num_tables, 3);
    assert_eq!(count_rows(&image, "sqlite_sequence"), Ok(2));
    assert_eq!(list_tables(&image).unwrap(), vec!["apples", "oranges"]);
}

#[test]
fn rows_that_describe_no_table_are_passed_over() {
    let mut img = Image::new(1024);
    let t = img.add_table(5, 10, 10);
    let i = img.add(page(1024, false, 0x0a, &[], None));
    let rows = vec![
        schema_row(1, "index", "t", Col::Int(i as i64)),
        schema_row(2, "view", "t", Col::Int(0)),
        schema_row(3, "trigger", "t", Col::Null),
        table_row(4, "t", t),
    ];
    img.set_first(leaf(1024, true, &rows));
    let image = img.bytes();
    assert_eq!(dbinfo(&image).unwrap().num_tables, 1);
    assert_eq!(list_tables(&image).unwrap(), vec!["t"]);
    assert_eq!(count_rows(&image, "t"), Ok(5));
}

#[test]
fn first_table_of_a_name_wins() {
    let mut img = Image::new(1024);
    let a = img.add_table(5, 10, 10);
    let b = img.add_table(9, 10, 10);
    img.set_first(leaf(1024, true, &[table_row(1, "t", a), table_row(2, "t", b)]));
    assert_eq!(count_rows(&img.bytes(), "t"), Ok(5));
}

/// A schema table of three leaves under an interior root on page 1.
fn wide_schema() -> Vec<u8> {
    let size = 1024;
    let mut img = Image::new(size);
    let mut leaves = Vec::new();
    let mut rowid = 0;
    for names in [["a", "b"], ["c", "sqlite_stat1"], ["d", "e"]] {
        let mut rows = Vec::new();
        for name in names {
            rowid += 1;
            let root = img.add_table(rowid as usize, 4, 4);
            rows.push(table_row(rowid, name, root));
        }
        leaves.push(img.add(leaf(size, false, &rows)));
    }
    img.set_first(interior(size, true, &leaves));
    img.bytes()
}

#[test]
fn schema_of_several_pages_is_walked() {
    let image = wide_schema();
    assert_eq!(dbinfo(&image), Ok(DbInfo { db_page_size: 1024, num_tables: 6 }));
    for (name, rows) in [("a", 1), ("b", 2), ("c", 3), ("sqlite_stat1", 4), ("d", 5), ("e", 6)] {
        assert_eq!(count_rows(&image, name), Ok(rows), "table {}", name);
    }
    assert_eq!(count_rows(&image, "f"), Err(DbError::NotFound));
}

#[test]
fn pages_pushed_last_are_visited_first() {
    let names = list_tables(&wide_schema()).unwrap();
    assert_eq!(names, vec!["d", "e", "c", "a", "b"]);
    assert_eq!(tables_line(&names), "d e c a b");
}

#[test]
fn tables_line_joins_with_spaces_and_trims() {
    let names = vec!["apples".to_string(), "oranges".to_string()];
    assert_eq!(tables_line(&names), "apples oranges");
    assert_eq!(tables_line(&vec!["one".to_string()]), "one");
    assert_eq!(tables_line(&vec![]), "");
    assert_eq!(tables_line(&vec![" a".to_string(), "b ".to_string()]), "a b");
    assert_eq!(tables_line(&vec!["a b".to_string(), "".to_string(), "c".to_string()]), "a b  c");
}

// ---------------------------------------------------------------------------
// Errors.
// ---------------------------------------------------------------------------

#[test]
fn file_that_is_no_database() {
    assert_eq!(dbinfo(&[]), Err(DbError::Bounds));
    assert_eq!(dbinfo(&[0u8; 99]), Err(DbError::Bounds));
    assert_eq!(dbinfo(&[0u8; 4096]), Err(DbError::Format));
    assert_eq!(list_tables(&[0u8; 4096]), Err(DbError::Format));
    assert_eq!(count_rows(&[0u8; 4096], "t"), Err(DbError::Format));
}

#[test]
fn file_shorter_than_its_first_page() {
    let image = sample_db();
    assert_eq!(dbinfo(&image[..4095]), Err(DbError::Bounds));
    assert_eq!(dbinfo(&image[..100]), Err(DbError::Bounds));
    assert_eq!(list_tables(&image[..2000]), Err(DbError::Bounds));
}

#[test]
fn root_page_past_the_end_of_the_file() {
    let image = database(512, &[("t", 3)], 10, 10);
    assert_eq!(count_rows(&image, "t"), Ok(3));
    assert_eq!(count_rows(&image[..512], "t"), Err(DbError::Bounds));
    assert_eq!(count_rows(&image[..1023], "t"), Err(DbError::Bounds));
    assert_eq!(dbinfo(&image[..512]).unwrap().num_tables, 1);
}

#[test]
fn text_in_utf16_is_unsupported() {
    let mut img = Image::new(512);
    let root = img.add_table(1, 10, 10);
    img.set_first(leaf(512, true, &[table_row(1, "t", root)]));
    for encoding in [2, 3] {
        let image = img.bytes_with_encoding(encoding);
        assert_eq!(dbinfo(&image), Err(DbError::Unsupported));
        assert_eq!(list_tables(&image), Err(DbError::Unsupported));
        assert_eq!(count_rows(&image, "t"), Err(DbError::Unsupported));
    }
}

#[test]
fn index_pages_are_unsupported() {
    let mut img = Image::new(512);
    let index = img.add(page(512, false, 0x0a, &[], None));
    let interior_index = img.add(page(512, false, 0x02, &[], Some(2)));
    img.set_first(leaf(
        512,
        true,
        &[table_row(1, "leaf", index), table_row(2, "inner", interior_index)],
    ));
    let image = img.bytes();
    assert_eq!(count_rows(&image, "leaf"), Err(DbError::Unsupported));
    assert_eq!(count_rows(&image, "inner"), Err(DbError::Unsupported));

    let mut img = Image::new(512);
    img.set_first(page(512, true, 0x0a, &[], None));
    let image = img.bytes();
    assert_eq!(dbinfo(&image), Err(DbError::Unsupported));
    assert_eq!(list_tables(&image), Err(DbError::Unsupported));
    assert_eq!(count_rows(&image, "t"), Err(DbError::Unsupported));
}

#[test]
fn child_page_zero_is_a_format_error() {
    let mut img = Image::new(512);
    let l = img.add_table(1, 10, 10);
    let bad_left = img.add(interior(512, false, &[0, l]));
    let bad_right = img.add(interior(512, false, &[l, 0]));
    img.set_first(leaf(
        512,
        true,
        &[table_row(1, "left", bad_left), table_row(2, "right", bad_right)],
    ));
    let image = img.bytes();
    assert_eq!(count_rows(&image, "left"), Err(DbError::Format));
    assert_eq!(count_rows(&image, "right"), Err(DbError::Format));
}

#[test]
fn schema_rows_that_are_malformed_are_format_errors() {
    // the type column is no text
    let mut img = Image::new(512);
    img.set_first(leaf(
        512,
        true,
        &[leaf_cell(1, &record(&[Col::Int(5), text("t"), text("t"), Col::Int(2)]))],
    ));
    let image = img.bytes();
    assert_eq!(dbinfo(&image), Err(DbError::Format));
    assert_eq!(list_tables(&image), Err(DbError::Format));
    assert_eq!(count_rows(&image, "t"), Err(DbError::Format));

    // a row without columns
    let mut img = Image::new(512);
    img.set_first(leaf(512, true, &[leaf_cell(1, &record(&[]))]));
    assert_eq!(dbinfo(&img.bytes()), Err(DbError::Format));

    // the name column is no text: the count of tables does not read it
    let mut img = Image::new(512);
    img.set_first(leaf(
        512,
        true,
        &[leaf_cell(1, &record(&[text("table"), text("t"), Col::Blob(vec![b't']), Col::Int(2)]))],
    ));
    let image = img.bytes();
    assert_eq!(dbinfo(&image).unwrap().num_tables, 1);
    assert_eq!(list_tables(&image), Err(DbError::Format));
    assert_eq!(count_rows(&image, "t"), Err(DbError::Format));

    // a table row of two columns
    let mut img = Image::new(512);
    img.set_first(leaf(512, true, &[leaf_cell(1, &record(&[text("table"), text("t")]))]));
    let image = img.bytes();
    assert_eq!(dbinfo(&image).unwrap().num_tables, 1);
    assert_eq!(list_tables(&image), Err(DbError::Format));
}

#[test]
fn root_page_column_must_hold_a_page_number() {
    for root in [Col::Null, Col::One, text("2"), Col::Blob(vec![2]), Col::Int(0), Col::Int(-1),
        Col::Int(1 << 32), Col::Int(i64::MIN)]
    {
        let mut img = Image::new(512);
        img.add_table(1, 10, 10);
        img.set_first(leaf(512, true, &[schema_row(1, "table", "t", root)]));
        let image = img.bytes();
        assert_eq!(count_rows(&image, "t"), Err(DbError::Format));
        assert_eq!(count_rows(&image, "u"), Err(DbError::NotFound));
        assert_eq!(list_tables(&image).unwrap(), vec!["t"]);
    }
}

#[test]
fn root_page_of_each_integer_width() {
    let size = 512;
    let mut img = Image::new(size);
    let rows: Vec<Vec<u8>> = (0..3).map(|i| leaf_cell(i + 1, &record(&[Col::Int(7)]))).collect();
    let root = img.add(leaf(size, false, &rows));
    assert_eq!(root, 2);
    for width in 1..=6u64 {
        let mut types = Vec::new();
        let mut body = Vec::new();
        for s in ["table", "t", "t"] {
            put_varint(&mut types, 13 + 2 * s.len() as u64);
            body.extend_from_slice(s.as_bytes());
        }
        put_varint(&mut types, width);
        let n = [1usize, 2, 3, 4, 6, 8][width as usize - 1];
        body.extend_from_slice(&(root as u64).to_be_bytes()[8 - n..]);
        let mut rec = vec![types.len() as u8 + 1];
        rec.extend_from_slice(&types);
        rec.extend_from_slice(&body);
        img.set_first(leaf(size, true, &[leaf_cell(1, &rec)]));
        assert_eq!(count_rows(&img.bytes(), "t"), Ok(3), "serial type {}", width);
    }
}

#[test]
fn tree_with_a_cycle_ends_with_a_bounds_error() {
    let size = 512;
    let mut img = Image::new(size);
    let l = img.add_table(2, 10, 10);
    // page 3 names itself as a child
    let looped = img.add(interior(size, false, &[l, 3]));
    assert_eq!(looped, 3);
    img.set_first(leaf(size, true, &[table_row(1, "t", looped)]));
    assert_eq!(count_rows(&img.bytes(), "t"), Err(DbError::Bounds));

    // a schema table whose root names itself: the file has one page, so
    // the walk may visit one
    let mut img = Image::new(size);
    img.set_first(interior(size, true, &[1, 1]));
    let image = img.bytes();
    assert_eq!(dbinfo(&image), Err(DbError::Bounds));
    // with a second page in the file the first page is read again, and as
    // another page than the first it starts with no page type
    img.add_table(1, 10, 10);
    let image = img.bytes();
    assert_eq!(dbinfo(&image), Err(DbError::Format));

    // a schema table that goes round through a second page
    let mut img = Image::new(size);
    let second = img.add(interior(size, false, &[2, 2]));
    assert_eq!(second, 2);
    img.set_first(interior(size, true, &[2, 2]));
    let image = img.bytes();
    assert_eq!(dbinfo(&image), Err(DbError::Bounds));
    assert_eq!(list_tables(&image), Err(DbError::Bounds));
    assert_eq!(count_rows(&image, "t"), Err(DbError::Bounds));
}

#[test]
fn overflow_is_flagged_and_not_followed() {
    let size = 512;
    let mut img = Image::new(size);
    // a row whose payload is said to be longer than its record
    let rec = record(&[Col::Int(1)]);
    let mut cell = Vec::new();
    put_varint(&mut cell, 5000);
    put_varint(&mut cell, 1);
    cell.extend_from_slice(&rec);
    cell.extend_from_slice(&9u32.to_be_bytes());
    let root = img.add(leaf(size, false, &[cell]));
    img.set_first(leaf(size, true, &[table_row(1, "t", root)]));
    assert_eq!(count_rows(&img.bytes(), "t"), Ok(1));
}

// ---------------------------------------------------------------------------
// Paging.
// ---------------------------------------------------------------------------

#[test]
fn paging_of_a_file() {
    let image = sample_db();
    let p = paging(&image).unwrap();
    assert_eq!(p.page_size, 4096);
    assert_eq!(p.limit as usize, image.len() / 4096);
    assert_eq!(p.offset(0), 0);
    assert_eq!(p.offset(1), 4096);
    assert_eq!(p.offset(u32::MAX), 4096 * (u32::MAX as u64));
    assert_eq!(p.page(&image, 0), Some(&image[0..4096]));
    assert_eq!(p.page(&image, 1), Some(&image[4096..8192]));
    assert_eq!(p.page(&image, p.limit), None);
    assert_eq!(p.page(&image[..8191], 1), None);
    assert_eq!(p.page(&image, u32::MAX), None);
}

#[test]
fn paging_from_a_header() {
    let image = sample_db();
    let header = DbHeader::parse(&image[..100]).unwrap();
    assert_eq!(Paging::of(&header, 4096 * 3 + 17), Ok(Paging { page_size: 4096, limit: 3 }));
    assert_eq!(Paging::of(&header, 4095), Ok(Paging { page_size: 4096, limit: 0 }));
    assert_eq!(Paging::of(&header, u64::MAX), Ok(Paging { page_size: 4096, limit: u32::MAX }));
    let mut utf16 = image[..100].to_vec();
    utf16[59] = 2;
    let header = DbHeader::parse(&utf16).unwrap();
    assert_eq!(Paging::of(&header, 8192), Err(DbError::Unsupported));
}

// ---------------------------------------------------------------------------
// The walks, one page at a time.
// ---------------------------------------------------------------------------

#[test]
fn table_counter_page_by_page() {
    let image = wide_schema();
    let p = paging(&image).unwrap();
    let mut counter = TableCounter::new(p.limit);
    assert_eq!(counter.tables(), 0);
    // the root pushes its three children; the right-most comes first
    let step = counter.feed(p.page(&image, 0).unwrap()).unwrap();
    let Step::Fetch(third) = step else {
        panic!("walk over after the root");
    };
    assert_eq!(counter.tables(), 0);
    let step = counter.feed(p.page(&image, third).unwrap()).unwrap();
    let Step::Fetch(second) = step else {
        panic!("walk over after one leaf");
    };
    assert_eq!(counter.tables(), 2);
    let step = counter.feed(p.page(&image, second).unwrap()).unwrap();
    let Step::Fetch(first) = step else {
        panic!("walk over after two leaves");
    };
    assert_eq!(counter.tables(), 4);
    assert!(first < second && second < third);
    assert_eq!(counter.feed(p.page(&image, first).unwrap()), Ok(Step::Done));
    assert_eq!(counter.tables(), 6);
}

#[test]
fn error_leaves_a_walk_as_it_was() {
    let image = wide_schema();
    let p = paging(&image).unwrap();
    let mut counter = TableCounter::new(p.limit);
    let Ok(Step::Fetch(third)) = counter.feed(p.page(&image, 0).unwrap()) else {
        panic!("walk over after the root");
    };
    assert_eq!(counter.feed(&[0u8; 1024]), Err(DbError::Format));
    assert_eq!(counter.feed(&[]), Err(DbError::Bounds));
    assert_eq!(counter.tables(), 0);
    let Ok(Step::Fetch(_)) = counter.feed(p.page(&image, third).unwrap()) else {
        panic!("walk over after one leaf");
    };
    assert_eq!(counter.tables(), 2);
}

#[test]
fn walk_without_budget_fails_at_once() {
    let image = sample_db();
    let mut counter = TableCounter::new(0);
    assert_eq!(counter.feed(&image[..4096]), Err(DbError::Bounds));
    let mut counter = TableCounter::new(1);
    assert_eq!(counter.feed(&image[..4096]), Ok(Step::Done));
    assert_eq!(counter.tables(), 3);
    assert_eq!(counter.feed(&image[..4096]), Err(DbError::Bounds));
}

#[test]
fn first_page_must_hold_the_file_header() {
    let mut lister = TableLister::new(5);
    assert_eq!(lister.feed(&[0x0d; 99]), Err(DbError::Bounds));
    assert_eq!(lister.budget(), 5);
}

#[test]
fn table_lister_page_by_page() {
    let image = sample_db();
    let mut lister = TableLister::new(3);
    assert_eq!(lister.feed(&image[..4096]), Ok(Step::Done));
    assert_eq!(lister.budget(), 2);
    assert_eq!(lister.into_names(), vec!["apples", "oranges"]);
}

#[test]
fn row_counter_page_by_page() {
    let image = database(512, &[("apples", 4), ("oranges", 30)], 8, 3);
    let p = paging(&image).unwrap();
    let mut counter = RowCounter::new("oranges", p.limit);
    assert!(counter.is_searching());
    assert_eq!(counter.budget(), p.limit);
    let step = counter.feed(p.page(&image, 0).unwrap()).unwrap();
    assert!(!counter.is_searching());
    assert_eq!(counter.budget(), p.limit);
    let Step::Fetch(mut next) = step else {
        panic!("search over without a root page");
    };
    let mut fed = 0;
    loop {
        let step = counter.feed(p.page(&image, next).unwrap()).unwrap();
        fed += 1;
        assert_eq!(counter.budget(), p.limit - fed);
        match step {
            Step::Fetch(n) => next = n,
            Step::Done => break,
        }
    }
    // four leaves of 8, 8, 8 and 6 rows, three of them under an interior
    // page, and the root
    assert_eq!(fed, 6);
    assert_eq!(counter.rows(), 30);
}

#[test]
fn row_counter_reports_a_missing_table_on_the_last_page() {
    let image = wide_schema();
    let p = paging(&image).unwrap();
    let mut counter = RowCounter::new("zebra", p.limit);
    let Ok(Step::Fetch(a)) = counter.feed(p.page(&image, 0).unwrap()) else {
        panic!("no page asked for");
    };
    let Ok(Step::Fetch(b)) = counter.feed(p.page(&image, a).unwrap()) else {
        panic!("no page asked for");
    };
    let Ok(Step::Fetch(c)) = counter.feed(p.page(&image, b).unwrap()) else {
        panic!("no page asked for");
    };
    assert_eq!(counter.feed(p.page(&image, c).unwrap()), Err(DbError::NotFound));
    assert!(counter.is_searching());
    assert_eq!(counter.rows(), 0);
}
