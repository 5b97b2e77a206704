use crate::btree_page::{parse_page, PageModel};
use crate::database::{count_rows_in, page_of, paging_in, rows_counted, single_schema_page};
use crate::error::DbError;
use crate::row_count::{rows_on_page, RowCounterModel};
use crate::schema::find_root_from;
use crate::walk::{Step, WalkModel};
use vstd::prelude::*;

verus! {

/// What the page of the index `index` holds of a table: the indices of its
/// children and the number of its rows. `None` where the file does not hold
/// the page whole, where the page does not decode, and where it is no page
/// of a table.
pub open spec fn table_page(image: Seq<u8>, page_size: int, index: int) -> Option<
    (Seq<u32>, nat),
> {
    match page_of(image, page_size, index) {
        None => None,
        Some(bytes) => match parse_page(bytes, false) {
            Err(_) => None,
            Ok(page) => match rows_on_page(page) {
                Err(_) => None,
                Ok(found) => Some(found),
            },
        },
    }
}

/// The sum of two pairs of counts, where both are there.
pub open spec fn both(a: Option<(nat, nat)>, b: Option<(nat, nat)>) -> Option<(nat, nat)> {
    match (a, b) {
        (Some((p1, r1)), Some((p2, r2))) => Some((p1 + p2, r1 + r2)),
        _ => None,
    }
}

/// The number of pages and the number of rows of the tree under the page of
/// the index `index`: the page itself with its rows, and the trees under its
/// children. `None` where a page of the tree is no page of a table, and
/// where the tree is more than `height` levels of interior pages high.
pub open spec fn tree(image: Seq<u8>, page_size: int, index: int, height: nat) -> Option<
    (nat, nat),
>
    decreases height, 0nat,
{
    match table_page(image, page_size, index) {
        None => None,
        Some((kids, found)) => if kids.len() == 0 {
            Some((1, found))
        } else if height == 0 {
            None
        } else {
            both(Some((1, found)), forest(image, page_size, kids, (height - 1) as nat))
        },
    }
}

/// The number of pages and the number of rows of the trees under the pages
/// `roots`, taken together.
pub open spec fn forest(image: Seq<u8>, page_size: int, roots: Seq<u32>, height: nat) -> Option<
    (nat, nat),
>
    decreases height, roots.len() + 1,
{
    if roots.len() == 0 {
        Some((0, 0))
    } else {
        both(
            forest(image, page_size, roots.drop_last(), height),
            tree(image, page_size, roots.last() as int, height),
        )
    }
}

/// A tree that is no more than `height` levels high is no more than
/// `height + 1` levels high, and has the same counts.
proof fn lemma_tree_taller(image: Seq<u8>, page_size: int, index: int, height: nat)
    requires
        tree(image, page_size, index, height) is Some,
    ensures
        tree(image, page_size, index, height + 1) == tree(image, page_size, index, height),
    decreases height, 0nat,
{
    let (kids, _) = table_page(image, page_size, index).unwrap();
    if kids.len() > 0 {
        lemma_forest_taller(image, page_size, kids, (height - 1) as nat);
    }
}

proof fn lemma_forest_taller(image: Seq<u8>, page_size: int, roots: Seq<u32>, height: nat)
    requires
        forest(image, page_size, roots, height) is Some,
    ensures
        forest(image, page_size, roots, height + 1) == forest(image, page_size, roots, height),
    decreases height, roots.len() + 1,
{
    if roots.len() > 0 {
        lemma_forest_taller(image, page_size, roots.drop_last(), height);
        lemma_tree_taller(image, page_size, roots.last() as int, height);
    }
}

/// The counts of two forests, one after the other, are the sums of their
/// counts.
proof fn lemma_forest_concat(
    image: Seq<u8>,
    page_size: int,
    a: Seq<u32>,
    b: Seq<u32>,
    height: nat,
)
    ensures
        forest(image, page_size, a + b, height) == both(
            forest(image, page_size, a, height),
            forest(image, page_size, b, height),
        ),
    decreases b.len(),
{
    if b.len() == 0 {
        assert(a + b =~= a);
    } else {
        assert((a + b).drop_last() =~= a + b.drop_last());
        assert((a + b).last() == b.last());
        lemma_forest_concat(image, page_size, a, b.drop_last(), height);
    }
}

/// Every tree has a page.
proof fn lemma_tree_has_a_page(image: Seq<u8>, page_size: int, index: int, height: nat)
    ensures
        tree(image, page_size, index, height) matches Some((pages, _)) ==> pages >= 1,
{
}

/// This counter after the visit of a page with the children `kids` and
/// `found` rows.
pub open spec fn after_page(state: RowCounterModel, kids: Seq<u32>, found: nat)
    -> RowCounterModel {
    RowCounterModel {
        walk: state.walk.visited(kids).popped(),
        rows: state.rows + found,
        ..state
    }
}

/// What a counter that has found its table does with one page of a table:
/// it ends with the rows of the page added where no page waits, and goes on
/// with the page that was pushed last where one does.
proof fn lemma_count_step(
    image: Seq<u8>,
    page_size: int,
    state: RowCounterModel,
    index: int,
    kids: Seq<u32>,
    found: nat,
)
    requires
        !state.searching,
        !state.walk.at_root,
        state.walk.budget > 0,
        table_page(image, page_size, index) == Some((kids, found)),
    ensures
        count_rows_in(image, page_size, state, index) == (if state.walk.pending.len()
            + kids.len() == 0 {
            Ok::<nat, DbError>(state.rows + found)
        } else {
            count_rows_in(
                image,
                page_size,
                after_page(state, kids, found),
                (state.walk.pending + kids).last() as int,
            )
        }),
{
    let bytes = page_of(image, page_size, index).unwrap();
    let page = parse_page(bytes, false).unwrap();
    assert(state.walk.decode(bytes) == Ok::<PageModel, DbError>(page));
    let walk = state.walk.visited(kids);
    assert(state.feed(bytes) == Ok::<(RowCounterModel, Step), DbError>(
        (after_page(state, kids, found), walk.next_step()),
    ));
}

/// A counter that has found its table, with the pages `state.walk.pending`
/// waiting and the page `index` asked for, adds to its count the rows of the
/// trees under all these pages, provided its budget allows for their pages:
/// each leaf is counted once.
pub proof fn lemma_count_adds_forest(
    image: Seq<u8>,
    page_size: int,
    state: RowCounterModel,
    index: u32,
    height: nat,
)
    requires
        !state.searching,
        !state.walk.at_root,
        forest(image, page_size, state.walk.pending.push(index), height) matches Some(
            (pages, _),
        ) && pages <= state.walk.budget,
    ensures
        count_rows_in(image, page_size, state, index as int) == Ok::<nat, DbError>(
            state.rows + forest(
                image,
                page_size,
                state.walk.pending.push(index),
                height,
            ).unwrap().1,
        ),
    decreases forest(image, page_size, state.walk.pending.push(index), height).unwrap().0,
{
    let waiting = state.walk.pending;
    let all = waiting.push(index);
    assert(all.drop_last() =~= waiting);
    assert(all.last() == index);
    let here = tree(image, page_size, index as int, height);
    let rest = forest(image, page_size, waiting, height);
    assert(forest(image, page_size, all, height) == both(rest, here));
    lemma_tree_has_a_page(image, page_size, index as int, height);
    let (kids, found) = table_page(image, page_size, index as int).unwrap();
    lemma_count_step(image, page_size, state, index as int, kids, found);
    let below = forest(image, page_size, kids, height);
    assert(here == both(Some((1nat, found)), below)) by {
        if kids.len() > 0 {
            lemma_forest_taller(image, page_size, kids, (height - 1) as nat);
        }
    }
    lemma_forest_concat(image, page_size, waiting, kids, height);
    if waiting.len() + kids.len() > 0 {
        let next = after_page(state, kids, found);
        let m = (waiting + kids).last();
        assert(next.walk.pending.push(m) =~= waiting + kids);
        lemma_count_adds_forest(image, page_size, next, m, height);
    }
}

/// A counter that has just found the root page of its table counts the rows
/// of the tree under that page, provided the tree has no more pages than the
/// counter may visit: the sum of the cells of its leaves, each counted once.
pub proof fn lemma_count_is_tree_sum(
    image: Seq<u8>,
    page_size: int,
    table: Seq<char>,
    limit: nat,
    root: u32,
    height: nat,
)
    requires
        tree(image, page_size, root as int, height) matches Some((pages, _)) && pages <= limit,
    ensures
        count_rows_in(
            image,
            page_size,
            RowCounterModel {
                table,
                limit,
                searching: false,
                walk: WalkModel { at_root: false, pending: Seq::empty(), budget: limit },
                rows: 0,
            },
            root as int,
        ) == Ok::<nat, DbError>(tree(image, page_size, root as int, height).unwrap().1),
{
    let state = RowCounterModel {
        table,
        limit,
        searching: false,
        walk: WalkModel { at_root: false, pending: Seq::empty(), budget: limit },
        rows: 0,
    };
    let all = Seq::<u32>::empty().push(root);
    assert(all.drop_last() =~= Seq::<u32>::empty());
    assert(all.last() == root);
    assert(forest(image, page_size, all.drop_last(), height) == Some((0nat, 0nat)));
    lemma_count_adds_forest(image, page_size, state, root, height);
}

/// Where the schema table has one page, on which the first cell that
/// describes the table `table` gives the root page `root`, the rows counted
/// for that table are the rows of the tree under `root`, provided the tree
/// has no more pages than the file.
pub proof fn lemma_rows_of_table(image: Seq<u8>, table: Seq<char>, root: u32, height: nat)
    requires
        single_schema_page(image) matches Some(page) && find_root_from(page.cells, table, 0)
            == Ok::<Option<u32>, DbError>(Some(root)),
        tree(image, paging_in(image).unwrap().page_size as int, root as int, height) matches Some(
            (pages, _),
        ) && pages <= paging_in(image).unwrap().limit,
    ensures
        rows_counted(image, table) == Ok::<nat, DbError>(
            tree(
                image,
                paging_in(image).unwrap().page_size as int,
                root as int,
                height,
            ).unwrap().1,
        ),
{
    let paging = paging_in(image).unwrap();
    let page_size = paging.page_size as int;
    let limit = paging.limit as nat;
    lemma_tree_has_a_page(image, page_size, root as int, height);
    let bytes = page_of(image, page_size, 0).unwrap();
    let start = RowCounterModel::start(table, limit);
    let page = single_schema_page(image).unwrap();
    assert(start.walk.decode(bytes) == Ok::<PageModel, DbError>(page));
    let found = RowCounterModel {
        table,
        limit,
        searching: false,
        walk: WalkModel { at_root: false, pending: Seq::empty(), budget: limit },
        rows: 0,
    };
    assert(start.feed(bytes) == Ok::<(RowCounterModel, Step), DbError>(
        (found, Step::Fetch(root)),
    ));
    lemma_count_is_tree_sum(image, page_size, table, limit, root, height);
}

} // verus!
