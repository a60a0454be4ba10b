//! The order of a listing.

use crate::entry::{DirSort, EntryView, FileEntry, SortColumn, SortDir, Time};
use crate::text;
use vstd::prelude::*;

verus! {

broadcast use vstd::string::group_string_axioms;

/// How one row stands to another.
#[derive(Clone, Copy, Debug, PartialEq, Eq, Structural)]
pub enum Order {
    Before,
    Level,
    Behind,
}

impl Order {
    /// The order seen from the other side.
    pub open spec fn flipped(self) -> Order {
        match self {
            Order::Before => Order::Behind,
            Order::Level => Order::Level,
            Order::Behind => Order::Before,
        }
    }

    /// The order seen from the other side.
    pub fn flip(self) -> (r: Order)
        ensures
            r == self.flipped(),
    {
        match self {
            Order::Before => Order::Behind,
            Order::Level => Order::Level,
            Order::Behind => Order::Before,
        }
    }
}

// ---------------------------------------------------------------------------
// Models
// ---------------------------------------------------------------------------

/// The order of texts by code points.
pub open spec fn text_order(a: Seq<char>, b: Seq<char>) -> Order {
    if a == b {
        Order::Level
    } else if text::text_before(a, b) {
        Order::Before
    } else {
        Order::Behind
    }
}

/// The order of numbers.
pub open spec fn number_order(a: int, b: int) -> Order {
    if a < b {
        Order::Before
    } else if a == b {
        Order::Level
    } else {
        Order::Behind
    }
}

/// The order of times: an unknown one comes first.
pub open spec fn time_order(a: Option<Time>, b: Option<Time>) -> Order {
    match (a, b) {
        (None, None) => Order::Level,
        (None, Some(_)) => Order::Before,
        (Some(_), None) => Order::Behind,
        (Some(x), Some(y)) => if x.secs == y.secs {
            number_order(x.nanos as int, y.nanos as int)
        } else {
            number_order(x.secs as int, y.secs as int)
        },
    }
}

/// The order of rows by a column.
pub open spec fn column_order(a: EntryView, b: EntryView, col: SortColumn) -> Order {
    match col {
        SortColumn::Name => text_order(text::lowercase(a.name), text::lowercase(b.name)),
        SortColumn::Ext => {
            let by_ext = text_order(text::lowercase(a.ext), text::lowercase(b.ext));
            if by_ext == Order::Level {
                text_order(text::lowercase(a.name), text::lowercase(b.name))
            } else {
                by_ext
            }
        },
        SortColumn::Size => number_order(a.size as int, b.size as int),
        SortColumn::Date => time_order(a.modified, b.modified),
        SortColumn::Attr => text_order(a.attr(), b.attr()),
    }
}

/// The order of rows in a listing.
pub open spec fn row_order(
    a: EntryView,
    b: EntryView,
    col: SortColumn,
    dir: SortDir,
    dir_sort: DirSort,
) -> Order {
    if dir_sort != DirSort::Mixed && a.is_dir != b.is_dir {
        if a.is_dir {
            Order::Before
        } else {
            Order::Behind
        }
    } else if a.is_dir && b.is_dir && dir_sort == DirSort::FirstByName {
        column_order(a, b, SortColumn::Name)
    } else if dir == SortDir::Desc {
        column_order(a, b, col).flipped()
    } else {
        column_order(a, b, col)
    }
}

/// Where a row goes into a listing: behind the last one that it does not stand before.
pub open spec fn place(
    rows: Seq<EntryView>,
    row: EntryView,
    col: SortColumn,
    dir: SortDir,
    dir_sort: DirSort,
) -> int
    decreases rows.len(),
{
    if rows.len() == 0 {
        0
    } else if row_order(rows.last(), row, col, dir, dir_sort) == Order::Behind {
        place(rows.drop_last(), row, col, dir, dir_sort)
    } else {
        rows.len() as int
    }
}

/// Rows in the order of a listing; rows that stand level keep their order.
pub open spec fn sorted(
    rows: Seq<EntryView>,
    col: SortColumn,
    dir: SortDir,
    dir_sort: DirSort,
) -> Seq<EntryView>
    decreases rows.len(),
{
    if rows.len() == 0 {
        seq![]
    } else {
        let front = sorted(rows.drop_last(), col, dir, dir_sort);
        front.insert(place(front, rows.last(), col, dir, dir_sort), rows.last())
    }
}

/// Whether no row stands behind a later one.
pub open spec fn in_order(
    rows: Seq<EntryView>,
    col: SortColumn,
    dir: SortDir,
    dir_sort: DirSort,
) -> bool {
    forall|i: int, j: int|
        0 <= i < j < rows.len() ==> row_order(#[trigger] rows[i], #[trigger] rows[j], col, dir, dir_sort)
            != Order::Behind
}

// ---------------------------------------------------------------------------
// Laws
// ---------------------------------------------------------------------------

proof fn lemma_text_flip(a: Seq<char>, b: Seq<char>)
    ensures
        text_order(b, a) == text_order(a, b).flipped(),
    decreases a.len(),
{
    if a.len() > 0 && b.len() > 0 && a[0] == b[0] {
        lemma_text_flip(a.drop_first(), b.drop_first());
        if a.drop_first() == b.drop_first() {
            assert(a == seq![a[0]] + a.drop_first());
            assert(b == seq![b[0]] + b.drop_first());
        }
    } else if a.len() == 0 && b.len() == 0 {
        assert(a == b);
    }
}

proof fn lemma_text_chain(a: Seq<char>, b: Seq<char>, c: Seq<char>)
    requires
        text_order(a, b) != Order::Behind,
        text_order(b, c) != Order::Behind,
    ensures
        text_order(a, c) != Order::Behind,
        text_order(a, c) == Order::Level ==> a == b && b == c,
    decreases a.len(),
{
    if a != b && b != c {
        lemma_before_chain(a, b, c);
    }
}

proof fn lemma_before_chain(a: Seq<char>, b: Seq<char>, c: Seq<char>)
    requires
        text::text_before(a, b),
        text::text_before(b, c),
    ensures
        text::text_before(a, c),
        a != c,
    decreases a.len(),
{
    if a.len() > 0 && a[0] == b[0] && b[0] == c[0] {
        lemma_before_chain(a.drop_first(), b.drop_first(), c.drop_first());
    }
}

/// Seen from the other side, the order of two rows is flipped: the order is total, and rows
/// stand level both ways or not at all.
pub proof fn row_order_flips(
    a: EntryView,
    b: EntryView,
    col: SortColumn,
    dir: SortDir,
    dir_sort: DirSort,
)
    ensures
        row_order(b, a, col, dir, dir_sort) == row_order(a, b, col, dir, dir_sort).flipped(),
{
    lemma_text_flip(text::lowercase(a.name), text::lowercase(b.name));
    lemma_text_flip(text::lowercase(a.ext), text::lowercase(b.ext));
    lemma_text_flip(a.attr(), b.attr());
}

/// The order by a column carries over: where no row of two pairs stands behind the next one,
/// the first does not stand behind the last.
proof fn lemma_column_chain(a: EntryView, b: EntryView, c: EntryView, col: SortColumn)
    requires
        column_order(a, b, col) != Order::Behind,
        column_order(b, c, col) != Order::Behind,
    ensures
        column_order(a, c, col) != Order::Behind,
{
    let (an, bn, cn) = (text::lowercase(a.name), text::lowercase(b.name), text::lowercase(c.name));
    let (ae, be, ce) = (text::lowercase(a.ext), text::lowercase(b.ext), text::lowercase(c.ext));
    match col {
        SortColumn::Name => lemma_text_chain(an, bn, cn),
        SortColumn::Ext => {
            lemma_text_chain(ae, be, ce);
            if text_order(ae, ce) == Order::Level {
                lemma_text_chain(an, bn, cn);
            }
        },
        SortColumn::Attr => lemma_text_chain(a.attr(), b.attr(), c.attr()),
        _ => {},
    }
}

/// The order of rows carries over: where neither of two neighbouring pairs is out of order,
/// the outer two are in order too.
pub proof fn row_order_chains(
    a: EntryView,
    b: EntryView,
    c: EntryView,
    col: SortColumn,
    dir: SortDir,
    dir_sort: DirSort,
)
    requires
        row_order(a, b, col, dir, dir_sort) != Order::Behind,
        row_order(b, c, col, dir, dir_sort) != Order::Behind,
    ensures
        row_order(a, c, col, dir, dir_sort) != Order::Behind,
{
    if dir_sort != DirSort::Mixed && (a.is_dir != b.is_dir || b.is_dir != c.is_dir) {
    } else if a.is_dir && b.is_dir && c.is_dir && dir_sort == DirSort::FirstByName {
        lemma_column_chain(a, b, c, SortColumn::Name);
    } else if dir == SortDir::Desc {
        lemma_column_flip(a, b, col);
        lemma_column_flip(b, c, col);
        lemma_column_flip(a, c, col);
        lemma_column_chain(c, b, a, col);
    } else {
        lemma_column_chain(a, b, c, col);
    }
}

proof fn lemma_column_flip(a: EntryView, b: EntryView, col: SortColumn)
    ensures
        column_order(b, a, col) == column_order(a, b, col).flipped(),
{
    row_order_flips(a, b, col, SortDir::Asc, DirSort::Mixed);
}

proof fn lemma_place(
    rows: Seq<EntryView>,
    row: EntryView,
    col: SortColumn,
    dir: SortDir,
    dir_sort: DirSort,
)
    ensures
        0 <= place(rows, row, col, dir, dir_sort) <= rows.len(),
        forall|k: int|
            place(rows, row, col, dir, dir_sort) <= k < rows.len() ==> row_order(
                #[trigger] rows[k],
                row,
                col,
                dir,
                dir_sort,
            ) == Order::Behind,
        place(rows, row, col, dir, dir_sort) > 0 ==> row_order(
            rows[place(rows, row, col, dir, dir_sort) - 1],
            row,
            col,
            dir,
            dir_sort,
        ) != Order::Behind,
    decreases rows.len(),
{
    if rows.len() > 0 && row_order(rows.last(), row, col, dir, dir_sort) == Order::Behind {
        let front = rows.drop_last();
        lemma_place(front, row, col, dir, dir_sort);
        let p = place(front, row, col, dir, dir_sort);
        assert forall|k: int| p <= k < rows.len() implies row_order(
            #[trigger] rows[k],
            row,
            col,
            dir,
            dir_sort,
        ) == Order::Behind by {
            if k < front.len() {
                assert(front[k] == rows[k]);
            }
        }
        if p > 0 {
            assert(front[p - 1] == rows[p - 1]);
        }
    }
}

/// A position with nothing behind it that should stand in front, and nothing in front that
/// should stand behind, is the place of the row.
proof fn lemma_place_is(
    rows: Seq<EntryView>,
    row: EntryView,
    at: int,
    col: SortColumn,
    dir: SortDir,
    dir_sort: DirSort,
)
    requires
        0 <= at <= rows.len(),
        forall|k: int|
            at <= k < rows.len() ==> row_order(#[trigger] rows[k], row, col, dir, dir_sort)
                == Order::Behind,
        at > 0 ==> row_order(rows[at - 1], row, col, dir, dir_sort) != Order::Behind,
    ensures
        place(rows, row, col, dir, dir_sort) == at,
{
    lemma_place(rows, row, col, dir, dir_sort);
}

/// Sorting puts the rows in order.
pub proof fn sorted_in_order(
    rows: Seq<EntryView>,
    col: SortColumn,
    dir: SortDir,
    dir_sort: DirSort,
)
    ensures
        in_order(sorted(rows, col, dir, dir_sort), col, dir, dir_sort),
    decreases rows.len(),
{
    if rows.len() > 0 {
        let front = sorted(rows.drop_last(), col, dir, dir_sort);
        let row = rows.last();
        let p = place(front, row, col, dir, dir_sort);
        sorted_in_order(rows.drop_last(), col, dir, dir_sort);
        lemma_place(front, row, col, dir, dir_sort);
        let all = front.insert(p, row);
        assert forall|i: int, j: int| 0 <= i < j < all.len() implies row_order(
            #[trigger] all[i],
            #[trigger] all[j],
            col,
            dir,
            dir_sort,
        ) != Order::Behind by {
            if j == p {
                assert(all[i] == front[i]);
                if i < p - 1 {
                    assert(row_order(front[i], front[p - 1], col, dir, dir_sort) != Order::Behind);
                    row_order_chains(front[i], front[p - 1], row, col, dir, dir_sort);
                }
            } else if i == p {
                assert(all[j] == front[j - 1]);
                row_order_flips(front[j - 1], row, col, dir, dir_sort);
            } else {
                let a: int = if i < p { i } else { i - 1 };
                let b: int = if j < p { j } else { j - 1 };
                assert(all[i] == front[a]);
                assert(all[j] == front[b]);
            }
        }
    }
}

/// Sorting keeps the rows: none is lost, none is added.
pub proof fn sorted_keeps_rows(
    rows: Seq<EntryView>,
    col: SortColumn,
    dir: SortDir,
    dir_sort: DirSort,
)
    ensures
        sorted(rows, col, dir, dir_sort).to_multiset() == rows.to_multiset(),
        sorted(rows, col, dir, dir_sort).len() == rows.len(),
    decreases rows.len(),
{
    broadcast use vstd::seq_lib::group_to_multiset_ensures;

    if rows.len() > 0 {
        let front = sorted(rows.drop_last(), col, dir, dir_sort);
        let row = rows.last();
        sorted_keeps_rows(rows.drop_last(), col, dir, dir_sort);
        lemma_place(front, row, col, dir, dir_sort);
        let p = place(front, row, col, dir, dir_sort);
        assert(rows == rows.drop_last().push(row));
        assert(front.insert(p, row).to_multiset() == front.to_multiset().insert(row));
    } else {
        assert(rows == Seq::<EntryView>::empty());
    }
}

/// Sorting again changes nothing.
pub proof fn sorted_twice(rows: Seq<EntryView>, col: SortColumn, dir: SortDir, dir_sort: DirSort)
    ensures
        sorted(sorted(rows, col, dir, dir_sort), col, dir, dir_sort) == sorted(
            rows,
            col,
            dir,
            dir_sort,
        ),
{
    sorted_in_order(rows, col, dir, dir_sort);
    lemma_in_order_sorted(sorted(rows, col, dir, dir_sort), col, dir, dir_sort);
}

proof fn lemma_in_order_sorted(
    rows: Seq<EntryView>,
    col: SortColumn,
    dir: SortDir,
    dir_sort: DirSort,
)
    requires
        in_order(rows, col, dir, dir_sort),
    ensures
        sorted(rows, col, dir, dir_sort) == rows,
    decreases rows.len(),
{
    if rows.len() > 0 {
        let front = rows.drop_last();
        assert forall|i: int, j: int| 0 <= i < j < front.len() implies row_order(
            #[trigger] front[i],
            #[trigger] front[j],
            col,
            dir,
            dir_sort,
        ) != Order::Behind by {
            assert(row_order(rows[i], rows[j], col, dir, dir_sort) != Order::Behind);
        }
        lemma_in_order_sorted(front, col, dir, dir_sort);
        if front.len() > 0 {
            assert(row_order(rows[front.len() - 1], rows[rows.len() - 1], col, dir, dir_sort)
                != Order::Behind);
        }
        assert(front.insert(front.len() as int, rows.last()) == rows);
    }
}

/// Those of the rows that stand level with a row, in their order.
pub open spec fn level_with(
    rows: Seq<EntryView>,
    row: EntryView,
    col: SortColumn,
    dir: SortDir,
    dir_sort: DirSort,
) -> Seq<EntryView>
    decreases rows.len(),
{
    if rows.len() == 0 {
        seq![]
    } else {
        let front = level_with(rows.drop_last(), row, col, dir, dir_sort);
        if row_order(rows.last(), row, col, dir, dir_sort) == Order::Level {
            front.push(rows.last())
        } else {
            front
        }
    }
}

proof fn lemma_level_joined(
    a: Seq<EntryView>,
    b: Seq<EntryView>,
    row: EntryView,
    col: SortColumn,
    dir: SortDir,
    dir_sort: DirSort,
)
    ensures
        level_with(a + b, row, col, dir, dir_sort) == level_with(a, row, col, dir, dir_sort)
            + level_with(b, row, col, dir, dir_sort),
    decreases b.len(),
{
    if b.len() == 0 {
        assert(a + b =~= a);
    } else {
        lemma_level_joined(a, b.drop_last(), row, col, dir, dir_sort);
        assert((a + b).drop_last() =~= a + b.drop_last());
        assert((a + b).last() == b.last());
    }
}

proof fn lemma_none_level(
    rows: Seq<EntryView>,
    row: EntryView,
    col: SortColumn,
    dir: SortDir,
    dir_sort: DirSort,
)
    requires
        forall|k: int|
            0 <= k < rows.len() ==> row_order(#[trigger] rows[k], row, col, dir, dir_sort)
                != Order::Level,
    ensures
        level_with(rows, row, col, dir, dir_sort).len() == 0,
    decreases rows.len(),
{
    if rows.len() > 0 {
        let front = rows.drop_last();
        assert forall|k: int| 0 <= k < front.len() implies row_order(
            #[trigger] front[k],
            row,
            col,
            dir,
            dir_sort,
        ) != Order::Level by {
            assert(row_order(rows[k], row, col, dir, dir_sort) != Order::Level);
        }
        lemma_none_level(front, row, col, dir, dir_sort);
        assert(row_order(rows[rows.len() - 1], row, col, dir, dir_sort) != Order::Level);
    }
}

/// Sorting is stable: rows that stand level keep the order in which they came.
pub proof fn level_rows_keep_order(
    rows: Seq<EntryView>,
    row: EntryView,
    col: SortColumn,
    dir: SortDir,
    dir_sort: DirSort,
)
    ensures
        level_with(sorted(rows, col, dir, dir_sort), row, col, dir, dir_sort) == level_with(
            rows,
            row,
            col,
            dir,
            dir_sort,
        ),
    decreases rows.len(),
{
    if rows.len() > 0 {
        let front = sorted(rows.drop_last(), col, dir, dir_sort);
        let last = rows.last();
        level_rows_keep_order(rows.drop_last(), row, col, dir, dir_sort);
        lemma_place(front, last, col, dir, dir_sort);
        let p = place(front, last, col, dir, dir_sort);
        let (a, b) = (front.take(p), front.skip(p));
        assert(front =~= a + b);
        assert(front.insert(p, last) =~= (a + seq![last]) + b);
        lemma_level_joined(a, b, row, col, dir, dir_sort);
        lemma_level_joined(a + seq![last], b, row, col, dir, dir_sort);
        assert((a + seq![last]).drop_last() =~= a);
        assert((a + seq![last]).last() == last);
        if row_order(last, row, col, dir, dir_sort) == Order::Level {
            assert forall|k: int| 0 <= k < b.len() implies row_order(
                #[trigger] b[k],
                row,
                col,
                dir,
                dir_sort,
            ) != Order::Level by {
                assert(b[k] == front[p + k]);
                assert(row_order(front[p + k], last, col, dir, dir_sort) == Order::Behind);
                row_order_flips(last, row, col, dir, dir_sort);
                if row_order(b[k], row, col, dir, dir_sort) == Order::Level {
                    row_order_chains(b[k], row, last, col, dir, dir_sort);
                }
            }
            lemma_none_level(b, row, col, dir, dir_sort);
            assert(level_with(b, row, col, dir, dir_sort) =~= seq![]);
        }
    }
}

/// With directories kept on top, no file stands above a directory.
pub proof fn directories_on_top(
    rows: Seq<EntryView>,
    col: SortColumn,
    dir: SortDir,
    dir_sort: DirSort,
)
    requires
        dir_sort != DirSort::Mixed,
    ensures
        ({
            let s = sorted(rows, col, dir, dir_sort);
            forall|i: int, j: int|
                0 <= i < j < s.len() && (#[trigger] s[j]).is_dir ==> (#[trigger] s[i]).is_dir
        }),
{
    sorted_in_order(rows, col, dir, dir_sort);
    let s = sorted(rows, col, dir, dir_sort);
    assert forall|i: int, j: int|
        0 <= i < j < s.len() && (#[trigger] s[j]).is_dir implies (#[trigger] s[i]).is_dir by {
        assert(row_order(s[i], s[j], col, dir, dir_sort) != Order::Behind);
    }
}

// ---------------------------------------------------------------------------
// Executable order
// ---------------------------------------------------------------------------

/// The order of texts by code points.
pub fn order_texts(a: &str, b: &str) -> (r: Order)
    ensures
        r == text_order(a@, b@),
{
    let va = text::chars_of(a);
    let vb = text::chars_of(b);
    let mut i: usize = 0;
    assert(a@.skip(0) == a@);
    assert(b@.skip(0) == b@);
    while i < va.len() && i < vb.len()
        invariant
            i <= va.len(),
            i <= vb.len(),
            va@ == a@,
            vb@ == b@,
            text_order(a@, b@) == text_order(a@.skip(i as int), b@.skip(i as int)),
        decreases va.len() - i,
    {
        proof {
            let (x, y) = (a@.skip(i as int), b@.skip(i as int));
            assert(x.drop_first() == a@.skip(i + 1));
            assert(y.drop_first() == b@.skip(i + 1));
            if x[0] == y[0] && x.drop_first() == y.drop_first() {
                assert(x == seq![x[0]] + x.drop_first());
                assert(y == seq![y[0]] + y.drop_first());
            }
        }
        if va[i] < vb[i] {
            return Order::Before;
        }
        if vb[i] < va[i] {
            return Order::Behind;
        }
        i += 1;
    }
    proof {
        let (x, y) = (a@.skip(i as int), b@.skip(i as int));
        if x.len() == 0 && y.len() == 0 {
            assert(x == y);
        }
    }
    if i < vb.len() {
        Order::Before
    } else if i < va.len() {
        Order::Behind
    } else {
        Order::Level
    }
}

fn order_numbers(a: u64, b: u64) -> (r: Order)
    ensures
        r == number_order(a as int, b as int),
{
    if a < b {
        Order::Before
    } else if a == b {
        Order::Level
    } else {
        Order::Behind
    }
}

fn order_times(a: Option<Time>, b: Option<Time>) -> (r: Order)
    ensures
        r == time_order(a, b),
{
    match (a, b) {
        (None, None) => Order::Level,
        (None, Some(_)) => Order::Before,
        (Some(_), None) => Order::Behind,
        (Some(x), Some(y)) => {
            if x.secs == y.secs {
                order_numbers(x.nanos as u64, y.nanos as u64)
            } else if x.secs < y.secs {
                Order::Before
            } else {
                Order::Behind
            }
        },
    }
}

fn order_by_column(a: &FileEntry, b: &FileEntry, col: SortColumn) -> (r: Order)
    ensures
        r == column_order(a@, b@, col),
{
    match col {
        SortColumn::Name => {
            let x = text::to_lower(a.name.as_str());
            let y = text::to_lower(b.name.as_str());
            order_texts(x.as_str(), y.as_str())
        },
        SortColumn::Ext => {
            let x = text::to_lower(a.ext.as_str());
            let y = text::to_lower(b.ext.as_str());
            let by_ext = order_texts(x.as_str(), y.as_str());
            if by_ext == Order::Level {
                let x = text::to_lower(a.name.as_str());
                let y = text::to_lower(b.name.as_str());
                order_texts(x.as_str(), y.as_str())
            } else {
                by_ext
            }
        },
        SortColumn::Size => order_numbers(a.size, b.size),
        SortColumn::Date => order_times(a.modified, b.modified),
        SortColumn::Attr => order_texts(a.attr_str(), b.attr_str()),
    }
}

/// The order of two rows in a listing.
pub fn order_rows(
    a: &FileEntry,
    b: &FileEntry,
    col: SortColumn,
    dir: SortDir,
    dir_sort: DirSort,
) -> (r: Order)
    ensures
        r == row_order(a@, b@, col, dir, dir_sort),
{
    if dir_sort != DirSort::Mixed && a.is_dir != b.is_dir {
        if a.is_dir {
            Order::Before
        } else {
            Order::Behind
        }
    } else if a.is_dir && b.is_dir && dir_sort == DirSort::FirstByName {
        order_by_column(a, b, SortColumn::Name)
    } else if dir == SortDir::Desc {
        order_by_column(a, b, col).flip()
    } else {
        order_by_column(a, b, col)
    }
}

/// Where `row` goes into the first `n` of `items`, which are in order.
fn find_place(
    items: &Vec<FileEntry>,
    n: usize,
    row: &FileEntry,
    col: SortColumn,
    dir: SortDir,
    dir_sort: DirSort,
) -> (r: usize)
    requires
        n <= items.len(),
        in_order(items.deep_view().take(n as int), col, dir, dir_sort),
    ensures
        r == place(items.deep_view().take(n as int), row@, col, dir, dir_sort),
        r <= n,
{
    let ghost rows = items.deep_view().take(n as int);
    let mut lo: usize = 0;
    let mut hi: usize = n;
    while lo < hi
        invariant
            lo <= hi <= n,
            n <= items.len(),
            rows == items.deep_view().take(n as int),
            in_order(rows, col, dir, dir_sort),
            forall|k: int|
                hi <= k < rows.len() ==> row_order(#[trigger] rows[k], row@, col, dir, dir_sort)
                    == Order::Behind,
            lo > 0 ==> row_order(rows[lo - 1], row@, col, dir, dir_sort) != Order::Behind,
        decreases hi - lo,
    {
        let mid: usize = lo + (hi - lo) / 2;
        assert(rows[mid as int] == items[mid as int]@);
        if order_rows(&items[mid], row, col, dir, dir_sort) == Order::Behind {
            proof {
                assert forall|k: int| mid <= k < rows.len() implies row_order(
                    #[trigger] rows[k],
                    row@,
                    col,
                    dir,
                    dir_sort,
                ) == Order::Behind by {
                    if k > mid && row_order(rows[k], row@, col, dir, dir_sort) != Order::Behind {
                        assert(row_order(rows[mid as int], rows[k], col, dir, dir_sort)
                            != Order::Behind);
                        row_order_chains(rows[mid as int], rows[k], row@, col, dir, dir_sort);
                    }
                }
            }
            hi = mid;
        } else {
            lo = mid + 1;
        }
    }
    proof {
        lemma_place_is(rows, row@, lo as int, col, dir, dir_sort);
    }
    lo
}

/// Puts rows in the order of a listing; rows that stand level keep their order.
pub fn sort_entries_by(items: &mut Vec<FileEntry>, col: SortColumn, dir: SortDir, dir_sort: DirSort)
    ensures
        final(items).deep_view() == sorted(old(items).deep_view(), col, dir, dir_sort),
{
    let ghost all = items.deep_view();
    let mut i: usize = 0;
    assert(all.take(0) == Seq::<EntryView>::empty());
    assert(all.skip(0) == all);
    assert(items.deep_view().take(0) == sorted(all.take(0), col, dir, dir_sort));
    while i < items.len()
        invariant
            i <= items.len(),
            items.len() == all.len(),
            items.deep_view().take(i as int) == sorted(all.take(i as int), col, dir, dir_sort),
            items.deep_view().skip(i as int) == all.skip(i as int),
        decreases items.len() - i,
    {
        let ghost now = items.deep_view();
        proof {
            sorted_in_order(all.take(i as int), col, dir, dir_sort);
        }
        let p = find_place(items, i, &items[i], col, dir, dir_sort);
        let row = items.remove(i);
        items.insert(p, row);
        proof {
            let front = now.take(i as int);
            assert(now[i as int] == now.skip(i as int)[0]);
            assert(now[i as int] == all[i as int]);
            assert(items.deep_view() =~= now.remove(i as int).insert(p as int, now[i as int]));
            assert(items.deep_view().take(i + 1) =~= front.insert(p as int, now[i as int]));
            assert(all.take(i + 1).drop_last() == all.take(i as int));
            assert(items.deep_view().skip(i + 1) =~= now.skip(i as int).skip(1));
            assert(all.skip(i + 1) =~= all.skip(i as int).skip(1));
        }
        i += 1;
    }
    assert(items.deep_view().take(i as int) == items.deep_view());
    assert(all.take(i as int) == all);
}

/// Puts rows in the standard order: directories on top, then by name.
pub fn sort_entries(items: &mut Vec<FileEntry>)
    ensures
        final(items).deep_view() == sorted(
            old(items).deep_view(),
            SortColumn::Name,
            SortDir::Asc,
            DirSort::FirstByCol,
        ),
{
    sort_entries_by(items, SortColumn::Name, SortDir::Asc, DirSort::FirstByCol);
}

/// For two rows that stand under the same rule, the descending order is the ascending one with
/// the rows changed over, whatever the column.
pub proof fn descending_is_ascending_flipped(
    a: EntryView,
    b: EntryView,
    col: SortColumn,
    dir_sort: DirSort,
)
    requires
        dir_sort == DirSort::Mixed || a.is_dir == b.is_dir,
        !(a.is_dir && b.is_dir && dir_sort == DirSort::FirstByName),
    ensures
        row_order(a, b, col, SortDir::Desc, dir_sort) == row_order(
            b,
            a,
            col,
            SortDir::Asc,
            dir_sort,
        ),
        row_order(a, b, col, SortDir::Asc, dir_sort) == Order::Before <==> row_order(
            a,
            b,
            col,
            SortDir::Desc,
            dir_sort,
        ) == Order::Behind,
{
    row_order_flips(a, b, col, SortDir::Asc, dir_sort);
}

/// Whether a row's key may stand before another's, the smaller keys first: by name or by ending
/// without regard to case (equal endings by name), by size, by time with unknown times first,
/// by what is writable before what is not.
pub open spec fn key_not_above(a: EntryView, b: EntryView, col: SortColumn) -> bool {
    let (an, bn) = (text::lowercase(a.name), text::lowercase(b.name));
    let (ae, be) = (text::lowercase(a.ext), text::lowercase(b.ext));
    match col {
        SortColumn::Name => an == bn || text::comes_first(an, bn),
        SortColumn::Ext => text::comes_first(ae, be) || (ae == be && (an == bn
            || text::comes_first(an, bn))),
        SortColumn::Size => a.size <= b.size,
        SortColumn::Date => a.modified is None || (b.modified is Some && (a.modified->0.secs
            < b.modified->0.secs || (a.modified->0.secs == b.modified->0.secs
            && a.modified->0.nanos <= b.modified->0.nanos))),
        SortColumn::Attr => b.readonly || !a.readonly,
    }
}

proof fn lemma_text_not_behind(a: Seq<char>, b: Seq<char>)
    ensures
        text_order(a, b) == Order::Before <==> text::comes_first(a, b),
        text_order(a, b) != Order::Behind <==> a == b || text::comes_first(a, b),
{
    text::text_before_by_difference(a, b);
    if a == b {
        lemma_text_irreflexive(a);
    }
}

proof fn lemma_text_irreflexive(a: Seq<char>)
    ensures
        !text::text_before(a, a),
    decreases a.len(),
{
    if a.len() > 0 {
        lemma_text_irreflexive(a.subrange(1, a.len() as int));
    }
}

proof fn lemma_key(a: EntryView, b: EntryView, col: SortColumn)
    ensures
        column_order(a, b, col) != Order::Behind <==> key_not_above(a, b, col),
{
    lemma_text_not_behind(text::lowercase(a.name), text::lowercase(b.name));
    lemma_text_not_behind(text::lowercase(a.ext), text::lowercase(b.ext));
    lemma_text_not_behind(a.attr(), b.attr());
    reveal_strlit("R");
    reveal_strlit("");
    if !a.readonly && b.readonly {
        assert(a.attr().take(0) =~= b.attr().take(0));
        assert(text::comes_first(a.attr(), b.attr()));
    }
    if a.readonly && !b.readonly {
        assert(a.attr() != b.attr());
        assert(!text::comes_first(a.attr(), b.attr()));
    }
}

/// Sorted rows stand by their keys: of two rows under the same rule, the one with the smaller
/// key stands first in ascending order and last in descending order. Directories that are kept
/// first by name stand by name in both.
pub proof fn sorted_by_keys(
    rows: Seq<EntryView>,
    col: SortColumn,
    dir: SortDir,
    dir_sort: DirSort,
    i: int,
    j: int,
)
    requires
        0 <= i < j < sorted(rows, col, dir, dir_sort).len(),
    ensures
        ({
            let a = sorted(rows, col, dir, dir_sort)[i];
            let b = sorted(rows, col, dir, dir_sort)[j];
            let by_name = a.is_dir && b.is_dir && dir_sort == DirSort::FirstByName;
            let alike = dir_sort == DirSort::Mixed || a.is_dir == b.is_dir;
            &&& alike && !by_name && dir == SortDir::Asc ==> key_not_above(a, b, col)
            &&& alike && !by_name && dir == SortDir::Desc ==> key_not_above(b, a, col)
            &&& by_name ==> key_not_above(a, b, SortColumn::Name)
            &&& !alike ==> a.is_dir && !b.is_dir
        }),
{
    sorted_in_order(rows, col, dir, dir_sort);
    let a = sorted(rows, col, dir, dir_sort)[i];
    let b = sorted(rows, col, dir, dir_sort)[j];
    lemma_key(a, b, col);
    lemma_key(b, a, col);
    lemma_key(a, b, SortColumn::Name);
    lemma_column_flip(a, b, col);
}

/// Of two files sorted by size, the larger one stands first in descending order and last in
/// ascending order.
pub proof fn files_by_size(rows: Seq<EntryView>, dir_sort: DirSort, i: int, j: int)
    requires
        0 <= i < j < rows.len(),
    ensures
        ({
            let s = sorted(rows, SortColumn::Size, SortDir::Desc, dir_sort);
            !s[i].is_dir && !s[j].is_dir ==> s[i].size >= s[j].size
        }),
        ({
            let s = sorted(rows, SortColumn::Size, SortDir::Asc, dir_sort);
            !s[i].is_dir && !s[j].is_dir ==> s[i].size <= s[j].size
        }),
{
    sorted_keeps_rows(rows, SortColumn::Size, SortDir::Desc, dir_sort);
    sorted_keeps_rows(rows, SortColumn::Size, SortDir::Asc, dir_sort);
    sorted_by_keys(rows, SortColumn::Size, SortDir::Desc, dir_sort, i, j);
    sorted_by_keys(rows, SortColumn::Size, SortDir::Asc, dir_sort, i, j);
}

} // verus!
