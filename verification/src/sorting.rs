//! The order of rows in the file list: by name, date or size, with the
//! `..` row first and folders before files whichever way a column is
//! sorted.
use vstd::prelude::*;
use crate::text::{chars_of, lowercase, to_lowercase, str_eq};

verus! {

/// The result of comparing two rows.
#[derive(Clone, Copy, Debug, PartialEq, Eq, Structural)]
pub enum Order {
    Smaller,
    Equal,
    Larger,
}

/// The columns a list can be sorted by.
#[derive(Clone, Copy, Debug, PartialEq, Eq, Structural)]
pub enum SortColumn {
    Name,
    Date,
    Size,
}

/// What a row offers to sorting.
pub struct RowKey {
    pub name: String,
    pub is_dir: bool,
    pub size: u64,
    pub date: String,
}

/// The opposite order.
pub open spec fn invert(o: Order) -> Order {
    match o {
        Order::Smaller => Order::Larger,
        Order::Equal => Order::Equal,
        Order::Larger => Order::Smaller,
    }
}

/// Lexicographic order of two strings by character code, the order of
/// `str` comparison.
pub open spec fn lex_order(a: Seq<char>, b: Seq<char>) -> Order
    decreases a.len(),
{
    if a.len() == 0 && b.len() == 0 {
        Order::Equal
    } else if a.len() == 0 {
        Order::Smaller
    } else if b.len() == 0 {
        Order::Larger
    } else if (a[0] as u32) < (b[0] as u32) {
        Order::Smaller
    } else if (a[0] as u32) > (b[0] as u32) {
        Order::Larger
    } else {
        lex_order(a.drop_first(), b.drop_first())
    }
}

/// Numeric order of two sizes.
pub open spec fn num_order(a: u64, b: u64) -> Order {
    if a < b { Order::Smaller } else if a > b { Order::Larger } else { Order::Equal }
}

/// The `..` row and folders are placed before the rest whichever way the
/// column is sorted: as the list view inverts the comparison of a
/// descending column, the comparison is inverted here for them too.
pub open spec fn directories_first(a: RowKey, b: RowKey, descending: bool) -> Option<Order> {
    if a.name@ == ".."@ {
        Some(if descending { Order::Larger } else { Order::Smaller })
    } else if b.name@ == ".."@ {
        Some(if descending { Order::Smaller } else { Order::Larger })
    } else if a.is_dir != b.is_dir {
        Some(if a.is_dir != descending { Order::Smaller } else { Order::Larger })
    } else {
        None
    }
}

/// How the sorter of a column compares two rows.
pub open spec fn compare_rows_spec(a: RowKey, b: RowKey, column: SortColumn, descending: bool) -> Order {
    match directories_first(a, b, descending) {
        Some(o) => o,
        None => match column {
            SortColumn::Name => lex_order(lowercase(a.name@), lowercase(b.name@)),
            SortColumn::Date => lex_order(a.date@, b.date@),
            SortColumn::Size => if a.is_dir && b.is_dir {
                lex_order(lowercase(a.name@), lowercase(b.name@))
            } else {
                num_order(a.size, b.size)
            },
        },
    }
}

/// The order the list shows: the sorter's comparison, inverted for a
/// descending column.
pub open spec fn shown_order(a: RowKey, b: RowKey, column: SortColumn, descending: bool) -> Order {
    let o = compare_rows_spec(a, b, column, descending);
    if descending { invert(o) } else { o }
}

/// Compares two character sequences lexicographically.
pub fn lex_compare(a: &[char], b: &[char]) -> (res: Order)
    ensures
        res == lex_order(a@, b@),
{
    let mut i: usize = 0;
    assert(a@.skip(0) =~= a@);
    assert(b@.skip(0) =~= b@);
    while i < a.len() && i < b.len()
        invariant
            i <= a.len(),
            i <= b.len(),
            lex_order(a@, b@) == lex_order(a@.skip(i as int), b@.skip(i as int)),
        decreases a.len() - i,
    {
        let (x, y) = (a[i] as u32, b[i] as u32);
        assert(a@.skip(i as int)[0] == a@[i as int]);
        assert(b@.skip(i as int)[0] == b@[i as int]);
        if x < y {
            return Order::Smaller;
        }
        if x > y {
            return Order::Larger;
        }
        assert(a@.skip(i as int).drop_first() =~= a@.skip(i + 1));
        assert(b@.skip(i as int).drop_first() =~= b@.skip(i + 1));
        i += 1;
    }
    if a.len() == i && b.len() == i {
        Order::Equal
    } else if a.len() == i {
        Order::Smaller
    } else {
        Order::Larger
    }
}

fn lex_compare_str(a: &str, b: &str) -> (res: Order)
    ensures
        res == lex_order(a@, b@),
{
    let ca = chars_of(a);
    let cb = chars_of(b);
    lex_compare(ca.as_slice(), cb.as_slice())
}

/// Compares two rows as the sorter of `column` does.
pub fn compare_rows(a: &RowKey, b: &RowKey, column: SortColumn, descending: bool) -> (res: Order)
    ensures
        res == compare_rows_spec(*a, *b, column, descending),
{
    proof { reveal_strlit(".."); }
    if str_eq(a.name.as_str(), "..") {
        return if descending { Order::Larger } else { Order::Smaller };
    }
    if str_eq(b.name.as_str(), "..") {
        return if descending { Order::Smaller } else { Order::Larger };
    }
    if a.is_dir != b.is_dir {
        return if a.is_dir != descending { Order::Smaller } else { Order::Larger };
    }
    match column {
        SortColumn::Name => {
            let la = to_lowercase(a.name.as_str());
            let lb = to_lowercase(b.name.as_str());
            lex_compare_str(la.as_str(), lb.as_str())
        },
        SortColumn::Date => lex_compare_str(a.date.as_str(), b.date.as_str()),
        SortColumn::Size => {
            if a.is_dir && b.is_dir {
                let la = to_lowercase(a.name.as_str());
                let lb = to_lowercase(b.name.as_str());
                lex_compare_str(la.as_str(), lb.as_str())
            } else if a.size < b.size {
                Order::Smaller
            } else if a.size > b.size {
                Order::Larger
            } else {
                Order::Equal
            }
        },
    }
}

/// The sort column a saved setting names: `date` or `size`, else the name.
pub fn sort_column_from(saved: Option<&str>) -> (res: SortColumn)
    ensures
        res == (match saved {
            Some(s) => if s@ == "date"@ { SortColumn::Date } else if s@ == "size"@ { SortColumn::Size } else { SortColumn::Name },
            None => SortColumn::Name,
        }),
{
    match saved {
        Some(s) => {
            if str_eq(s, "date") {
                SortColumn::Date
            } else if str_eq(s, "size") {
                SortColumn::Size
            } else {
                SortColumn::Name
            }
        },
        None => SortColumn::Name,
    }
}

/// The setting value of a sort column.
pub fn sort_column_name(c: SortColumn) -> (res: &'static str)
    ensures
        res@ == (match c {
            SortColumn::Name => "name"@,
            SortColumn::Date => "date"@,
            SortColumn::Size => "size"@,
        }),
{
    match c {
        SortColumn::Name => "name",
        SortColumn::Date => "date",
        SortColumn::Size => "size",
    }
}

/// Swapping two strings inverts their lexicographic order.
pub proof fn lemma_lex_antisymmetric(a: Seq<char>, b: Seq<char>)
    ensures
        lex_order(b, a) == invert(lex_order(a, b)),
    decreases a.len(),
{
    if a.len() > 0 && b.len() > 0 && (a[0] as u32) == (b[0] as u32) {
        lemma_lex_antisymmetric(a.drop_first(), b.drop_first());
    }
}

/// Lexicographic order is transitive.
pub proof fn lemma_lex_transitive(a: Seq<char>, b: Seq<char>, c: Seq<char>)
    requires
        lex_order(a, b) != Order::Larger,
        lex_order(b, c) != Order::Larger,
    ensures
        lex_order(a, c) != Order::Larger,
    decreases a.len(),
{
    if a.len() > 0 && b.len() > 0 && c.len() > 0 && (a[0] as u32) == (b[0] as u32) && (b[0] as u32) == (c[0] as u32) {
        lemma_lex_transitive(a.drop_first(), b.drop_first(), c.drop_first());
    }
}

/// The `..` row is shown first whichever way and by whatever column the
/// list is sorted.
pub proof fn lemma_parent_row_first(a: RowKey, b: RowKey, column: SortColumn, descending: bool)
    requires
        a.name@ == ".."@,
        b.name@ != ".."@,
    ensures
        shown_order(a, b, column, descending) == Order::Smaller,
        shown_order(b, a, column, descending) == Order::Larger,
{
}

/// Folders are shown before files whichever way and by whatever column the
/// list is sorted.
pub proof fn lemma_folders_first(a: RowKey, b: RowKey, column: SortColumn, descending: bool)
    requires
        a.name@ != ".."@,
        b.name@ != ".."@,
        a.is_dir,
        !b.is_dir,
    ensures
        shown_order(a, b, column, descending) == Order::Smaller,
        shown_order(b, a, column, descending) == Order::Larger,
{
}

/// Comparing two rows the other way round gives the opposite result, so
/// the sorters are consistent orders (two `..` rows are the exception: each
/// claims to come first).
pub proof fn lemma_compare_antisymmetric(a: RowKey, b: RowKey, column: SortColumn, descending: bool)
    requires
        !(a.name@ == ".."@ && b.name@ == ".."@),
    ensures
        compare_rows_spec(b, a, column, descending) == invert(compare_rows_spec(a, b, column, descending)),
{
    lemma_lex_antisymmetric(lowercase(a.name@), lowercase(b.name@));
    lemma_lex_antisymmetric(a.date@, b.date@);
}

/// `a` comes before `b` in dictionary order by character code: at the
/// first position where they differ `a` has the smaller character, or `a`
/// is a proper beginning of `b`.
pub open spec fn text_before(a: Seq<char>, b: Seq<char>) -> bool {
    exists|i: int| 0 <= i <= a.len() && i < b.len() && #[trigger] a.take(i) == b.take(i)
        && (i == a.len() || (a[i] as u32) < (b[i] as u32))
}

/// Lexicographic order means dictionary order: `Smaller` exactly when the
/// first text comes before the second, `Equal` exactly when they are the
/// same text, `Larger` exactly when the second comes before the first.
pub proof fn lemma_lex_order_is_dictionary_order(a: Seq<char>, b: Seq<char>)
    ensures
        (lex_order(a, b) == Order::Smaller) == text_before(a, b),
        (lex_order(a, b) == Order::Equal) == (a == b),
        (lex_order(a, b) == Order::Larger) == text_before(b, a),
    decreases a.len(),
{
    lemma_lex_smaller(a, b);
    lemma_lex_smaller(b, a);
    lemma_lex_antisymmetric(a, b);
    lemma_lex_equal(a, b);
}

/// Characters with the same code are the same character.
proof fn lemma_char_code_injective(c: char, d: char)
    requires
        (c as u32) == (d as u32),
    ensures
        c == d,
{
}

proof fn lemma_lex_equal(a: Seq<char>, b: Seq<char>)
    ensures
        (lex_order(a, b) == Order::Equal) == (a == b),
    decreases a.len(),
{
    if a.len() > 0 && b.len() > 0 && (a[0] as u32) == (b[0] as u32) {
        lemma_lex_equal(a.drop_first(), b.drop_first());
        lemma_char_code_injective(a[0], b[0]);
        if a.drop_first() == b.drop_first() {
            assert(a =~= seq![a[0]] + a.drop_first());
            assert(b =~= seq![b[0]] + b.drop_first());
        }
        if a == b {
            assert(a.drop_first() =~= b.drop_first());
        }
    } else if a.len() > 0 && b.len() > 0 {
        if a == b {
            assert(a[0] == b[0]);
        }
    } else if a.len() == 0 && b.len() == 0 {
        assert(a =~= b);
    }
}

proof fn lemma_lex_smaller(a: Seq<char>, b: Seq<char>)
    ensures
        (lex_order(a, b) == Order::Smaller) == text_before(a, b),
    decreases a.len(),
{
    if a.len() == 0 {
        if b.len() > 0 {
            assert(a.take(0) =~= b.take(0));
            assert(text_before(a, b));
        } else {
            assert forall|i: int| 0 <= i <= a.len() && i < b.len() implies !(#[trigger] a.take(i) == b.take(i)
                && (i == a.len() || (a[i] as u32) < (b[i] as u32))) by {}
        }
    } else if b.len() == 0 {
        assert forall|i: int| 0 <= i <= a.len() && i < b.len() implies !(#[trigger] a.take(i) == b.take(i)
            && (i == a.len() || (a[i] as u32) < (b[i] as u32))) by {}
    } else if (a[0] as u32) < (b[0] as u32) {
        assert(a.take(0) =~= b.take(0));
        assert(text_before(a, b));
    } else if (a[0] as u32) > (b[0] as u32) {
        assert forall|i: int| 0 <= i <= a.len() && i < b.len() implies !(#[trigger] a.take(i) == b.take(i)
            && (i == a.len() || (a[i] as u32) < (b[i] as u32))) by {
            if i > 0 && a.take(i) == b.take(i) {
                assert(a.take(i)[0] == b.take(i)[0]);
            }
        }
    } else {
        let (a1, b1) = (a.drop_first(), b.drop_first());
        lemma_lex_smaller(a1, b1);
        lemma_char_code_injective(a[0], b[0]);
        if text_before(a1, b1) {
            let i = choose|i: int| 0 <= i <= a1.len() && i < b1.len() && #[trigger] a1.take(i) == b1.take(i)
                && (i == a1.len() || (a1[i] as u32) < (b1[i] as u32));
            assert(a.take(i + 1) =~= seq![a[0]] + a1.take(i));
            assert(b.take(i + 1) =~= seq![b[0]] + b1.take(i));
            assert(a.take(i + 1) == b.take(i + 1));
            assert(text_before(a, b));
        }
        if text_before(a, b) {
            let i = choose|i: int| 0 <= i <= a.len() && i < b.len() && #[trigger] a.take(i) == b.take(i)
                && (i == a.len() || (a[i] as u32) < (b[i] as u32));
            assert(i > 0);
            assert(a1.take(i - 1) =~= a.take(i).drop_first());
            assert(b1.take(i - 1) =~= b.take(i).drop_first());
            assert(a1.take(i - 1) == b1.take(i - 1));
            if i < a.len() {
                assert(a1[i - 1] == a[i]);
                assert(b1[i - 1] == b[i]);
            }
            assert(text_before(a1, b1));
        }
    }
}

/// Among rows of one kind (two files or two folders, neither `..`), each
/// column orders by its own field: names in dictionary order of their
/// lowercase forms, dates in dictionary order of their text (so an
/// earlier `YYYY-MM-DD` date comes first), files by size and folders by
/// name. An ascending list shows the smaller first; a descending list the
/// larger.
pub proof fn lemma_columns_order_rows(a: RowKey, b: RowKey, column: SortColumn, descending: bool)
    requires
        a.name@ != ".."@,
        b.name@ != ".."@,
        a.is_dir == b.is_dir,
    ensures
        column == SortColumn::Date ==> {
            &&& (compare_rows_spec(a, b, column, descending) == Order::Smaller) == text_before(a.date@, b.date@)
            &&& (compare_rows_spec(a, b, column, descending) == Order::Equal) == (a.date@ == b.date@)
            &&& (compare_rows_spec(a, b, column, descending) == Order::Larger) == text_before(b.date@, a.date@)
        },
        (column == SortColumn::Name || (column == SortColumn::Size && a.is_dir)) ==> {
            &&& (compare_rows_spec(a, b, column, descending) == Order::Smaller) == text_before(lowercase(a.name@), lowercase(b.name@))
            &&& (compare_rows_spec(a, b, column, descending) == Order::Larger) == text_before(lowercase(b.name@), lowercase(a.name@))
        },
        (column == SortColumn::Size && !a.is_dir) ==> {
            &&& (compare_rows_spec(a, b, column, descending) == Order::Smaller) == (a.size < b.size)
            &&& (compare_rows_spec(a, b, column, descending) == Order::Larger) == (a.size > b.size)
        },
        (shown_order(a, b, column, descending) == Order::Smaller) == (if descending {
            compare_rows_spec(a, b, column, descending) == Order::Larger
        } else {
            compare_rows_spec(a, b, column, descending) == Order::Smaller
        }),
{
    lemma_lex_order_is_dictionary_order(a.date@, b.date@);
    lemma_lex_order_is_dictionary_order(lowercase(a.name@), lowercase(b.name@));
}

} // verus!
