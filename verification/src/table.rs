//! Tables of text: rows in order, columns under one another.

use vstd::prelude::*;
use vstd::relations::{sorted_by, total_ordering};
use vstd::seq_lib::lemma_sorted_unique;
use crate::text::{append_repeated, byte_len, lemma_encode_concat, repeated, to_chars};

verus! {

/// The characters of a row of three columns.
pub type RowView = (Seq<char>, Seq<char>, Seq<char>);

/// A row of three columns.
#[derive(Debug)]
pub struct Row {
    pub first: String,
    pub second: String,
    pub third: String,
}

impl View for Row {
    type V = RowView;

    open spec fn view(&self) -> RowView {
        (self.first@, self.second@, self.third@)
    }
}

impl Clone for Row {
    fn clone(&self) -> (r: Self)
        ensures
            r == *self,
    {
        Row { first: self.first.clone(), second: self.second.clone(), third: self.third.clone() }
    }
}

/// The characters of rows.
pub open spec fn row_views(rows: Seq<Row>) -> Seq<RowView> {
    rows.map_values(|row: Row| row@)
}

/// Whether a text comes before another in the order of their characters, or is the same.
pub open spec fn text_le(a: Seq<char>, b: Seq<char>) -> bool
    decreases a.len(),
{
    if a.len() == 0 {
        true
    } else if b.len() == 0 {
        false
    } else if a[0] != b[0] {
        a[0] < b[0]
    } else {
        text_le(a.skip(1), b.skip(1))
    }
}

/// Whether a row comes before another, by its first column, then its second, then its
/// third, or is the same.
pub open spec fn row_le(a: RowView, b: RowView) -> bool {
    if a.0 != b.0 {
        text_le(a.0, b.0)
    } else if a.1 != b.1 {
        text_le(a.1, b.1)
    } else {
        text_le(a.2, b.2)
    }
}

/// The order of rows.
pub open spec fn row_order() -> spec_fn(RowView, RowView) -> bool {
    |a: RowView, b: RowView| row_le(a, b)
}

proof fn lemma_text_le_reflexive(a: Seq<char>)
    ensures
        text_le(a, a),
    decreases a.len(),
{
    if a.len() > 0 {
        lemma_text_le_reflexive(a.skip(1));
    }
}

proof fn lemma_text_le_total(a: Seq<char>, b: Seq<char>)
    ensures
        text_le(a, b) || text_le(b, a),
        text_le(a, b) && text_le(b, a) ==> a == b,
    decreases a.len(),
{
    if a.len() > 0 && b.len() > 0 {
        lemma_text_le_total(a.skip(1), b.skip(1));
        if a[0] == b[0] && a.skip(1) == b.skip(1) {
            assert(a == seq![a[0]] + a.skip(1));
            assert(b == seq![b[0]] + b.skip(1));
        }
    } else if a.len() == 0 && b.len() == 0 {
        assert(a == b);
    }
}

proof fn lemma_text_le_transitive(a: Seq<char>, b: Seq<char>, c: Seq<char>)
    requires
        text_le(a, b),
        text_le(b, c),
    ensures
        text_le(a, c),
    decreases a.len(),
{
    if a.len() > 0 && b.len() > 0 && c.len() > 0 && a[0] == b[0] && b[0] == c[0] {
        lemma_text_le_transitive(a.skip(1), b.skip(1), c.skip(1));
    }
}

/// The order of rows is total: of any two rows one comes first, and rows that come
/// before each other are the same.
pub proof fn law_row_order_total()
    ensures
        total_ordering(row_order()),
{
    let le = row_order();
    assert forall|x: RowView| #[trigger] le(x, x) by {
        lemma_text_le_reflexive(x.2);
    }
    assert forall|x: RowView, y: RowView| #[trigger] le(x, y) && #[trigger] le(y, x) implies x == y by {
        lemma_text_le_total(x.0, y.0);
        lemma_text_le_total(x.1, y.1);
        lemma_text_le_total(x.2, y.2);
    }
    assert forall|x: RowView, y: RowView, z: RowView| #[trigger]
        le(x, y) && #[trigger] le(y, z) implies le(x, z) by {
        lemma_text_le_total(x.0, y.0);
        lemma_text_le_total(y.0, z.0);
        lemma_text_le_total(x.1, y.1);
        lemma_text_le_total(y.1, z.1);
        if text_le(x.0, y.0) && text_le(y.0, z.0) {
            lemma_text_le_transitive(x.0, y.0, z.0);
        }
        if text_le(x.1, y.1) && text_le(y.1, z.1) {
            lemma_text_le_transitive(x.1, y.1, z.1);
        }
        if text_le(x.2, y.2) && text_le(y.2, z.2) {
            lemma_text_le_transitive(x.2, y.2, z.2);
        }
    }
    assert forall|x: RowView, y: RowView| #[trigger] le(x, y) || #[trigger] le(y, x) by {
        lemma_text_le_total(x.0, y.0);
        lemma_text_le_total(x.1, y.1);
        lemma_text_le_total(x.2, y.2);
    }
}

/// Compares two texts by the order of their characters: whether they are the same, and
/// whether the first comes before the second or is the same.
fn compare(a: &str, b: &str) -> (r: (bool, bool))
    ensures
        r.0 == (a@ == b@),
        r.1 == text_le(a@, b@),
{
    let v = to_chars(a);
    let w = to_chars(b);
    let mut i: usize = 0;
    assert(v@.skip(0) == v@ && w@.skip(0) == w@);
    while i < v.len() && i < w.len()
        invariant
            i <= v.len(),
            i <= w.len(),
            v@ == a@,
            w@ == b@,
            forall|k: int| 0 <= k < i ==> v@[k] == w@[k],
            text_le(v@.skip(i as int), w@.skip(i as int)) == text_le(a@, b@),
        decreases v.len() - i,
    {
        if v[i] != w[i] {
            return (false, v[i] < w[i]);
        }
        assert(v@.skip(i as int).skip(1) == v@.skip(i + 1));
        assert(w@.skip(i as int).skip(1) == w@.skip(i + 1));
        i += 1;
    }
    proof {
        if v@.len() == w@.len() {
            assert(v@ == w@);
        }
    }
    (v.len() == w.len(), i == v.len())
}

/// Whether a row comes before another or is the same.
fn row_before(a: &Row, b: &Row) -> (r: bool)
    ensures
        r == row_le(a@, b@),
{
    let (same, before) = compare(a.first.as_str(), b.first.as_str());
    if !same {
        return before;
    }
    let (same, before) = compare(a.second.as_str(), b.second.as_str());
    if !same {
        return before;
    }
    compare(a.third.as_str(), b.third.as_str()).1
}

/// The rows in order.
pub fn sort_rows(rows: &Vec<Row>) -> (out: Vec<Row>)
    ensures
        row_views(out@) == row_views(rows@).sort_by(row_order()),
{
    let ghost le = row_order();
    let ghost all = row_views(rows@);
    proof {
        law_row_order_total();
    }
    let mut out: Vec<Row> = Vec::new();
    let mut i: usize = 0;
    assert(row_views(out@) == all.take(0));
    while i < rows.len()
        invariant
            i <= rows.len(),
            le == row_order(),
            total_ordering(le),
            all == row_views(rows@),
            out@.len() == i,
            sorted_by(row_views(out@), le),
            row_views(out@).to_multiset() == all.take(i as int).to_multiset(),
        decreases rows.len() - i,
    {
        let row = rows[i].clone();
        let mut p: usize = 0;
        while p < out.len() && !row_before(&row, &out[p])
            invariant
                p <= out.len(),
                le == row_order(),
                total_ordering(le),
                sorted_by(row_views(out@), le),
                forall|k: int| 0 <= k < p ==> le(#[trigger] row_views(out@)[k], row@),
            decreases out.len() - p,
        {
            assert(row_views(out@)[p as int] == out@[p as int]@);
            assert(le(row@, out@[p as int]@) || le(out@[p as int]@, row@));
            p += 1;
        }
        let ghost before = row_views(out@);
        proof {
            assert(row_views(out@.insert(p as int, row)) == before.insert(p as int, row@));
            assert forall|k: int| p <= k < before.len() implies le(row@, #[trigger] before[k]) by {
                assert(before[p as int] == out@[p as int]@);
                assert(le(row@, before[p as int]));
                if k > p {
                    assert(le(before[p as int], before[k]));
                }
            }
            let after = before.insert(p as int, row@);
            assert forall|a: int, b: int| 0 <= a < b < after.len() implies #[trigger] le(
                after[a],
                after[b],
            ) by {
                if a < p && b < p {
                    assert(le(before[a], before[b]));
                } else if a < p && b == p {
                    assert(le(before[a], row@));
                } else if a < p {
                    assert(le(before[a], before[b - 1]));
                } else if a == p {
                    assert(le(row@, before[b - 1]));
                } else {
                    assert(le(before[a - 1], before[b - 1]));
                }
            }
            assert(all.take(i + 1) == all.take(i as int).push(row@));
            vstd::seq_lib::to_multiset_insert(before, p as int, row@);
            vstd::seq_lib::to_multiset_build(all.take(i as int), row@);
        }
        out.insert(p, row);
        i += 1;
    }
    proof {
        assert(all.take(i as int) == all);
        all.lemma_sort_by_ensures(le);
        lemma_sorted_unique(row_views(out@), all.sort_by(le), le);
    }
    out
}

/// The length of a text in bytes.
pub open spec fn width(s: Seq<char>) -> nat {
    vstd::utf8::encode_utf8(s).len()
}

/// The greatest width of the texts of a column.
pub open spec fn widest(column: Seq<Seq<char>>) -> nat
    decreases column.len(),
{
    if column.len() == 0 {
        0
    } else if width(column.last()) > widest(column.drop_last()) {
        width(column.last())
    } else {
        widest(column.drop_last())
    }
}

/// A text in a column of a width, filled with spaces up to the width and two more.
pub open spec fn cell(s: Seq<char>, column_width: nat) -> Seq<char> {
    s + repeated(seq![' '], (column_width - width(s)) as nat) + repeated(seq![' '], 2)
}

/// No text of a column is wider than the column.
pub proof fn lemma_widest(column: Seq<Seq<char>>, i: int)
    requires
        0 <= i < column.len(),
    ensures
        width(column[i]) <= widest(column),
    decreases column.len(),
{
    if i < column.len() - 1 {
        lemma_widest(column.drop_last(), i);
    }
}

/// Appends a text and fills its column up with spaces.
pub fn append_cell(s: &mut String, text: &str, column_width: usize)
    requires
        width(text@) <= column_width,
    ensures
        final(s)@ == old(s)@ + cell(text@, column_width as nat),
{
    let fill: usize = column_width - byte_len(text);
    s.append(text);
    proof {
        reveal_strlit(" ");
        assert(" "@ == seq![' ']);
    }
    append_repeated(s, " ", fill as u128);
    append_repeated(s, " ", 2);
    assert(s@ == old(s)@ + cell(text@, column_width as nat));
}

/// Spaces are one byte wide.
proof fn lemma_spaces_width(n: nat)
    ensures
        width(repeated(seq![' '], n)) == n,
    decreases n,
{
    if n > 0 {
        let m = (n - 1) as nat;
        lemma_spaces_width(m);
        lemma_encode_concat(repeated(seq![' '], m), seq![' ']);
        assert(vstd::utf8::is_ascii_chars(seq![' ']));
        vstd::utf8::is_ascii_chars_encode_utf8(seq![' ']);
    }
}

/// All cells of a column are equally wide: as wide as the column and two bytes more.
pub proof fn law_cells_align(s: Seq<char>, column_width: nat)
    requires
        width(s) <= column_width,
    ensures
        width(cell(s, column_width)) == column_width + 2,
{
    let fill = (column_width - width(s)) as nat;
    lemma_spaces_width(fill);
    lemma_spaces_width(2);
    lemma_encode_concat(s, repeated(seq![' '], fill));
    lemma_encode_concat(s + repeated(seq![' '], fill), repeated(seq![' '], 2));
}

/// Texts are ordered by the first character in which they differ; a text comes before
/// every text that begins with it.
pub proof fn law_text_order(
    head: Seq<char>,
    x: char,
    y: char,
    behind_x: Seq<char>,
    behind_y: Seq<char>,
)
    ensures
        x != y ==> (text_le(head + seq![x] + behind_x, head + seq![y] + behind_y) <==> x < y),
        text_le(head, head + behind_y),
        !text_le(head + seq![x] + behind_x, head),
    decreases head.len(),
{
    if head.len() > 0 {
        law_text_order(head.skip(1), x, y, behind_x, behind_y);
        assert((head + seq![x] + behind_x).skip(1) == head.skip(1) + seq![x] + behind_x);
        assert((head + seq![y] + behind_y).skip(1) == head.skip(1) + seq![y] + behind_y);
        assert((head + behind_y).skip(1) == head.skip(1) + behind_y);
    } else {
        assert((head + seq![x] + behind_x)[0] == x);
        assert((head + seq![y] + behind_y)[0] == y);
    }
}

/// Rows are ordered by their first columns, rows with equal first columns by the second,
/// and those with both equal by the third.
pub proof fn law_row_order_columns(a: RowView, b: RowView)
    ensures
        a.0 != b.0 ==> (row_order()(a, b) <==> text_le(a.0, b.0)),
        a.0 == b.0 && a.1 != b.1 ==> (row_order()(a, b) <==> text_le(a.1, b.1)),
        a.0 == b.0 && a.1 == b.1 ==> (row_order()(a, b) <==> text_le(a.2, b.2)),
{
}

/// A column is as wide as its widest text in bytes, and an empty column has no width.
pub proof fn law_widest(column: Seq<Seq<char>>)
    ensures
        forall|i: int|
            0 <= i < column.len() ==> vstd::utf8::encode_utf8(#[trigger] column[i]).len()
                <= widest(column),
        column.len() == 0 ==> widest(column) == 0,
        column.len() > 0 ==> exists|i: int|
            0 <= i < column.len() && vstd::utf8::encode_utf8(#[trigger] column[i]).len() == widest(
                column,
            ),
    decreases column.len(),
{
    assert forall|i: int| 0 <= i < column.len() implies vstd::utf8::encode_utf8(
        #[trigger] column[i],
    ).len() <= widest(column) by {
        lemma_widest(column, i);
    }
    if column.len() > 0 {
        let rest = column.drop_last();
        law_widest(rest);
        if width(column.last()) > widest(rest) {
            assert(width(column[column.len() - 1]) == widest(column));
        } else if rest.len() > 0 {
            let i = choose|i: int|
                0 <= i < rest.len() && vstd::utf8::encode_utf8(#[trigger] rest[i]).len() == widest(
                    rest,
                );
            assert(column[i] == rest[i]);
        } else {
            assert(width(column[column.len() - 1]) == widest(column));
        }
    }
}

/// A cell begins with its text, and only spaces follow it.
pub proof fn law_cell_is_filled(s: Seq<char>, column_width: nat)
    requires
        vstd::utf8::encode_utf8(s).len() <= column_width,
    ensures
        s.is_prefix_of(cell(s, column_width)),
        forall|i: int|
            s.len() <= i < cell(s, column_width).len() ==> #[trigger] cell(s, column_width)[i]
                == ' ',
        cell(s, column_width).len() == s.len() + (column_width - vstd::utf8::encode_utf8(s).len())
            + 2,
{
    let fill = (column_width - width(s)) as nat;
    lemma_spaces(fill);
    lemma_spaces(2);
}

/// Copies of a space are spaces.
proof fn lemma_spaces(n: nat)
    ensures
        repeated(seq![' '], n).len() == n,
        forall|i: int| 0 <= i < n ==> #[trigger] repeated(seq![' '], n)[i] == ' ',
    decreases n,
{
    if n > 0 {
        lemma_spaces((n - 1) as nat);
    }
}

}
