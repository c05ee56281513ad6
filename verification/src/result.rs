//! Rows as a store returns them, and their rendering as comma-separated text.

use crate::text::{join, joined, lemma_bytes_deep_view, lossy, lossy_text};
use vstd::prelude::*;
use vstd::string::*;
use vstd::utf8::*;

verus! {

/// One stored row, column by column, each column read as bytes. A cell is
/// `None` where reading the column failed.
#[derive(Debug, PartialEq, Eq)]
pub struct Row {
    pub cells: Vec<Option<Vec<u8>>>,
}

impl DeepView for Row {
    type V = Seq<Option<Seq<u8>>>;

    open spec fn deep_view(&self) -> Seq<Option<Seq<u8>>> {
        self.cells.deep_view()
    }
}

impl View for Row {
    type V = Seq<Option<Seq<u8>>>;

    open spec fn view(&self) -> Seq<Option<Seq<u8>>> {
        self.cells.deep_view()
    }
}

/// The cells of a row that could be read, in column order.
pub open spec fn present(cells: Seq<Option<Seq<u8>>>) -> Seq<Seq<u8>>
    decreases cells.len(),
{
    if cells.len() == 0 {
        Seq::empty()
    } else {
        match cells.last() {
            Some(bytes) => present(cells.drop_last()).push(bytes),
            None => present(cells.drop_last()),
        }
    }
}

/// The texts of a row: each present cell, decoded lossily.
pub open spec fn row_texts(cells: Seq<Option<Seq<u8>>>) -> Seq<Seq<char>> {
    present(cells).map_values(|bytes: Seq<u8>| lossy_text(bytes))
}

/// A row as one line: its texts joined by commas.
pub open spec fn csv_line(cells: Seq<Option<Seq<u8>>>) -> Seq<char> {
    joined(row_texts(cells), ","@)
}

/// All rows as one text, each line followed by a line feed.
pub open spec fn csv_text(rows: Seq<Seq<Option<Seq<u8>>>>) -> Seq<char>
    decreases rows.len(),
{
    if rows.len() == 0 {
        Seq::empty()
    } else {
        csv_text(rows.drop_last()) + csv_line(rows.last()) + "\n"@
    }
}

/// The values of a row, skipping the columns that could not be read.
pub fn iter_row(row: &Row) -> (values: Vec<Vec<u8>>)
    ensures
        values.deep_view() == present(row@),
{
    let mut values: Vec<Vec<u8>> = Vec::new();
    let mut i: usize = 0;
    assert(row@.take(0) =~= Seq::empty());
    assert(values.deep_view() =~= present(row@.take(0)));
    while i < row.cells.len()
        invariant
            i <= row.cells.len(),
            values.deep_view() == present(row@.take(i as int)),
        decreases row.cells.len() - i,
    {
        let ghost before = values.deep_view();
        assert(row@.take(i + 1).drop_last() =~= row@.take(i as int));
        assert(row@.take(i + 1).last() == row.cells[i as int].deep_view());
        match &row.cells[i] {
            Some(bytes) => {
                let copy = bytes.clone();
                proof {
                    lemma_bytes_deep_view(copy);
                    lemma_bytes_deep_view(*bytes);
                }
                values.push(copy);
                assert(values.deep_view() =~= before.push(bytes@));
            },
            None => {},
        }
        i += 1;
    }
    assert(row@.take(row.cells.len() as int) =~= row@);
    values
}

/// The values of a row as text, decoded lossily. A value that is well-formed
/// UTF-8 becomes exactly the text it encodes.
pub fn row_to_string(row: &Row) -> (texts: Vec<String>)
    ensures
        texts.deep_view() == row_texts(row@),
        forall|k: int|
            0 <= k < texts.len() && valid_utf8(present(row@)[k]) ==> (#[trigger] texts[k])@
                == decode_utf8(present(row@)[k]),
{
    let values = iter_row(row);
    let mut texts: Vec<String> = Vec::new();
    let mut i: usize = 0;
    while i < values.len()
        invariant
            i <= values.len(),
            texts.len() == i,
            forall|k: int| 0 <= k < i ==> (#[trigger] texts[k])@ == lossy_text(values[k]@),
            forall|k: int|
                0 <= k < i && valid_utf8(values[k]@) ==> (#[trigger] texts[k])@ == decode_utf8(
                    values[k]@,
                ),
        decreases values.len() - i,
    {
        let text = lossy(values[i].as_slice());
        texts.push(text);
        i += 1;
    }
    assert forall|k: int| 0 <= k < values.len() implies (#[trigger] values.deep_view()[k])
        == values[k]@ by {
        lemma_bytes_deep_view(values[k]);
    }
    assert(texts.deep_view() =~= values.deep_view().map_values(
        |bytes: Seq<u8>| lossy_text(bytes),
    ));
    texts
}

/// A row as one line of comma-separated text.
pub fn csv(row: &Row) -> (line: String)
    ensures
        line@ == csv_line(row@),
{
    let values = row_to_string(row);
    join(&values, ",")
}

/// The rows that one query returned, in the order the store returned them.
#[derive(Debug)]
pub struct ResultSet {
    rows: Vec<Row>,
}

impl View for ResultSet {
    type V = Seq<Seq<Option<Seq<u8>>>>;

    closed spec fn view(&self) -> Seq<Seq<Option<Seq<u8>>>> {
        self.rows.deep_view()
    }
}

impl ResultSet {
    /// The set of these rows, in this order.
    pub fn new(rows: Vec<Row>) -> (set: ResultSet)
        ensures
            set@ == rows.deep_view(),
    {
        ResultSet { rows }
    }

    /// Every value that the set holds, row by row and column by column.
    pub fn print(&self) -> (values: Vec<Vec<u8>>)
        ensures
            values.deep_view() == self@.map_values(
                |cells: Seq<Option<Seq<u8>>>| present(cells),
            ).flatten(),
    {
        let mut values: Vec<Vec<u8>> = Vec::new();
        let mut i: usize = 0;
        let ghost per_row = self@.map_values(|cells: Seq<Option<Seq<u8>>>| present(cells));
        assert(per_row.take(0) =~= Seq::empty());
        assert(values.deep_view() =~= per_row.take(0).flatten());
        while i < self.rows.len()
            invariant
                i <= self.rows.len(),
                per_row == self@.map_values(|cells: Seq<Option<Seq<u8>>>| present(cells)),
                values.deep_view() == per_row.take(i as int).flatten(),
            decreases self.rows.len() - i,
        {
            let ghost before = values.deep_view();
            let mut found = iter_row(&self.rows[i]);
            let ghost added = found.deep_view();
            assert(added == per_row[i as int]);
            values.append(&mut found);
            assert(values.deep_view() =~= before + added);
            proof {
                assert(per_row.take(i + 1) =~= per_row.take(i as int).push(per_row[i as int]));
                per_row.take(i as int).lemma_flatten_push(per_row[i as int]);
            }
            i += 1;
        }
        assert(per_row.take(self.rows.len() as int) =~= per_row);
        values
    }

    /// The set as one text: a line per row, each ended by a line feed.
    pub fn to_csv(self) -> (text: String)
        ensures
            text@ == csv_text(self@),
    {
        let mut text = String::new();
        let mut i: usize = 0;
        assert(self@.take(0) =~= Seq::empty());
        while i < self.rows.len()
            invariant
                i <= self.rows.len(),
                text@ == csv_text(self@.take(i as int)),
            decreases self.rows.len() - i,
        {
            assert(self@.take(i + 1).drop_last() =~= self@.take(i as int));
            assert(self@.take(i + 1).last() == self.rows[i as int]@);
            let line = csv(&self.rows[i]);
            text.append(line.as_str());
            text.append("\n");
            i += 1;
        }
        assert(self@.take(self.rows.len() as int) =~= self@);
        text
    }

    /// One line per row, in the order of the set.
    pub fn to_csv_rows(&self) -> (lines: Vec<String>)
        ensures
            lines.deep_view() == self@.map_values(
                |cells: Seq<Option<Seq<u8>>>| csv_line(cells),
            ),
    {
        let mut lines: Vec<String> = Vec::new();
        let mut i: usize = 0;
        while i < self.rows.len()
            invariant
                i <= self.rows.len(),
                lines.len() == i,
                forall|k: int| 0 <= k < i ==> (#[trigger] lines[k])@ == csv_line(self.rows[k]@),
            decreases self.rows.len() - i,
        {
            lines.push(csv(&self.rows[i]));
            i += 1;
        }
        assert(lines.deep_view() =~= self@.map_values(
            |cells: Seq<Option<Seq<u8>>>| csv_line(cells),
        ));
        lines
    }
}

} // verus!
