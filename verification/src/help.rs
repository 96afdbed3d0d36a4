//! The help text: a usage line and a table of the declared parameters.
use vstd::prelude::*;
use vstd::string::{StrSliceExecFns, StringExecFns};
use vstd::utf8::encode_utf8;
use crate::parameter::{texts, Parameter, ParameterView};
use crate::scan::views;

verus! {

/// `parts`, one after the other, with `separator` between each two.
pub open spec fn joined(parts: Seq<Seq<char>>, separator: Seq<char>) -> Seq<char>
    decreases parts.len(),
{
    if parts.len() == 0 {
        Seq::empty()
    } else if parts.len() == 1 {
        parts[0]
    } else {
        joined(parts.drop_last(), separator) + separator + parts.last()
    }
}

/// How many bytes `text` takes, encoded as UTF-8.
pub open spec fn byte_length(text: Seq<char>) -> nat {
    encode_utf8(text).len()
}

/// `count` spaces.
pub open spec fn spaces(count: nat) -> Seq<char> {
    Seq::new(count, |i: int| ' ')
}

/// `text`, followed by as many spaces as it has characters fewer than
/// `width`.
pub open spec fn padded(text: Seq<char>, width: nat) -> Seq<char> {
    if text.len() >= width {
        text
    } else {
        text + spaces((width - text.len()) as nat)
    }
}

/// The head row of the table.
pub open spec fn header_row() -> Seq<Seq<char>> {
    seq!["arg"@, "IsCanEmpty"@, "DefaultValue"@, "Description"@]
}

/// The row of a parameter: its aliases with commas between them, whether
/// it may be empty, its default value, and its description.
pub open spec fn parameter_row(parameter: ParameterView) -> Seq<Seq<char>> {
    seq![
        joined(parameter.aliases, ","@),
        if parameter.allow_empty {
            "true"@
        } else {
            "false"@
        },
        parameter.default_value.help_text(),
        parameter.description,
    ]
}

/// The rows of the table: the head row, then one row for each parameter,
/// by slot.
pub open spec fn help_rows(parameters: Seq<ParameterView>) -> Seq<Seq<Seq<char>>> {
    seq![header_row()] + parameters.map_values(|p: ParameterView| parameter_row(p))
}

/// The width of a column: the largest byte length among its cells.
pub open spec fn column_width(rows: Seq<Seq<Seq<char>>>, column: int) -> nat
    decreases rows.len(),
{
    if rows.len() == 0 {
        0
    } else {
        let earlier = column_width(rows.drop_last(), column);
        let own = byte_length(rows.last()[column]);
        if own > earlier {
            own
        } else {
            earlier
        }
    }
}

/// A cell as it stands in a line: behind a tab, padded to `width`.
pub open spec fn cell_text(text: Seq<char>, width: nat) -> Seq<char> {
    "\t"@ + padded(text, width)
}

/// The line of one row: each of its four cells behind a tab and padded to
/// the width of its column, then a line feed.
pub open spec fn row_line(row: Seq<Seq<char>>, rows: Seq<Seq<Seq<char>>>) -> Seq<char> {
    cell_text(row[0], column_width(rows, 0)) + cell_text(row[1], column_width(rows, 1))
        + cell_text(row[2], column_width(rows, 2)) + cell_text(row[3], column_width(rows, 3))
        + "\n"@
}

/// The lines of the first `count` rows.
pub open spec fn row_lines(rows: Seq<Seq<Seq<char>>>, count: nat) -> Seq<char>
    decreases count,
{
    if count == 0 {
        Seq::empty()
    } else {
        row_lines(rows, (count - 1) as nat) + row_line(rows[count - 1], rows)
    }
}

/// What stands above the table: how the program is called.
pub open spec fn usage(program: Seq<char>) -> Seq<char> {
    "USAGE \r\n\t"@ + program + " [OPTIONS]\r\n\nOPTIONS\n"@
}

/// The help text for `parameters`, for the program at `program`.
pub open spec fn help_text(program: Seq<char>, parameters: Seq<ParameterView>) -> Seq<char> {
    usage(program) + row_lines(help_rows(parameters), help_rows(parameters).len())
}

/// The cells that a table of strings holds, row by row.
pub open spec fn table_view(rows: Seq<Vec<String>>) -> Seq<Seq<Seq<char>>> {
    rows.map_values(|row: Vec<String>| texts(row@))
}

/// A padded text has `width` characters, or as many as the text where the
/// text has more, and begins with the text.
pub proof fn lemma_padded_length(text: Seq<char>, width: nat)
    ensures
        padded(text, width).len() == if text.len() >= width {
            text.len()
        } else {
            width
        },
        text.is_prefix_of(padded(text, width)),
        forall|k: int| text.len() <= k < padded(text, width).len() ==> padded(text, width)[k] == ' ',
{
}

/// Every cell of a column is at most as wide as the column, and a column
/// with a cell is as wide as one of its cells.
pub proof fn lemma_column_width_is_largest(rows: Seq<Seq<Seq<char>>>, column: int)
    ensures
        forall|r: int|
            0 <= r < rows.len() ==> byte_length((#[trigger] rows[r])[column]) <= column_width(
                rows,
                column,
            ),
        rows.len() > 0 ==> exists|r: int|
            0 <= r < rows.len() && byte_length((#[trigger] rows[r])[column]) == column_width(
                rows,
                column,
            ),
    decreases rows.len(),
{
    if rows.len() > 0 {
        let front = rows.drop_last();
        lemma_column_width_is_largest(front, column);
        assert forall|r: int| 0 <= r < rows.len() implies byte_length(
            (#[trigger] rows[r])[column],
        ) <= column_width(rows, column) by {
            if r < front.len() {
                assert(front[r] == rows[r]);
            }
        }
        if front.len() > 0 && byte_length(rows.last()[column]) <= column_width(front, column) {
            let r = choose|r: int|
                0 <= r < front.len() && byte_length((#[trigger] front[r])[column]) == column_width(
                    front,
                    column,
                );
            assert(rows[r] == front[r]);
        } else {
            assert(byte_length(rows[rows.len() - 1][column]) == column_width(rows, column));
        }
    }
}

/// Joins `parts` with `separator` between each two.
pub fn join_texts(parts: &Vec<String>, separator: &str) -> (text: String)
    ensures
        text@ == joined(texts(parts@), separator@),
{
    let mut text = String::new();
    let mut i: usize = 0;
    while i < parts.len()
        invariant
            i <= parts.len(),
            text@ == joined(texts(parts@).subrange(0, i as int), separator@),
        decreases parts.len() - i,
    {
        let ghost before = texts(parts@).subrange(0, i as int);
        let ghost after = texts(parts@).subrange(0, i + 1);
        assert(after.drop_last() =~= before);
        if i > 0 {
            text.append(separator);
        }
        text.append(parts[i].as_str());
        i += 1;
    }
    assert(texts(parts@).subrange(0, parts.len() as int) =~= texts(parts@));
    text
}

/// Pads `text` with spaces at its end until it has `width` characters.
pub fn pad_text(text: &str, width: usize) -> (result: String)
    ensures
        result@ == padded(text@, width as nat),
{
    let mut result = String::from_str(text);
    let mut count = text.unicode_len();
    proof {
        reveal_strlit(" ");
    }
    while count < width
        invariant
            count >= text@.len(),
            count <= width || count == text@.len(),
            result@ == text@ + spaces((count - text@.len()) as nat),
            " "@ == seq![' '],
        decreases width - count,
    {
        result.append(" ");
        count += 1;
    }
    result
}

/// The head row of the table.
fn header_cells() -> (row: Vec<String>)
    ensures
        texts(row@) == header_row(),
{
    let mut row: Vec<String> = Vec::new();
    row.push(String::from_str("arg"));
    row.push(String::from_str("IsCanEmpty"));
    row.push(String::from_str("DefaultValue"));
    row.push(String::from_str("Description"));
    row
}

/// The row of `parameter`.
fn parameter_cells(parameter: &Parameter) -> (row: Vec<String>)
    ensures
        texts(row@) == parameter_row(parameter@),
{
    let mut row: Vec<String> = Vec::new();
    row.push(join_texts(parameter.aliases(), ","));
    row.push(
        if parameter.allow_empty() {
            String::from_str("true")
        } else {
            String::from_str("false")
        },
    );
    row.push(parameter.default_value().to_help_string());
    row.push(String::from_str(parameter.description()));
    row
}

/// The rows of the table for `parameters`.
fn help_table(parameters: &Vec<Parameter>) -> (rows: Vec<Vec<String>>)
    ensures
        table_view(rows@) == help_rows(views(parameters@)),
{
    let mut rows: Vec<Vec<String>> = Vec::new();
    rows.push(header_cells());
    let mut i: usize = 0;
    while i < parameters.len()
        invariant
            i <= parameters.len(),
            table_view(rows@) == help_rows(views(parameters@).subrange(0, i as int)),
        decreases parameters.len() - i,
    {
        let ghost before = table_view(rows@);
        let row = parameter_cells(&parameters[i]);
        rows.push(row);
        assert(table_view(rows@) =~= before.push(parameter_row(parameters@[i as int]@)));
        i += 1;
    }
    rows
}

/// The width of column `column` of `rows`.
fn measure_column(rows: &Vec<Vec<String>>, column: usize) -> (width: usize)
    requires
        forall|r: int| 0 <= r < rows.len() ==> column < (#[trigger] rows[r]).len(),
    ensures
        width == column_width(table_view(rows@), column as int),
{
    let mut width: usize = 0;
    let mut r: usize = 0;
    while r < rows.len()
        invariant
            r <= rows.len(),
            forall|k: int| 0 <= k < rows.len() ==> column < (#[trigger] rows[k]).len(),
            width == column_width(table_view(rows@).subrange(0, r as int), column as int),
        decreases rows.len() - r,
    {
        let ghost seen = table_view(rows@).subrange(0, r as int);
        let ghost next = table_view(rows@).subrange(0, r + 1);
        assert(next.drop_last() =~= seen);
        let length = rows[r][column].as_str().as_bytes().len();
        if length > width {
            width = length;
        }
        r += 1;
    }
    assert(table_view(rows@).subrange(0, rows.len() as int) =~= table_view(rows@));
    width
}

/// Writes a cell behind `line`: a tab, then `text` padded to `width`.
fn append_cell(line: &mut String, text: &str, width: usize)
    ensures
        final(line)@ == old(line)@ + cell_text(text@, width as nat),
{
    let cell = pad_text(text, width);
    line.append("\t");
    line.append(cell.as_str());
}

/// The line of `row` in a table whose columns have the widths `widths`.
fn render_row(row: &Vec<String>, widths: (usize, usize, usize, usize)) -> (line: String)
    requires
        row.len() == 4,
    ensures
        line@ == cell_text(row@[0]@, widths.0 as nat) + cell_text(row@[1]@, widths.1 as nat)
            + cell_text(row@[2]@, widths.2 as nat) + cell_text(row@[3]@, widths.3 as nat) + "\n"@,
{
    let mut line = String::new();
    append_cell(&mut line, row[0].as_str(), widths.0);
    append_cell(&mut line, row[1].as_str(), widths.1);
    append_cell(&mut line, row[2].as_str(), widths.2);
    append_cell(&mut line, row[3].as_str(), widths.3);
    line.append("\n");
    line
}

/// Every row of the table has four cells.
pub proof fn lemma_rows_have_four_cells(parameters: Seq<ParameterView>, r: int)
    requires
        0 <= r < help_rows(parameters).len(),
    ensures
        help_rows(parameters).len() == parameters.len() + 1,
        help_rows(parameters)[r].len() == 4,
{
    let listed = parameters.map_values(|p: ParameterView| parameter_row(p));
    assert(help_rows(parameters) == seq![header_row()] + listed);
    if r > 0 {
        assert(help_rows(parameters)[r] == listed[r - 1]);
    }
}

/// The help text for `parameters`, for the program at `program`: the
/// usage line, then the table, each column as wide as its widest cell.
pub(crate) fn render_help(parameters: &Vec<Parameter>, program: &str) -> (text: String)
    ensures
        text@ == help_text(program@, views(parameters@)),
{
    let rows = help_table(parameters);
    let ghost table = table_view(rows@);
    assert forall|r: int| 0 <= r < rows.len() implies (#[trigger] rows[r]).len() == 4 by {
        lemma_rows_have_four_cells(views(parameters@), r);
    }
    let widths = (
        measure_column(&rows, 0),
        measure_column(&rows, 1),
        measure_column(&rows, 2),
        measure_column(&rows, 3),
    );
    let mut text = String::from_str("USAGE \r\n\t");
    text.append(program);
    text.append(" [OPTIONS]\r\n\nOPTIONS\n");
    let mut r: usize = 0;
    while r < rows.len()
        invariant
            r <= rows.len(),
            table == table_view(rows@),
            forall|k: int| 0 <= k < rows.len() ==> (#[trigger] rows[k]).len() == 4,
            widths.0 == column_width(table, 0),
            widths.1 == column_width(table, 1),
            widths.2 == column_width(table, 2),
            widths.3 == column_width(table, 3),
            text@ == usage(program@) + row_lines(table, r as nat),
        decreases rows.len() - r,
    {
        let line = render_row(&rows[r], widths);
        proof {
            let row = table[r as int];
            assert(row == texts(rows@[r as int]@));
            assert(line@ == row_line(row, table));
        }
        text.append(line.as_str());
        r += 1;
    }
    text
}

} // verus!
