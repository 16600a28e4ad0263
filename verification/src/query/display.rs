//! Values and results as text: the lines of a table.

use vstd::prelude::*;
use crate::query::data::KeyAccess;
use crate::query::error::{QueryError, QueryErrorView};
use crate::query::execute::{
    build_rows, positions, table_spec, table_view, Aggregated, AggregationResult,
};
use crate::query::statements::Aggregation;
use crate::query::value::{lemma_list_view, views_of, Decimal, Value, ValueView};
use crate::text::{
    append_chars, byte_length, chars_of, digit_char, digit_to_char, i128_text, int_text,
    length_in_bytes, nat_text, push_repeated, repeated, string_of, texts_of, u128_text,
};

verus! {

/// The last `places` decimal digits of `n`, with zeros in front where `n`
/// has fewer.
pub open spec fn padded_digits(n: nat, places: nat) -> Seq<char>
    decreases places,
{
    if places == 0 {
        seq![]
    } else {
        padded_digits(n / 10, (places - 1) as nat).push(digit_char((n % 10) as int))
    }
}

/// `s` without the zeros at its end, but for its first character.
pub open spec fn without_trailing_zeros(s: Seq<char>) -> Seq<char>
    decreases s.len(),
{
    if s.len() > 1 && s.last() == '0' {
        without_trailing_zeros(s.drop_last())
    } else {
        s
    }
}

/// A fractional number as text: its whole part, a point, and its decimal
/// places up to the last that is not zero, at least one; `-` in front of a
/// negative number.
pub open spec fn decimal_text(units: int) -> Seq<char> {
    let magnitude = if units < 0 {
        -units
    } else {
        units
    };
    let body = nat_text((magnitude / 1_000_000_000_000_000_000) as nat) + seq!['.']
        + without_trailing_zeros(
        padded_digits((magnitude % 1_000_000_000_000_000_000) as nat, 18),
    );
    if units < 0 {
        seq!['-'] + body
    } else {
        body
    }
}

/// The texts of the first `n` values of `items` with `, ` between each
/// two.
pub open spec fn joined(items: Seq<ValueView>, n: nat) -> Seq<char>
    decreases items, n,
{
    if n == 0 || n > items.len() {
        seq![]
    } else if n == 1 {
        value_text(items[0])
    } else {
        joined(items, (n - 1) as nat) + seq![',', ' '] + value_text(items[n - 1])
    }
}

/// A value as text: a string as it is, a number in decimal writing, a
/// truth value as `true` or `false`, and a list as its items between
/// square brackets.
pub open spec fn value_text(v: ValueView) -> Seq<char>
    decreases v,
{
    match v {
        ValueView::Str(s) => s,
        ValueView::Int(i) => int_text(i as int),
        ValueView::Float(d) => decimal_text(d.units as int),
        ValueView::Bool(b) => if b {
            seq!['t', 'r', 'u', 'e']
        } else {
            seq!['f', 'a', 'l', 's', 'e']
        },
        ValueView::List(items) => seq!['['] + joined(items, items.len()) + seq![']'],
    }
}

fn magnitude_of(units: i128) -> (r: u128)
    ensures
        r == (if units < 0 {
            -units
        } else {
            units as int
        }),
{
    if units == i128::MIN {
        170141183460469231731687303715884105728u128
    } else if units < 0 {
        (-units) as u128
    } else {
        units as u128
    }
}

fn padded(n: u128, places: usize) -> (r: Vec<char>)
    ensures
        r@ == padded_digits(n as nat, places as nat),
        r@.len() == places,
    decreases places,
{
    if places == 0 {
        Vec::new()
    } else {
        let mut out = padded(n / 10, places - 1);
        out.push(digit_to_char((n % 10) as u8));
        out
    }
}

fn strip_zeros(digits: Vec<char>) -> (r: Vec<char>)
    ensures
        r@ == without_trailing_zeros(digits@),
{
    let mut out = digits;
    while out.len() > 1 && out[out.len() - 1] == '0'
        invariant
            without_trailing_zeros(out@) == without_trailing_zeros(digits@),
        decreases out.len(),
    {
        let _ = out.pop();
    }
    out
}

/// A fractional number as text.
pub fn decimal_to_text(d: Decimal) -> (r: Vec<char>)
    ensures
        r@ == decimal_text(d.units as int),
{
    let magnitude = magnitude_of(d.units);
    let mut out: Vec<char> = Vec::new();
    if d.units < 0 {
        out.push('-');
    }
    let whole = u128_text(magnitude / 1_000_000_000_000_000_000);
    append_chars(&mut out, whole.as_slice());
    out.push('.');
    let places = strip_zeros(padded(magnitude % 1_000_000_000_000_000_000, 18));
    append_chars(&mut out, places.as_slice());
    proof {
        assert(out@ =~= decimal_text(d.units as int));
    }
    out
}

impl Value {
    /// The value as text.
    pub fn to_text(&self) -> (r: Vec<char>)
        ensures
            r@ == value_text(self@),
        decreases self,
    {
        match self {
            Value::Str(s) => chars_of(s.as_str()),
            Value::Int(i) => i128_text(*i as i128),
            Value::Float(d) => decimal_to_text(*d),
            Value::Bool(b) => {
                let mut out: Vec<char> = Vec::new();
                if *b {
                    out.push('t');
                    out.push('r');
                    out.push('u');
                    out.push('e');
                } else {
                    out.push('f');
                    out.push('a');
                    out.push('l');
                    out.push('s');
                    out.push('e');
                }
                assert(out@ =~= value_text(self@));
                out
            },
            Value::List(items) => {
                let mut out: Vec<char> = Vec::new();
                out.push('[');
                let mut i: usize = 0;
                let ghost views = views_of(items@);
                proof {
                    lemma_list_view(*items);
                    assert(out@ =~= seq!['['] + joined(views, 0));
                }
                while i < items.len()
                    invariant
                        i <= items.len(),
                        *self == Value::List(*items),
                        views == views_of(items@),
                        self@ == ValueView::List(views),
                        out@ == seq!['['] + joined(views, i as nat),
                    decreases items.len() - i,
                {
                    proof {
                        assert(views[i as int] == items@[i as int]@);
                        assert(self->List_0 == *items);
                        assert(decreases_to!(*self => self->List_0[i as int]));
                    }
                    if i > 0 {
                        out.push(',');
                        out.push(' ');
                    }
                    let text = items[i].to_text();
                    append_chars(&mut out, text.as_slice());
                    proof {
                        if i > 0 {
                            assert(out@ =~= seq!['['] + (joined(views, i as nat) + seq![',', ' ']
                                + value_text(views[i as int])));
                        } else {
                            assert(out@ =~= seq!['['] + value_text(views[0]));
                        }
                    }
                    i += 1;
                }
                out.push(']');
                out
            },
        }
    }
}

/// The width of column `column` of a table: the greatest length in bytes
/// among its heading and the texts of its cells in the first `rows` rows.
pub open spec fn column_width(
    headings: Seq<Seq<char>>,
    table: Seq<Seq<ValueView>>,
    column: int,
    rows: nat,
) -> usize
    decreases rows,
{
    if rows == 0 {
        byte_length(headings[column])
    } else {
        let before = column_width(headings, table, column, (rows - 1) as nat);
        let here = byte_length(value_text(table[rows - 1][column]));
        if here > before {
            here
        } else {
            before
        }
    }
}

/// `text` in the middle of a field that is `width` characters wide: blanks
/// on both sides, one more on the right where they do not divide evenly. A
/// text that is as long as the field or longer stands as it is.
pub open spec fn centred(text: Seq<char>, width: int) -> Seq<char> {
    if text.len() >= width {
        text
    } else {
        let left = (width - text.len()) / 2;
        let right = width - text.len() - left;
        repeated(' ', left as nat) + text + repeated(' ', right as nat)
    }
}

fn centre(out: &mut Vec<char>, text: &[char], width: usize)
    ensures
        final(out)@ == old(out)@ + centred(text@, width as int),
{
    if text.len() >= width {
        append_chars(out, text);
    } else {
        let left = (width - text.len()) / 2;
        let right = width - text.len() - left;
        push_repeated(out, ' ', left);
        append_chars(out, text);
        push_repeated(out, ' ', right);
        assert(out@ =~= old(out)@ + centred(text@, width as int));
    }
}

/// The fields of a line of a table in the first `columns` columns, each
/// behind a `|`.
pub open spec fn line_fields(
    texts: Seq<Seq<char>>,
    headings: Seq<Seq<char>>,
    table: Seq<Seq<ValueView>>,
    columns: nat,
) -> Seq<char>
    decreases columns,
{
    if columns == 0 {
        seq![]
    } else {
        line_fields(texts, headings, table, (columns - 1) as nat) + seq!['|'] + centred(
            texts[columns - 1],
            column_width(headings, table, columns - 1, table.len()) as int,
        )
    }
}

/// A line of a table: the fields of all columns and a `|` at the end.
pub open spec fn table_line(
    texts: Seq<Seq<char>>,
    headings: Seq<Seq<char>>,
    table: Seq<Seq<ValueView>>,
) -> Seq<char> {
    line_fields(texts, headings, table, headings.len()) + seq!['|']
}

/// The rule under the headings in the first `columns` columns: dashes as
/// wide as each column, each run behind a `|`.
pub open spec fn rule_fields(headings: Seq<Seq<char>>, table: Seq<Seq<ValueView>>, columns: nat)
    -> Seq<char>
    decreases columns,
{
    if columns == 0 {
        seq![]
    } else {
        rule_fields(headings, table, (columns - 1) as nat) + seq!['|'] + repeated(
            '-',
            column_width(headings, table, columns - 1, table.len()) as nat,
        )
    }
}

/// The texts of the values of a row.
pub open spec fn row_texts(row: Seq<ValueView>) -> Seq<Seq<char>> {
    Seq::new(row.len(), |i: int| value_text(row[i]))
}

/// The lines of a table: the headings, a rule, and one line for each row.
/// Every column is as wide as the longest of its texts.
pub open spec fn table_lines(headings: Seq<Seq<char>>, table: Seq<Seq<ValueView>>) -> Seq<
    Seq<char>,
> {
    Seq::new(
        table.len() + 2,
        |i: int|
            if i == 0 {
                table_line(headings, headings, table)
            } else if i == 1 {
                rule_fields(headings, table, headings.len()) + seq!['|']
            } else {
                table_line(row_texts(table[i - 2]), headings, table)
            },
    )
}

/// Whether every row of a table has one value for each heading.
pub open spec fn rectangular(headings: Seq<Seq<char>>, table: Seq<Seq<ValueView>>) -> bool {
    forall|i: int| 0 <= i < table.len() ==> (#[trigger] table[i]).len() == headings.len()
}

/// Whether the rows `rows` can be set as a table under the headings
/// `headings`: every row has one value for each heading, and the number of
/// the lines fits.
pub fn check_table(headings: &Vec<String>, rows: &Vec<Vec<Value>>) -> (r: bool)
    ensures
        r == (rectangular(texts_of(headings@), table_view(rows@)) && rows@.len() + 2
            <= usize::MAX),
{
    if rows.len() > usize::MAX - 2 {
        return false;
    }
    let mut i: usize = 0;
    while i < rows.len()
        invariant
            i <= rows@.len(),
            forall|j: int|
                0 <= j < i ==> (#[trigger] table_view(rows@)[j]).len() == texts_of(headings@).len(),
        decreases rows.len() - i,
    {
        assert(table_view(rows@)[i as int] == views_of(rows@[i as int]@));
        if rows[i].len() != headings.len() {
            return false;
        }
        i += 1;
    }
    true
}

fn widths_of(headings: &Vec<String>, rows: &Vec<Vec<Value>>) -> (r: Vec<usize>)
    requires
        rectangular(texts_of(headings@), table_view(rows@)),
    ensures
        r@.len() == headings@.len(),
        forall|c: int|
            0 <= c < r@.len() ==> #[trigger] r@[c] == column_width(
                texts_of(headings@),
                table_view(rows@),
                c,
                rows@.len(),
            ),
{
    let ghost heads = texts_of(headings@);
    let ghost table = table_view(rows@);
    let mut widths: Vec<usize> = Vec::new();
    let mut c: usize = 0;
    while c < headings.len()
        invariant
            c <= headings.len(),
            heads == texts_of(headings@),
            table == table_view(rows@),
            rectangular(heads, table),
            widths@.len() == c,
            forall|k: int|
                0 <= k < c ==> #[trigger] widths@[k] == column_width(heads, table, k, rows@.len()),
        decreases headings.len() - c,
    {
        let mut width = length_in_bytes(headings[c].as_str());
        let mut i: usize = 0;
        assert(heads[c as int] == headings@[c as int]@);
        while i < rows.len()
            invariant
                i <= rows.len(),
                c < headings.len(),
                heads == texts_of(headings@),
                table == table_view(rows@),
                rectangular(heads, table),
                width == column_width(heads, table, c as int, i as nat),
            decreases rows.len() - i,
        {
            assert(table[i as int] == views_of(rows@[i as int]@));
            assert(table[i as int].len() == heads.len());
            let text = rows[i][c].to_text();
            let line = string_of(text.as_slice());
            let length = length_in_bytes(line.as_str());
            assert(views_of(rows@[i as int]@)[c as int] == rows@[i as int]@[c as int]@);
            if length > width {
                width = length;
            }
            i += 1;
        }
        widths.push(width);
        c += 1;
    }
    widths
}

fn format_line(texts: &Vec<Vec<char>>, widths: &Vec<usize>, Ghost(heads): Ghost<Seq<Seq<char>>>, Ghost(
    table,
): Ghost<Seq<Seq<ValueView>>>) -> (r: String)
    requires
        texts@.len() == heads.len(),
        widths@.len() == heads.len(),
        forall|c: int|
            0 <= c < widths@.len() ==> #[trigger] widths@[c] == column_width(
                heads,
                table,
                c,
                table.len(),
            ),
    ensures
        r@ == table_line(Seq::new(texts@.len(), |i: int| texts@[i]@), heads, table),
{
    let ghost all = Seq::new(texts@.len(), |i: int| texts@[i]@);
    let mut out: Vec<char> = Vec::new();
    let mut c: usize = 0;
    while c < texts.len()
        invariant
            c <= texts.len(),
            texts@.len() == heads.len(),
            widths@.len() == heads.len(),
            all == Seq::new(texts@.len(), |i: int| texts@[i]@),
            forall|k: int|
                0 <= k < widths@.len() ==> #[trigger] widths@[k] == column_width(
                    heads,
                    table,
                    k,
                    table.len(),
                ),
            out@ == line_fields(all, heads, table, c as nat),
        decreases texts.len() - c,
    {
        out.push('|');
        centre(&mut out, texts[c].as_slice(), widths[c]);
        proof {
            assert(all[c as int] == texts@[c as int]@);
            assert(out@ =~= line_fields(all, heads, table, (c + 1) as nat));
        }
        c += 1;
    }
    out.push('|');
    string_of(out.as_slice())
}

fn format_rule(widths: &Vec<usize>, Ghost(heads): Ghost<Seq<Seq<char>>>, Ghost(table): Ghost<
    Seq<Seq<ValueView>>,
>) -> (r: String)
    requires
        widths@.len() == heads.len(),
        forall|c: int|
            0 <= c < widths@.len() ==> #[trigger] widths@[c] == column_width(
                heads,
                table,
                c,
                table.len(),
            ),
    ensures
        r@ == rule_fields(heads, table, heads.len()) + seq!['|'],
{
    let mut out: Vec<char> = Vec::new();
    let mut c: usize = 0;
    while c < widths.len()
        invariant
            c <= widths.len(),
            widths@.len() == heads.len(),
            forall|k: int|
                0 <= k < widths@.len() ==> #[trigger] widths@[k] == column_width(
                    heads,
                    table,
                    k,
                    table.len(),
                ),
            out@ == rule_fields(heads, table, c as nat),
        decreases widths.len() - c,
    {
        out.push('|');
        push_repeated(&mut out, '-', widths[c]);
        proof {
            assert(out@ =~= rule_fields(heads, table, (c + 1) as nat));
        }
        c += 1;
    }
    out.push('|');
    string_of(out.as_slice())
}

fn texts_in(row: &Vec<Value>) -> (r: Vec<Vec<char>>)
    ensures
        Seq::new(r@.len(), |i: int| r@[i]@) == row_texts(views_of(row@)),
{
    let mut out: Vec<Vec<char>> = Vec::new();
    let mut i: usize = 0;
    while i < row.len()
        invariant
            i <= row.len(),
            out@.len() == i,
            forall|k: int| 0 <= k < i ==> (#[trigger] out@[k])@ == value_text(row@[k]@),
        decreases row.len() - i,
    {
        out.push(row[i].to_text());
        i += 1;
    }
    assert(Seq::new(out@.len(), |i: int| out@[i]@) =~= row_texts(views_of(row@)));
    out
}

fn heading_texts(headings: &Vec<String>) -> (r: Vec<Vec<char>>)
    ensures
        Seq::new(r@.len(), |i: int| r@[i]@) == texts_of(headings@),
{
    let mut out: Vec<Vec<char>> = Vec::new();
    let mut i: usize = 0;
    while i < headings.len()
        invariant
            i <= headings.len(),
            out@.len() == i,
            forall|k: int| 0 <= k < i ==> (#[trigger] out@[k])@ == headings@[k]@,
        decreases headings.len() - i,
    {
        out.push(chars_of(headings[i].as_str()));
        i += 1;
    }
    assert(Seq::new(out@.len(), |i: int| out@[i]@) =~= texts_of(headings@));
    out
}

/// The lines of the table with the headings `headings` and the rows
/// `rows`.
pub fn format_table(headings: &Vec<String>, rows: &Vec<Vec<Value>>) -> (r: Vec<String>)
    requires
        rectangular(texts_of(headings@), table_view(rows@)),
        rows@.len() + 2 <= usize::MAX,
    ensures
        texts_of(r@) == table_lines(texts_of(headings@), table_view(rows@)),
{
    let ghost heads = texts_of(headings@);
    let ghost table = table_view(rows@);
    let widths = widths_of(headings, rows);
    let mut lines: Vec<String> = Vec::new();
    let head = heading_texts(headings);
    lines.push(format_line(&head, &widths, Ghost(heads), Ghost(table)));
    lines.push(format_rule(&widths, Ghost(heads), Ghost(table)));
    let mut i: usize = 0;
    while i < rows.len()
        invariant
            i <= rows.len(),
            heads == texts_of(headings@),
            table == table_view(rows@),
            rectangular(heads, table),
            widths@.len() == heads.len(),
            forall|c: int|
                0 <= c < widths@.len() ==> #[trigger] widths@[c] == column_width(
                    heads,
                    table,
                    c,
                    table.len(),
                ),
            lines@.len() == i + 2,
            forall|k: int|
                0 <= k < i + 2 ==> (#[trigger] lines@[k])@ == table_lines(heads, table)[k],
        decreases rows.len() - i,
    {
        let texts = texts_in(&rows[i]);
        proof {
            assert(table[i as int] == views_of(rows@[i as int]@));
            assert(table[i as int].len() == heads.len());
            assert(Seq::new(texts@.len(), |k: int| texts@[k]@).len() == texts@.len());
        }
        lines.push(format_line(&texts, &widths, Ghost(heads), Ghost(table)));
        i += 1;
    }
    assert(texts_of(lines@) =~= table_lines(heads, table));
    lines
}

/// What a result with lines holds, as mathematics sees it.
pub open spec fn lines_outcome(r: Result<Vec<String>, QueryError>) -> Result<
    Seq<Seq<char>>,
    QueryErrorView,
> {
    match r {
        Ok(lines) => Ok(texts_of(lines@)),
        Err(e) => Err(e@),
    }
}

/// Every position of `n` rows, in order.
pub open spec fn all_positions(n: nat) -> Seq<int> {
    Seq::new(n, |i: int| i)
}

/// The lines of the table of the attributes `attributes` of the records
/// `data`, or the error of the first record that lacks one of them.
pub open spec fn build_table_spec<T: KeyAccess>(data: Seq<T>, attributes: Seq<Seq<char>>) -> Result<
    Seq<Seq<char>>,
    QueryErrorView,
> {
    match table_spec(data, all_positions(data.len()), attributes) {
        Err(e) => Err(e),
        Ok(table) => Ok(table_lines(attributes, table)),
    }
}

/// A projected row has one value for each target.
pub proof fn lemma_project_length<T: KeyAccess>(row: &T, targets: Seq<Seq<char>>)
    requires
        crate::query::execute::project_spec(row, targets) is Ok,
    ensures
        crate::query::execute::project_spec(row, targets)->Ok_0.len() == targets.len(),
    decreases targets.len(),
{
    if targets.len() > 0 {
        lemma_project_length(row, targets.drop_last());
    }
}

/// A table has one row for each position, and each row has one value for
/// each target.
pub proof fn lemma_table_shape<T: KeyAccess>(rows: Seq<T>, kept: Seq<int>, targets: Seq<Seq<char>>)
    requires
        table_spec(rows, kept, targets) is Ok,
    ensures
        table_spec(rows, kept, targets)->Ok_0.len() == kept.len(),
        rectangular(targets, table_spec(rows, kept, targets)->Ok_0),
    decreases kept.len(),
{
    if kept.len() > 0 {
        lemma_table_shape(rows, kept.drop_last(), targets);
        lemma_project_length(&rows[kept.last()], targets);
    }
}

/// The lines of the table of the attributes `attributes` of the records
/// `data`.
pub fn build_table<T: KeyAccess>(data: &Vec<T>, attributes: &Vec<String>) -> (r: Result<
    Vec<String>,
    QueryError,
>)
    requires
        data@.len() + 2 <= usize::MAX,
    ensures
        lines_outcome(r) == build_table_spec(data@, texts_of(attributes@)),
{
    let mut all: Vec<usize> = Vec::new();
    let mut i: usize = 0;
    while i < data.len()
        invariant
            i <= data.len(),
            all@.len() == i,
            forall|k: int| 0 <= k < i ==> #[trigger] all@[k] == k,
        decreases data.len() - i,
    {
        all.push(i);
        i += 1;
    }
    assert(positions(all@) =~= all_positions(data@.len()));
    match build_rows(data, &all, attributes) {
        Ok(rows) => {
            proof {
                lemma_table_shape(data@, positions(all@), texts_of(attributes@));
            }
            Ok(format_table(attributes, &rows))
        },
        Err(e) => Err(e),
    }
}

/// A fractional number as text with two decimal places, rounded to the
/// nearest hundredth and away from zero where it lies in the middle.
pub open spec fn fixed_text(units: int) -> Seq<char> {
    let magnitude = if units < 0 {
        -units
    } else {
        units
    };
    let hundredths = (magnitude + 5_000_000_000_000_000) / 10_000_000_000_000_000;
    let body = nat_text((hundredths / 100) as nat) + seq!['.'] + padded_digits(
        (hundredths % 100) as nat,
        2,
    );
    if units < 0 {
        seq!['-'] + body
    } else {
        body
    }
}

/// The result of an aggregation as text.
pub open spec fn result_text(result: AggregationResult) -> Seq<char> {
    match result {
        AggregationResult::Int(n) => nat_text(n as nat),
        AggregationResult::Float(d) => fixed_text(d.units as int),
    }
}

/// The heading of an aggregated target.
pub open spec fn aggregation_heading(aggregation: Aggregation, name: Seq<char>) -> Seq<char> {
    match aggregation {
        Aggregation::Count => "COUNT("@ + name + ")"@,
        Aggregation::Average => "AVERAGE("@ + name + ")"@,
        Aggregation::Plain => name,
    }
}

/// `text` at the left of a field that is `width` characters wide.
pub open spec fn left_aligned(text: Seq<char>, width: int) -> Seq<char> {
    if text.len() >= width {
        text
    } else {
        text + repeated(' ', (width - text.len()) as nat)
    }
}

/// The width of the column of an aggregated target: the greater of the
/// lengths in bytes of its heading and of its result.
pub open spec fn aggregate_width(aggregation: Aggregation, target: (Seq<char>, AggregationResult))
    -> usize {
    let head = byte_length(aggregation_heading(aggregation, target.0));
    let info = byte_length(result_text(target.1));
    if info > head {
        info
    } else {
        head
    }
}

/// The three lines of the first `n` results of an aggregation, each
/// without the `|` at its end: the headings, a rule, and the results.
pub open spec fn aggregate_fields(
    aggregation: Aggregation,
    results: Seq<(Seq<char>, AggregationResult)>,
    n: nat,
) -> (Seq<char>, Seq<char>, Seq<char>)
    decreases n,
{
    if n == 0 || n > results.len() {
        (seq![], seq![], seq![])
    } else {
        let before = aggregate_fields(aggregation, results, (n - 1) as nat);
        let width = aggregate_width(aggregation, results[n - 1]);
        (
            before.0 + seq!['|'] + left_aligned(
                aggregation_heading(aggregation, results[n - 1].0),
                width as int,
            ),
            before.1 + seq!['|'] + repeated('-', width as nat),
            before.2 + seq!['|'] + left_aligned(result_text(results[n - 1].1), width as int),
        )
    }
}

/// The lines of the table of an aggregation: the headings, a rule, and the
/// results, each column as wide as the longer of its two texts.
pub open spec fn aggregation_lines(
    aggregation: Aggregation,
    results: Seq<(Seq<char>, AggregationResult)>,
) -> Seq<Seq<char>> {
    let fields = aggregate_fields(aggregation, results, results.len());
    seq![fields.0 + seq!['|'], fields.1 + seq!['|'], fields.2 + seq!['|']]
}

fn fixed(units: i128) -> (r: Vec<char>)
    ensures
        r@ == fixed_text(units as int),
{
    let magnitude = magnitude_of(units);
    let hundredths = (magnitude + 5_000_000_000_000_000) / 10_000_000_000_000_000;
    let mut out: Vec<char> = Vec::new();
    if units < 0 {
        out.push('-');
    }
    let whole = u128_text(hundredths / 100);
    append_chars(&mut out, whole.as_slice());
    out.push('.');
    let places = padded(hundredths % 100, 2);
    append_chars(&mut out, places.as_slice());
    assert(out@ =~= fixed_text(units as int));
    out
}

fn result_chars(result: AggregationResult) -> (r: Vec<char>)
    ensures
        r@ == result_text(result),
{
    match result {
        AggregationResult::Int(n) => u128_text(n as u128),
        AggregationResult::Float(d) => fixed(d.units),
    }
}

fn heading_chars(aggregation: Aggregation, name: &str) -> (r: Vec<char>)
    ensures
        r@ == aggregation_heading(aggregation, name@),
{
    let mut out: Vec<char> = Vec::new();
    let text = chars_of(name);
    match aggregation {
        Aggregation::Count => {
            let open = chars_of("COUNT(");
            let close = chars_of(")");
            append_chars(&mut out, open.as_slice());
            append_chars(&mut out, text.as_slice());
            append_chars(&mut out, close.as_slice());
        },
        Aggregation::Average => {
            let open = chars_of("AVERAGE(");
            let close = chars_of(")");
            append_chars(&mut out, open.as_slice());
            append_chars(&mut out, text.as_slice());
            append_chars(&mut out, close.as_slice());
        },
        Aggregation::Plain => {
            append_chars(&mut out, text.as_slice());
        },
    }
    assert(out@ =~= aggregation_heading(aggregation, name@));
    out
}

fn align_left(out: &mut Vec<char>, text: &[char], width: usize)
    ensures
        final(out)@ == old(out)@ + left_aligned(text@, width as int),
{
    append_chars(out, text);
    if text.len() < width {
        push_repeated(out, ' ', width - text.len());
    }
    assert(out@ =~= old(out)@ + left_aligned(text@, width as int));
}

/// The lines of the table of the results `results` of the aggregation
/// `aggregation`.
pub fn aggregation_table(aggregation: Aggregation, results: &Vec<Aggregated>) -> (r: Vec<String>)
    ensures
        texts_of(r@) == aggregation_lines(
            aggregation,
            crate::query::execute::aggregate_view(results@),
        ),
{
    let ghost views = crate::query::execute::aggregate_view(results@);
    let mut heads: Vec<char> = Vec::new();
    let mut rule: Vec<char> = Vec::new();
    let mut infos: Vec<char> = Vec::new();
    let mut i: usize = 0;
    while i < results.len()
        invariant
            i <= results.len(),
            views == crate::query::execute::aggregate_view(results@),
            (heads@, rule@, infos@) == aggregate_fields(aggregation, views, i as nat),
        decreases results.len() - i,
    {
        assert(views[i as int] == (results@[i as int].target@, results@[i as int].result));
        let head = heading_chars(aggregation, results[i].target.as_str());
        let info = result_chars(results[i].result);
        let head_text = string_of(head.as_slice());
        let info_text = string_of(info.as_slice());
        let head_length = length_in_bytes(head_text.as_str());
        let info_length = length_in_bytes(info_text.as_str());
        let width = if info_length > head_length {
            info_length
        } else {
            head_length
        };
        heads.push('|');
        align_left(&mut heads, head.as_slice(), width);
        rule.push('|');
        push_repeated(&mut rule, '-', width);
        infos.push('|');
        align_left(&mut infos, info.as_slice(), width);
        proof {
            let before = aggregate_fields(aggregation, views, i as nat);
            let after = aggregate_fields(aggregation, views, (i + 1) as nat);
            assert(heads@ =~= after.0);
            assert(rule@ =~= after.1);
            assert(infos@ =~= after.2);
        }
        i += 1;
    }
    let ghost fields = aggregate_fields(aggregation, views, views.len());
    assert(views.len() == results@.len());
    heads.push('|');
    rule.push('|');
    infos.push('|');
    assert(heads@ =~= fields.0 + seq!['|']);
    assert(rule@ =~= fields.1 + seq!['|']);
    assert(infos@ =~= fields.2 + seq!['|']);
    let mut lines: Vec<String> = Vec::new();
    lines.push(string_of(heads.as_slice()));
    lines.push(string_of(rule.as_slice()));
    lines.push(string_of(infos.as_slice()));
    assert(texts_of(lines@) =~= aggregation_lines(aggregation, views));
    lines
}

} // verus!
