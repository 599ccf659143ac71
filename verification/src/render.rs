//! The table: the lines that show the records.

use vstd::prelude::*;
use vstd::string::*;
use vstd::utf8::encode_utf8;

use crate::order::{arrange, arranged};
use crate::record::{records_view, AggregateRecord, RecordView};

verus! {

/// The character that shows the digit `d`.
pub open spec fn digit(d: nat) -> char {
    if d == 0 {
        '0'
    } else if d == 1 {
        '1'
    } else if d == 2 {
        '2'
    } else if d == 3 {
        '3'
    } else if d == 4 {
        '4'
    } else if d == 5 {
        '5'
    } else if d == 6 {
        '6'
    } else if d == 7 {
        '7'
    } else if d == 8 {
        '8'
    } else {
        '9'
    }
}

/// The number `n` in decimal digits, without leading zeros.
pub open spec fn decimal(n: nat) -> Seq<char>
    decreases n,
{
    if n < 10 {
        seq![digit(n)]
    } else {
        decimal(n / 10).push(digit(n % 10))
    }
}

/// `count` times the character `c`.
pub open spec fn repeated(c: char, count: nat) -> Seq<char> {
    Seq::new(count, |i: int| c)
}

/// `text` filled up with spaces on the right to `width` characters; a
/// longer text stays as it is.
pub open spec fn padded(text: Seq<char>, width: nat) -> Seq<char> {
    if text.len() < width {
        text + repeated(' ', (width - text.len()) as nat)
    } else {
        text
    }
}

/// The length of a text in bytes, which is what the widths of the
/// columns are measured in.
pub open spec fn byte_len(text: Seq<char>) -> nat {
    encode_utf8(text).len()
}

/// The width of the name column over the first `upto` records: the
/// length of the longest name.
pub open spec fn name_width(records: Seq<RecordView>, upto: nat) -> nat
    decreases upto,
{
    if upto == 0 || upto > records.len() {
        0
    } else {
        let before = name_width(records, (upto - 1) as nat);
        let here = byte_len(records[upto - 1].name);
        if here > before {
            here
        } else {
            before
        }
    }
}

/// The width of the time column over the first `upto` records: the
/// length of the longest time text.
pub open spec fn time_width(records: Seq<RecordView>, upto: nat) -> nat
    decreases upto,
{
    if upto == 0 || upto > records.len() {
        0
    } else {
        let before = time_width(records, (upto - 1) as nat);
        let here = byte_len(records[upto - 1].modified);
        if here > before {
            here
        } else {
            before
        }
    }
}

/// The header of the table.
pub open spec fn header(names: nat, times: nat) -> Seq<char> {
    padded("File"@, names) + " - "@ + padded("Last Modified"@, times) + " - "@ + "Size"@
}

/// The rule under the header: as wide as the two columns and thirteen
/// characters more.
pub open spec fn rule(names: nat, times: nat) -> Seq<char> {
    repeated('=', names + times + 13)
}

/// The row of one record with its time.
pub open spec fn row(r: RecordView, names: nat, times: nat) -> Seq<char> {
    padded(r.name, names) + " - "@ + padded(r.modified, times) + " - "@ + decimal(r.total_size)
}

/// The row of one record without its time.
pub open spec fn clean_row(r: RecordView, names: nat) -> Seq<char> {
    padded(r.name, names) + " - "@ + decimal(r.total_size)
}

/// The lines of the table for `rows` in the order given, with columns of
/// the widths given: a header, a rule and one row for each record; or,
/// where `clean` is set, only the rows, without the times.
pub open spec fn layout(rows: Seq<RecordView>, names: nat, times: nat, clean: bool) -> Seq<
    Seq<char>,
> {
    if clean {
        rows.map_values(|r: RecordView| clean_row(r, names))
    } else {
        seq![header(names, times), rule(names, times)] + rows.map_values(
            |r: RecordView| row(r, names, times),
        )
    }
}

/// The lines that show `records`: the records arranged by size, laid out
/// in columns as wide as the longest name and the longest time text.
pub open spec fn rendered(records: Seq<RecordView>, clean: bool, reverse: bool) -> Seq<Seq<char>> {
    layout(
        arranged(records, reverse),
        name_width(records, records.len()),
        time_width(records, records.len()),
        clean,
    )
}

/// The contents of a list of lines, in order.
pub open spec fn lines_view(lines: Seq<String>) -> Seq<Seq<char>> {
    lines.map_values(|line: String| line@)
}

/// The text of one decimal digit.
fn digit_text(d: u64) -> (text: &'static str)
    requires
        d < 10,
    ensures
        text@ == seq![digit(d as nat)],
{
    proof {
        reveal_strlit("0");
        reveal_strlit("1");
        reveal_strlit("2");
        reveal_strlit("3");
        reveal_strlit("4");
        reveal_strlit("5");
        reveal_strlit("6");
        reveal_strlit("7");
        reveal_strlit("8");
        reveal_strlit("9");
    }
    if d == 0 {
        "0"
    } else if d == 1 {
        "1"
    } else if d == 2 {
        "2"
    } else if d == 3 {
        "3"
    } else if d == 4 {
        "4"
    } else if d == 5 {
        "5"
    } else if d == 6 {
        "6"
    } else if d == 7 {
        "7"
    } else if d == 8 {
        "8"
    } else {
        "9"
    }
}

/// Writes `n` in decimal at the end of `line`.
fn write_decimal(line: &mut String, n: u64)
    ensures
        final(line)@ == old(line)@ + decimal(n as nat),
    decreases n,
{
    if n >= 10 {
        write_decimal(line, n / 10);
    }
    line.append(digit_text(n % 10));
}

/// Writes `count` times the one character of `unit` at the end of `line`.
fn write_repeated(line: &mut String, unit: &str, count: usize)
    requires
        unit@.len() == 1,
    ensures
        final(line)@ == old(line)@ + repeated(unit@[0], count as nat),
{
    let mut done: usize = 0;
    while done < count
        invariant
            done <= count,
            unit@.len() == 1,
            line@ == old(line)@ + repeated(unit@[0], done as nat),
        decreases count - done,
    {
        line.append(unit);
        done += 1;
    }
}

/// Writes `text` at the end of `line`, filled up with spaces to `width`
/// characters.
fn write_padded(line: &mut String, text: &str, width: usize)
    ensures
        final(line)@ == old(line)@ + padded(text@, width as nat),
{
    line.append(text);
    let shown = text.unicode_len();
    if shown < width {
        proof {
            reveal_strlit(" ");
        }
        write_repeated(line, " ", width - shown);
    }
}

/// The length of `text` in bytes.
fn byte_length(text: &String) -> (len: usize)
    ensures
        len as nat == byte_len(text@),
{
    text.as_str().as_bytes().len()
}

/// Measures the two columns: the longest name and the longest time text.
pub fn column_widths(records: &Vec<AggregateRecord>) -> (widths: (usize, usize))
    ensures
        widths.0 as nat == name_width(records_view(records@), records@.len()),
        widths.1 as nat == time_width(records_view(records@), records@.len()),
{
    let ghost rv = records_view(records@);
    let mut names: usize = 0;
    let mut times: usize = 0;
    let mut i: usize = 0;
    while i < records.len()
        invariant
            rv == records_view(records@),
            i <= records.len(),
            names as nat == name_width(rv, i as nat),
            times as nat == time_width(rv, i as nat),
        decreases records.len() - i,
    {
        let n = byte_length(&records[i].name);
        let t = byte_length(&records[i].modified);
        if n > names {
            names = n;
        }
        if t > times {
            times = t;
        }
        i += 1;
    }
    (names, times)
}

/// Writes the header of the table.
fn header_line(names: usize, times: usize) -> (line: String)
    ensures
        line@ == header(names as nat, times as nat),
{
    let mut line = String::new();
    write_padded(&mut line, "File", names);
    line.append(" - ");
    write_padded(&mut line, "Last Modified", times);
    line.append(" - ");
    line.append("Size");
    line
}

/// Writes the rule under the header.
fn rule_line(names: usize, times: usize) -> (line: String)
    ensures
        line@ == rule(names as nat, times as nat),
{
    proof {
        reveal_strlit("=");
    }
    let mut line = String::new();
    write_repeated(&mut line, "=", names);
    write_repeated(&mut line, "=", times);
    write_repeated(&mut line, "=", 13);
    line
}

/// Writes the row of one record, with its time unless `clean` is set.
fn row_line(r: &AggregateRecord, names: usize, times: usize, clean: bool) -> (line: String)
    ensures
        clean ==> line@ == clean_row(r@, names as nat),
        !clean ==> line@ == row(r@, names as nat, times as nat),
{
    let mut line = String::new();
    write_padded(&mut line, r.name.as_str(), names);
    line.append(" - ");
    if !clean {
        write_padded(&mut line, r.modified.as_str(), times);
        line.append(" - ");
    }
    write_decimal(&mut line, r.total_size);
    line
}

/// Lays out the lines of the table for `rows` in the order given.
pub fn lay_out(rows: &Vec<AggregateRecord>, names: usize, times: usize, clean: bool) -> (lines: Vec<
    String,
>)
    ensures
        lines_view(lines@) == layout(records_view(rows@), names as nat, times as nat, clean),
{
    let ghost rv = records_view(rows@);
    let mut lines: Vec<String> = Vec::new();
    if !clean {
        lines.push(header_line(names, times));
        lines.push(rule_line(names, times));
    }
    let ghost top = lines_view(lines@);
    let mut i: usize = 0;
    while i < rows.len()
        invariant
            rv == records_view(rows@),
            i <= rows.len(),
            clean ==> top == Seq::<Seq<char>>::empty(),
            !clean ==> top == seq![
                header(names as nat, times as nat),
                rule(names as nat, times as nat),
            ],
            clean ==> lines_view(lines@) == top + rv.take(i as int).map_values(
                |r: RecordView| clean_row(r, names as nat),
            ),
            !clean ==> lines_view(lines@) == top + rv.take(i as int).map_values(
                |r: RecordView| row(r, names as nat, times as nat),
            ),
        decreases rows.len() - i,
    {
        let line = row_line(&rows[i], names, times, clean);
        let ghost shown = lines@;
        lines.push(line);
        i += 1;
        assert(lines_view(shown.push(line)) =~= lines_view(shown).push(line@));
    }
    lines
}

/// Renders the table of `records`: arranges them by size, largest first
/// unless `reverse` is set, and lays them out in columns as wide as the
/// longest name and the longest time text; `clean` leaves out the header,
/// the rule and the times.
pub fn render(records: Vec<AggregateRecord>, clean: bool, reverse: bool) -> (lines: Vec<String>)
    ensures
        lines_view(lines@) == rendered(records_view(records@), clean, reverse),
        clean ==> lines@.len() == records@.len(),
        !clean ==> lines@.len() == records@.len() + 2,
{
    let (names, times) = column_widths(&records);
    let rows = arrange(records, reverse);
    let lines = lay_out(&rows, names, times, clean);
    assert(lines_view(lines@).len() == lines@.len());
    lines
}

} // verus!
