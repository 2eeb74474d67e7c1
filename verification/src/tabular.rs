//! Rows of tab-separated text.

use crate::seqs::{lemma_views_push, views};
use crate::text::push_char;
use vstd::prelude::*;

verus! {

/// The pieces that the separator cuts a text into. There is always at
/// least one piece; a text that ends in the separator ends in an empty
/// piece.
pub open spec fn split(text: Seq<char>, separator: char) -> Seq<Seq<char>>
    decreases text.len(),
{
    if text.len() == 0 {
        seq![Seq::empty()]
    } else {
        let before = split(text.drop_last(), separator);
        if text.last() == separator {
            before.push(Seq::empty())
        } else {
            before.drop_last().push(before.last().push(text.last()))
        }
    }
}

/// The text that pieces make when the separator is put between them.
pub open spec fn join(pieces: Seq<Seq<char>>, separator: char) -> Seq<char>
    decreases pieces.len(),
{
    if pieces.len() == 0 {
        Seq::empty()
    } else if pieces.len() == 1 {
        pieces[0]
    } else {
        join(pieces.drop_last(), separator) + seq![separator] + pieces.last()
    }
}

/// Cutting loses nothing and cuts everywhere: there is at least one
/// piece, no piece holds the separator, and the pieces with the separator
/// between them are the text again.
pub proof fn lemma_split_join(text: Seq<char>, separator: char)
    ensures
        split(text, separator).len() >= 1,
        forall|k: int|
            0 <= k < split(text, separator).len() ==> !(#[trigger] split(text, separator)[k]).contains(
                separator,
            ),
        join(split(text, separator), separator) == text,
    decreases text.len(),
{
    let pieces = split(text, separator);
    if text.len() == 0 {
        assert(join(pieces, separator) =~= text);
        assert(!pieces[0].contains(separator));
    } else {
        let shorter = text.drop_last();
        let before = split(shorter, separator);
        let c = text.last();
        lemma_split_join(shorter, separator);
        assert(shorter.push(c) =~= text);
        if c == separator {
            assert(pieces.drop_last() =~= before);
            assert(join(pieces, separator) =~= text);
            assert forall|k: int| 0 <= k < pieces.len() implies !(#[trigger] pieces[k]).contains(
                separator,
            ) by {
                if k < before.len() {
                    assert(pieces[k] == before[k]);
                }
            }
        } else {
            let grown = before.last().push(c);
            assert(pieces.drop_last() =~= before.drop_last());
            assert(pieces.last() == grown);
            if before.len() == 1 {
                assert(join(pieces, separator) =~= text);
            } else {
                assert(join(pieces, separator) =~= join(before, separator).push(c));
            }
            assert forall|k: int| 0 <= k < pieces.len() implies !(#[trigger] pieces[k]).contains(
                separator,
            ) by {
                if k < before.len() - 1 {
                    assert(pieces[k] == before[k]);
                } else {
                    assert(!before[before.len() - 1].contains(separator));
                    if grown.contains(separator) {
                        let at = choose|at: int| 0 <= at < grown.len() && grown[at] == separator;
                        assert(before.last()[at] == separator);
                    }
                }
            }
        }
    }
}

/// The test for characters other than the carriage return.
pub open spec fn printable() -> spec_fn(char) -> bool {
    |c: char| c != '\r'
}

/// The lines of a text: what the line feeds cut it into, once the
/// carriage returns are dropped.
pub open spec fn lines(text: Seq<char>) -> Seq<Seq<char>> {
    split(text.filter(printable()), '\n')
}

/// Cuts a text into its lines.
pub fn split_lines(text: &str) -> (result: Vec<String>)
    ensures
        views(result@) == lines(text@),
{
    broadcast use vstd::string::group_string_axioms;

    let mut result: Vec<String> = Vec::new();
    let mut current = String::new();
    assert(text@.take(0) =~= Seq::empty());
    assert(text@.take(0).filter(printable()) =~= Seq::empty());
    assert(views(result@).push(current@) =~= lines(text@.take(0)));
    for c in it: text.chars()
        invariant
            it.seq() == text@,
            views(result@).push(current@) == lines(text@.take(it.index() as int)),
    {
        proof {
            let sofar = text@.take(it.index() as int);
            text@.lemma_take_succ_push(it.index() as int);
            sofar.lemma_filter_push(c, printable());
            let kept = sofar.filter(printable());
            if c != '\r' {
                assert(kept.push(c).drop_last() =~= kept);
            }
            lemma_views_push(result@, current);
        }
        if c == '\n' {
            result.push(current);
            current = String::new();
        } else if c != '\r' {
            push_char(&mut current, c);
            assert(views(result@).push(current@) =~= lines(text@.take(it.index() + 1)));
        }
    }
    assert(text@.take(text@.len() as int) =~= text@);
    proof {
        lemma_views_push(result@, current);
    }
    result.push(current);
    result
}

/// Cuts a line into its columns.
pub fn split_columns(line: &str) -> (columns: Vec<String>)
    ensures
        views(columns@) == split(line@, '\t'),
{
    broadcast use vstd::string::group_string_axioms;

    let mut columns: Vec<String> = Vec::new();
    let mut current = String::new();
    assert(views(columns@).push(current@) =~= split(line@.take(0), '\t'));
    for c in it: line.chars()
        invariant
            it.seq() == line@,
            views(columns@).push(current@) == split(line@.take(it.index() as int), '\t'),
    {
        proof {
            let sofar = line@.take(it.index() as int);
            let next = line@.take(it.index() + 1);
            assert(next.drop_last() =~= sofar);
            assert(next.last() == c);
            lemma_views_push(columns@, current);
        }
        if c == '\t' {
            columns.push(current);
            current = String::new();
        } else {
            push_char(&mut current, c);
            assert(views(columns@).push(current@) =~= split(line@.take(it.index() + 1), '\t'));
        }
    }
    assert(line@.take(line@.len() as int) =~= line@);
    proof {
        lemma_views_push(columns@, current);
    }
    columns.push(current);
    columns
}


/// The value of a decimal digit.
pub open spec fn digit_value(c: char) -> Option<nat> {
    if '0' <= c <= '9' {
        Some((c as nat - '0' as nat) as nat)
    } else {
        None
    }
}

/// The number that a run of decimal digits denotes. The empty run denotes
/// zero; a run with anything but digits in it denotes nothing.
pub open spec fn digits_value(digits: Seq<char>) -> Option<nat>
    decreases digits.len(),
{
    if digits.len() == 0 {
        Some(0)
    } else {
        match (digits_value(digits.drop_last()), digit_value(digits.last())) {
            (Some(value), Some(digit)) => Some(value * 10 + digit),
            _ => None,
        }
    }
}

/// The digits of a number's notation: the text without its plus sign, if
/// it has one.
pub open spec fn unsigned_part(text: Seq<char>) -> Seq<char> {
    if text.len() > 0 && text[0] == '+' {
        text.skip(1)
    } else {
        text
    }
}

/// The number that a text denotes: one or more decimal digits, which a
/// plus sign may precede.
pub open spec fn number(text: Seq<char>) -> Option<nat> {
    if unsigned_part(text).len() == 0 {
        None
    } else {
        digits_value(unsigned_part(text))
    }
}

/// The number that a text denotes, if it is no larger than `max`.
pub open spec fn number_within(text: Seq<char>, max: nat) -> Option<nat> {
    match number(text) {
        Some(value) if value <= max => Some(value),
        _ => None,
    }
}

/// A run of digits denotes at least what any of its beginnings denotes,
/// and denotes nothing if one of its beginnings denotes nothing.
pub proof fn lemma_digits_grow(digits: Seq<char>, upto: int)
    requires
        0 <= upto <= digits.len(),
    ensures
        match digits_value(digits) {
            Some(value) => digits_value(digits.take(upto)) matches Some(part) && part <= value,
            None => true,
        },
    decreases digits.len(),
{
    if upto == digits.len() {
        assert(digits.take(upto) =~= digits);
    } else {
        assert(digits.drop_last().take(upto) =~= digits.take(upto));
        lemma_digits_grow(digits.drop_last(), upto);
    }
}

/// Reads a number that is no larger than `max`.
pub fn parse_number(text: &str, max: u32) -> (value: Option<u32>)
    ensures
        match value {
            Some(value) => number_within(text@, max as nat) == Some(value as nat),
            None => number_within(text@, max as nat) is None,
        },
{
    broadcast use vstd::string::group_string_axioms;

    let mut plus = false;
    let mut first = true;
    let mut any = false;
    let mut total: u64 = 0;
    assert(text@.subrange(0, 0) =~= Seq::empty());
    for c in it: text.chars()
        invariant
            it.seq() == text@,
            first == (it.index() == 0),
            plus ==> it.index() >= 1 && text@[0] == '+',
            !plus ==> it.index() == 0 || text@[0] != '+',
            any == (it.index() - (if plus { 1int } else { 0int }) > 0),
            total <= max,
            digits_value(text@.subrange(if plus { 1int } else { 0int }, it.index() as int))
                == Some(total as nat),
    {
        let ghost start = if plus { 1int } else { 0int };
        let ghost at = it.index() as int;
        if first && c == '+' {
            plus = true;
            assert(text@.subrange(1, 1) =~= Seq::empty());
        } else {
            let ghost body = unsigned_part(text@);
            let ghost seen = text@.subrange(start, at + 1);
            proof {
                assert(body =~= text@.subrange(start, text@.len() as int));
                assert(seen.drop_last() =~= text@.subrange(start, at));
                assert(seen.last() == c);
                assert(body.take(at + 1 - start) =~= seen);
                lemma_digits_grow(body, at + 1 - start);
            }
            if c < '0' || c > '9' {
                return None;
            }
            let digit = c as u32 - '0' as u32;
            total = total * 10 + digit as u64;
            if total > max as u64 {
                return None;
            }
            any = true;
        }
        first = false;
    }
    proof {
        let start = if plus { 1int } else { 0int };
        assert(unsigned_part(text@) =~= text@.subrange(start, text@.len() as int));
    }
    if any {
        Some(total as u32)
    } else {
        None
    }
}


/// Why a row could not be read.
#[derive(Clone, Copy, Debug, PartialEq, Eq, Structural)]
pub enum ParseError {
    /// The row ends before this column.
    MissingColumn(u8),
    /// A column that has to hold a number holds something else, or a
    /// number that is too large for its field.
    InvalidNumber,
    /// The rarity column holds a number that stands for no rarity.
    UnknownRarity(u8),
}

/// What a column has to hold.
#[derive(Clone, Copy, Debug, PartialEq, Eq, Structural)]
pub enum CellKind {
    /// Any text.
    Text,
    /// A number that is no larger than `max`.
    Number { max: u32 },
}

/// One column that a row is read for: where it stands, what is reported
/// when the row ends before it, and what it has to hold.
#[derive(Clone, Copy, Debug, PartialEq, Eq, Structural)]
pub struct Cell {
    pub column: usize,
    pub missing: u8,
    pub kind: CellKind,
}

/// What is wrong with a cell of a row, if anything.
pub open spec fn cell_error(columns: Seq<Seq<char>>, cell: Cell) -> Option<ParseError> {
    if cell.column >= columns.len() {
        Some(ParseError::MissingColumn(cell.missing))
    } else {
        match cell.kind {
            CellKind::Text => None,
            CellKind::Number { max } => if number_within(columns[cell.column as int], max as nat)
                is Some {
                None
            } else {
                Some(ParseError::InvalidNumber)
            },
        }
    }
}

/// The number in a cell; zero for a text cell.
pub open spec fn cell_value(columns: Seq<Seq<char>>, cell: Cell) -> nat {
    match cell.kind {
        CellKind::Text => 0,
        CellKind::Number { max } => number_within(columns[cell.column as int], max as nat).unwrap(),
    }
}

/// What is wrong with the first cell that has something wrong with it.
pub open spec fn first_error(columns: Seq<Seq<char>>, cells: Seq<Cell>) -> Option<ParseError>
    decreases cells.len(),
{
    if cells.len() == 0 {
        None
    } else {
        match cell_error(columns, cells[0]) {
            Some(error) => Some(error),
            None => first_error(columns, cells.skip(1)),
        }
    }
}

/// The first error of a layout is that of the cell at `at` when no cell
/// before it has one; a layout without a faulty cell has no error.
pub proof fn lemma_first_error(columns: Seq<Seq<char>>, cells: Seq<Cell>, at: int)
    requires
        0 <= at <= cells.len(),
        forall|k: int| 0 <= k < at ==> cell_error(columns, #[trigger] cells[k]) is None,
    ensures
        at < cells.len() && cell_error(columns, cells[at]) is Some ==> first_error(columns, cells)
            == cell_error(columns, cells[at]),
        at == cells.len() ==> first_error(columns, cells) is None,
    decreases at,
{
    if at > 0 {
        let rest = cells.skip(1);
        assert forall|k: int| 0 <= k < at - 1 implies cell_error(columns, #[trigger] rest[k])
            is None by {
            assert(rest[k] == cells[k + 1]);
        }
        assert(cell_error(columns, cells[0]) is None);
        lemma_first_error(columns, rest, at - 1);
        if at < cells.len() {
            assert(rest[at - 1] == cells[at]);
        }
    }
}

/// Reads the cells of a layout from a row, in the layout's order, and
/// stops at the first that has something wrong with it.
pub fn read_cells(columns: &Vec<String>, cells: &Vec<Cell>) -> (result: Result<
    Vec<u32>,
    ParseError,
>)
    ensures
        match result {
            Ok(values) => {
                &&& first_error(views(columns@), cells@) is None
                &&& values@.len() == cells@.len()
                &&& forall|k: int|
                    0 <= k < cells@.len() ==> {
                        &&& cell_error(views(columns@), #[trigger] cells@[k]) is None
                        &&& values@[k] == cell_value(views(columns@), cells@[k])
                    }
            },
            Err(error) => first_error(views(columns@), cells@) == Some(error),
        },
{
    let ghost row = views(columns@);
    let mut values: Vec<u32> = Vec::new();
    let mut i: usize = 0;
    while i < cells.len()
        invariant
            i <= cells.len(),
            row == views(columns@),
            values@.len() == i,
            forall|k: int|
                0 <= k < i ==> {
                    &&& cell_error(row, #[trigger] cells@[k]) is None
                    &&& values@[k] == cell_value(row, cells@[k])
                },
        decreases cells.len() - i,
    {
        let cell = cells[i];
        proof {
            lemma_first_error(row, cells@, i as int);
            if cell.column < columns@.len() {
                assert(row[cell.column as int] == columns@[cell.column as int]@);
            }
        }
        if cell.column >= columns.len() {
            return Err(ParseError::MissingColumn(cell.missing));
        }
        match cell.kind {
            CellKind::Text => {
                values.push(0);
            },
            CellKind::Number { max } => {
                match parse_number(columns[cell.column].as_str(), max) {
                    Some(value) => {
                        values.push(value);
                    },
                    None => {
                        return Err(ParseError::InvalidNumber);
                    },
                }
            },
        }
        i += 1;
    }
    proof {
        lemma_first_error(row, cells@, cells@.len() as int);
    }
    Ok(values)
}

} // verus!
