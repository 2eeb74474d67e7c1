//! Character templates: what a monster or a playable character is made
//! from.

use crate::data::{parsed_common, DataEntry, DataMap, RefCommon, RefCommonView};
use crate::seqs::{lemma_views_push, views};
use crate::tabular::{
    cell_error, cell_value, first_error, lines, read_cells, split, split_columns, split_lines,
    Cell, CellKind, ParseError,
};
use vstd::prelude::*;
use vstd::string::StrSliceExecFns;

verus! {

/// How rare a kind of monster is.
#[derive(Clone, Copy, Debug, PartialEq, Eq, Structural)]
pub enum EntityRarity {
    Normal,
    Champion,
    Unique,
    Giant,
    Titan,
    Elite,
    EliteStrong,
    Unique2,
}

/// A character template.
#[derive(Clone, Debug, PartialEq, Eq)]
pub struct RefCharacterData {
    pub common: RefCommon,
    pub rarity: EntityRarity,
    pub level: u8,
    pub exp: u32,
    pub hp: u32,
    pub base_range: u16,
    pub walk_speed: u32,
    pub run_speed: u32,
    pub berserk_speed: u32,
    pub aggressive: bool,
    pub skills: Vec<u32>,
}

impl DataEntry for RefCharacterData {
    open spec fn entry_ref_id(&self) -> u32 {
        self.common.ref_id
    }

    open spec fn entry_code(&self) -> Seq<char> {
        self.common.id@
    }

    fn ref_id(&self) -> (id: u32) {
        self.common.ref_id
    }

    fn code(&self) -> (code: &str) {
        self.common.id.as_str()
    }
}

impl EntityRarity {
    /// The rarity that a code of the data files stands for.
    pub open spec fn of_code(code: u8) -> Option<EntityRarity> {
        if code == 0 {
            Some(EntityRarity::Normal)
        } else if code == 1 {
            Some(EntityRarity::Champion)
        } else if code == 3 {
            Some(EntityRarity::Unique)
        } else if code == 4 {
            Some(EntityRarity::Giant)
        } else if code == 5 {
            Some(EntityRarity::Titan)
        } else if code == 6 {
            Some(EntityRarity::Elite)
        } else if code == 7 {
            Some(EntityRarity::EliteStrong)
        } else if code == 8 {
            Some(EntityRarity::Unique2)
        } else {
            None
        }
    }

    /// Reads a rarity code.
    pub fn from_code(code: u8) -> (rarity: Option<EntityRarity>)
        ensures
            rarity == EntityRarity::of_code(code),
    {
        match code {
            0 => Some(EntityRarity::Normal),
            1 => Some(EntityRarity::Champion),
            3 => Some(EntityRarity::Unique),
            4 => Some(EntityRarity::Giant),
            5 => Some(EntityRarity::Titan),
            6 => Some(EntityRarity::Elite),
            7 => Some(EntityRarity::EliteStrong),
            8 => Some(EntityRarity::Unique2),
            _ => None,
        }
    }
}

/// The mathematical content of a [`RefCharacterData`].
pub struct RefCharacterDataView {
    pub common: RefCommonView,
    pub rarity: EntityRarity,
    pub level: u8,
    pub exp: u32,
    pub hp: u32,
    pub base_range: u16,
    pub walk_speed: u32,
    pub run_speed: u32,
    pub berserk_speed: u32,
    pub aggressive: bool,
    pub skills: Seq<u32>,
}

impl View for RefCharacterData {
    type V = RefCharacterDataView;

    open spec fn view(&self) -> RefCharacterDataView {
        RefCharacterDataView {
            common: self.common@,
            rarity: self.rarity,
            level: self.level,
            exp: self.exp,
            hp: self.hp,
            base_range: self.base_range,
            walk_speed: self.walk_speed,
            run_speed: self.run_speed,
            berserk_speed: self.berserk_speed,
            aggressive: self.aggressive,
            skills: self.skills@,
        }
    }
}

/// The columns that are read behind the common ones, in reading order:
/// the aggression flag, the ten skill slots and the rarity code.
pub open spec fn behaviour_cells() -> Seq<Cell> {
    seq![
        Cell { column: 93, missing: 94, kind: CellKind::Number { max: 255 } },
        Cell { column: 83, missing: 83, kind: CellKind::Number { max: u32::MAX } },
        Cell { column: 84, missing: 84, kind: CellKind::Number { max: u32::MAX } },
        Cell { column: 85, missing: 85, kind: CellKind::Number { max: u32::MAX } },
        Cell { column: 86, missing: 86, kind: CellKind::Number { max: u32::MAX } },
        Cell { column: 87, missing: 87, kind: CellKind::Number { max: u32::MAX } },
        Cell { column: 88, missing: 88, kind: CellKind::Number { max: u32::MAX } },
        Cell { column: 89, missing: 89, kind: CellKind::Number { max: u32::MAX } },
        Cell { column: 90, missing: 90, kind: CellKind::Number { max: u32::MAX } },
        Cell { column: 91, missing: 91, kind: CellKind::Number { max: u32::MAX } },
        Cell { column: 92, missing: 92, kind: CellKind::Number { max: u32::MAX } },
        Cell { column: 16, missing: 16, kind: CellKind::Number { max: 255 } },
    ]
}

/// The columns that are read last, in reading order: level, experience,
/// hit points, the three speeds and the base range.
pub open spec fn strength_cells() -> Seq<Cell> {
    seq![
        Cell { column: 57, missing: 57, kind: CellKind::Number { max: 255 } },
        Cell { column: 79, missing: 79, kind: CellKind::Number { max: u32::MAX } },
        Cell { column: 59, missing: 59, kind: CellKind::Number { max: u32::MAX } },
        Cell { column: 46, missing: 46, kind: CellKind::Number { max: u32::MAX } },
        Cell { column: 47, missing: 47, kind: CellKind::Number { max: u32::MAX } },
        Cell { column: 48, missing: 48, kind: CellKind::Number { max: u32::MAX } },
        Cell { column: 50, missing: 50, kind: CellKind::Number { max: 65535 } },
    ]
}

/// The test for skill slots that are in use.
pub open spec fn in_use() -> spec_fn(u32) -> bool {
    |skill: u32| skill != 0
}

/// The skills of a row: what its ten skill slots hold, without the slots
/// that hold zero.
pub open spec fn skills_of(columns: Seq<Seq<char>>) -> Seq<u32> {
    Seq::new(10, |i: int| cell_value(columns, behaviour_cells()[i + 1]) as u32).filter(in_use())
}

/// The character template that a row describes, or what is wrong with
/// the first column, in reading order, that has something wrong with it.
#[verifier::opaque]
pub open spec fn parsed_character(columns: Seq<Seq<char>>) -> Result<
    RefCharacterDataView,
    ParseError,
> {
    match parsed_common(columns) {
        Err(error) => Err(error),
        Ok(common) => match first_error(columns, behaviour_cells()) {
            Some(error) => Err(error),
            None => {
                let code = cell_value(columns, behaviour_cells()[11]) as u8;
                match EntityRarity::of_code(code) {
                    None => Err(ParseError::UnknownRarity(code)),
                    Some(rarity) => match first_error(columns, strength_cells()) {
                        Some(error) => Err(error),
                        None => Ok(
                            RefCharacterDataView {
                                common,
                                rarity,
                                level: cell_value(columns, strength_cells()[0]) as u8,
                                exp: cell_value(columns, strength_cells()[1]) as u32,
                                hp: cell_value(columns, strength_cells()[2]) as u32,
                                walk_speed: cell_value(columns, strength_cells()[3]) as u32,
                                run_speed: cell_value(columns, strength_cells()[4]) as u32,
                                berserk_speed: cell_value(columns, strength_cells()[5]) as u32,
                                base_range: cell_value(columns, strength_cells()[6]) as u16,
                                aggressive: cell_value(columns, behaviour_cells()[0]) == 1,
                                skills: skills_of(columns),
                            },
                        ),
                    },
                }
            },
        },
    }
}

impl RefCharacterData {
    /// Reads a character template from the columns of its row.
    pub fn from_columns(columns: &Vec<String>) -> (result: Result<RefCharacterData, ParseError>)
        ensures
            match result {
                Ok(data) => parsed_character(views(columns@)) == Ok::<
                    RefCharacterDataView,
                    ParseError,
                >(data@),
                Err(error) => parsed_character(views(columns@)) == Err::<
                    RefCharacterDataView,
                    ParseError,
                >(error),
            },
    {
        reveal(parsed_character);
        let ghost row = views(columns@);
        let common = match RefCommon::from_columns(columns) {
            Ok(common) => common,
            Err(error) => {
                return Err(error);
            },
        };
        let behaviour = vec![
            Cell { column: 93, missing: 94, kind: CellKind::Number { max: 255 } },
            Cell { column: 83, missing: 83, kind: CellKind::Number { max: u32::MAX } },
            Cell { column: 84, missing: 84, kind: CellKind::Number { max: u32::MAX } },
            Cell { column: 85, missing: 85, kind: CellKind::Number { max: u32::MAX } },
            Cell { column: 86, missing: 86, kind: CellKind::Number { max: u32::MAX } },
            Cell { column: 87, missing: 87, kind: CellKind::Number { max: u32::MAX } },
            Cell { column: 88, missing: 88, kind: CellKind::Number { max: u32::MAX } },
            Cell { column: 89, missing: 89, kind: CellKind::Number { max: u32::MAX } },
            Cell { column: 90, missing: 90, kind: CellKind::Number { max: u32::MAX } },
            Cell { column: 91, missing: 91, kind: CellKind::Number { max: u32::MAX } },
            Cell { column: 92, missing: 92, kind: CellKind::Number { max: u32::MAX } },
            Cell { column: 16, missing: 16, kind: CellKind::Number { max: 255 } },
        ];
        assert(behaviour@ =~= behaviour_cells());
        let first = match read_cells(columns, &behaviour) {
            Ok(values) => values,
            Err(error) => {
                return Err(error);
            },
        };
        assert(cell_error(row, behaviour@[0]) is None);
        assert(cell_error(row, behaviour@[11]) is None);
        let ghost slots = Seq::new(10, |i: int| cell_value(row, behaviour_cells()[i + 1]) as u32);
        let mut skills: Vec<u32> = Vec::new();
        let mut i: usize = 1;
        assert(slots.take(0) =~= Seq::empty());
        while i <= 10
            invariant
                1 <= i <= 11,
                first@.len() == 12,
                behaviour@ == behaviour_cells(),
                slots == Seq::new(10, |i: int| cell_value(row, behaviour_cells()[i + 1]) as u32),
                forall|k: int|
                    0 <= k < 12 ==> {
                        &&& cell_error(row, #[trigger] behaviour@[k]) is None
                        &&& first@[k] == cell_value(row, behaviour@[k])
                    },
                skills@ == slots.take(i - 1).filter(in_use()),
            decreases 11 - i,
        {
            let skill_id = first[i];
            proof {
                assert(cell_error(row, behaviour@[i as int]) is None);
                assert(slots[i - 1] == skill_id);
                slots.lemma_take_succ_push(i - 1);
                slots.take(i - 1).lemma_filter_push(skill_id, in_use());
            }
            if skill_id != 0 {
                skills.push(skill_id);
            }
            i += 1;
        }
        assert(slots.take(10) =~= slots);
        let rarity = match EntityRarity::from_code(first[11] as u8) {
            Some(rarity) => rarity,
            None => {
                return Err(ParseError::UnknownRarity(first[11] as u8));
            },
        };
        let strength = vec![
            Cell { column: 57, missing: 57, kind: CellKind::Number { max: 255 } },
            Cell { column: 79, missing: 79, kind: CellKind::Number { max: u32::MAX } },
            Cell { column: 59, missing: 59, kind: CellKind::Number { max: u32::MAX } },
            Cell { column: 46, missing: 46, kind: CellKind::Number { max: u32::MAX } },
            Cell { column: 47, missing: 47, kind: CellKind::Number { max: u32::MAX } },
            Cell { column: 48, missing: 48, kind: CellKind::Number { max: u32::MAX } },
            Cell { column: 50, missing: 50, kind: CellKind::Number { max: 65535 } },
        ];
        assert(strength@ =~= strength_cells());
        let second = match read_cells(columns, &strength) {
            Ok(values) => values,
            Err(error) => {
                return Err(error);
            },
        };
        proof {
            assert(cell_error(row, strength@[0]) is None);
            assert(cell_error(row, strength@[1]) is None);
            assert(cell_error(row, strength@[2]) is None);
            assert(cell_error(row, strength@[3]) is None);
            assert(cell_error(row, strength@[4]) is None);
            assert(cell_error(row, strength@[5]) is None);
            assert(cell_error(row, strength@[6]) is None);
        }
        Ok(
            RefCharacterData {
                common,
                rarity,
                level: second[0] as u8,
                exp: second[1],
                hp: second[2],
                walk_speed: second[3],
                run_speed: second[4],
                berserk_speed: second[5],
                base_range: second[6] as u16,
                aggressive: first[0] == 1,
                skills,
            },
        )
    }

    /// Reads a character template from a line of tab-separated columns.
    pub fn from_str(s: &str) -> (result: Result<RefCharacterData, ParseError>)
        ensures
            match result {
                Ok(data) => parsed_character(split(s@, '\t')) == Ok::<
                    RefCharacterDataView,
                    ParseError,
                >(data@),
                Err(error) => parsed_character(split(s@, '\t')) == Err::<
                    RefCharacterDataView,
                    ParseError,
                >(error),
            },
    {
        let elements = split_columns(s);
        RefCharacterData::from_columns(&elements)
    }
}

impl std::str::FromStr for RefCharacterData {
    type Err = ParseError;

    /// Reads a character template from a line, as the method of the same
    /// name on the type itself does.
    fn from_str(s: &str) -> (result: Result<RefCharacterData, ParseError>)
        ensures
            match result {
                Ok(data) => parsed_character(split(s@, '\t')) == Ok::<
                    RefCharacterDataView,
                    ParseError,
                >(data@),
                Err(error) => parsed_character(split(s@, '\t')) == Err::<
                    RefCharacterDataView,
                    ParseError,
                >(error),
            },
    {
        RefCharacterData::from_str(s)
    }
}

/// The failure to read a table: which line it is about, counted from
/// zero, and what is wrong with it.
#[derive(Clone, Copy, Debug, PartialEq, Eq, Structural)]
pub struct TableError {
    pub line: usize,
    pub error: ParseError,
}

/// Whether a line of a table holds a row: empty lines and lines that
/// start with two slashes do not.
pub open spec fn is_row(line: Seq<char>) -> bool {
    line.len() > 0 && !(line.len() >= 2 && line[0] == '/' && line[1] == '/')
}

/// The templates that the lines of a table describe, in the order of the
/// lines, or the first line that holds a faulty row.
pub open spec fn parsed_rows(table: Seq<Seq<char>>) -> Result<
    Seq<RefCharacterDataView>,
    TableError,
>
    decreases table.len(),
{
    if table.len() == 0 {
        Ok(Seq::empty())
    } else {
        match parsed_rows(table.drop_last()) {
            Err(error) => Err(error),
            Ok(rows) => if is_row(table.last()) {
                match parsed_character(split(table.last(), '\t')) {
                    Ok(row) => Ok(rows.push(row)),
                    Err(error) => Err(TableError { line: (table.len() - 1) as usize, error }),
                }
            } else {
                Ok(rows)
            },
        }
    }
}

/// Once a line is faulty, the table is, however many lines follow.
pub proof fn lemma_rows_fail(table: Seq<Seq<char>>, upto: int)
    requires
        0 <= upto <= table.len(),
        parsed_rows(table.take(upto)) is Err,
    ensures
        parsed_rows(table) == parsed_rows(table.take(upto)),
    decreases table.len(),
{
    if upto == table.len() {
        assert(table.take(upto) =~= table);
    } else {
        assert(table.drop_last().take(upto) =~= table.take(upto));
        lemma_rows_fail(table.drop_last(), upto);
    }
}

/// Whether a line holds a row.
fn holds_row(line: &str) -> (yes: bool)
    ensures
        yes == is_row(line@),
{
    let length = line.unicode_len();
    if length == 0 {
        false
    } else if length == 1 {
        true
    } else {
        !(line.get_char(0) == '/' && line.get_char(1) == '/')
    }
}

/// Reads the table of character templates from the text of its file: one
/// template for each line that holds a row.
pub fn parse_character_table(text: &str) -> (result: Result<DataMap<RefCharacterData>, TableError>)
    ensures
        match result {
            Ok(table) => parsed_rows(lines(text@)) == Ok::<Seq<RefCharacterDataView>, TableError>(
                views(table@),
            ),
            Err(error) => parsed_rows(lines(text@)) == Err::<
                Seq<RefCharacterDataView>,
                TableError,
            >(error),
        },
{
    let all = split_lines(text);
    let ghost table = views(all@);
    let mut rows: Vec<RefCharacterData> = Vec::new();
    let mut i: usize = 0;
    assert(table.take(0) =~= Seq::empty());
    assert(views(rows@) =~= Seq::empty());
    while i < all.len()
        invariant
            i <= all.len(),
            table == views(all@),
            table == lines(text@),
            parsed_rows(table.take(i as int)) == Ok::<Seq<RefCharacterDataView>, TableError>(
                views(rows@),
            ),
        decreases all.len() - i,
    {
        let line = all[i].as_str();
        proof {
            assert(table.take(i + 1).drop_last() =~= table.take(i as int));
            assert(table.take(i + 1).last() == all@[i as int]@);
        }
        if holds_row(line) {
            match RefCharacterData::from_str(line) {
                Ok(row) => {
                    proof {
                        lemma_views_push(rows@, row);
                    }
                    rows.push(row);
                },
                Err(error) => {
                    proof {
                        let seen = table.take(i + 1);
                        assert(seen.len() == i + 1);
                        assert(parsed_rows(seen) == Err::<Seq<RefCharacterDataView>, TableError>(
                            TableError { line: i, error },
                        ));
                        lemma_rows_fail(table, i + 1);
                    }
                    return Err(TableError { line: i, error });
                },
            }
        }
        i += 1;
    }
    assert(table.take(i as int) =~= table);
    Ok(DataMap::new(rows))
}

} // verus!
