//! Static game content: what every template has in common, the taxonomy
//! of objects, and tables of templates that are searched by reference id.

use crate::seqs::{lemma_first_found_at, lemma_not_found, views};
use crate::tabular::{cell_value, first_error, read_cells, Cell, CellKind, ParseError};
use vstd::prelude::*;

verus! {

/// The four-level taxonomy code of an object.
#[derive(Clone, Copy, Debug, PartialEq, Eq, Structural)]
pub struct TypeId(pub u8, pub u8, pub u8, pub u8);

#[derive(Clone, Copy, Debug, PartialEq, Eq, Structural)]
pub enum ObjectConsumableCurrency {
    Gold,
    Other,
}

#[derive(Clone, Copy, Debug, PartialEq, Eq, Structural)]
pub enum ObjectConsumable {
    Currency(ObjectConsumableCurrency),
    Other,
}

#[derive(Clone, Copy, Debug, PartialEq, Eq, Structural)]
pub enum ObjectItem {
    /// Gear; the payload is the third level of the taxonomy code.
    Equippable(u8),
    Pet,
    Consumable(ObjectConsumable),
}

/// What kind of thing a template describes.
#[derive(Clone, Copy, Debug, PartialEq, Eq, Structural)]
pub enum ObjectType {
    Entity,
    Item(ObjectItem),
    Structure,
}

impl ObjectType {
    /// The kind that a taxonomy code stands for, if it stands for one.
    pub open spec fn of(type_id: TypeId) -> Option<ObjectType> {
        if type_id.0 == 1 {
            Some(ObjectType::Entity)
        } else if type_id.0 == 3 {
            if type_id.1 == 1 {
                Some(ObjectType::Item(ObjectItem::Equippable(type_id.2)))
            } else if type_id.1 == 2 {
                Some(ObjectType::Item(ObjectItem::Pet))
            } else if type_id.1 == 3 {
                if type_id.2 == 5 {
                    Some(
                        ObjectType::Item(
                            ObjectItem::Consumable(
                                ObjectConsumable::Currency(
                                    if type_id.3 == 0 {
                                        ObjectConsumableCurrency::Gold
                                    } else {
                                        ObjectConsumableCurrency::Other
                                    },
                                ),
                            ),
                        ),
                    )
                } else {
                    Some(ObjectType::Item(ObjectItem::Consumable(ObjectConsumable::Other)))
                }
            } else {
                None
            }
        } else if type_id.0 == 4 {
            Some(ObjectType::Structure)
        } else {
            None
        }
    }

    /// Reads a taxonomy code.
    pub fn from_type_id(type_id: &TypeId) -> (kind: Option<ObjectType>)
        ensures
            kind == ObjectType::of(*type_id),
    {
        if type_id.0 == 1 {
            Some(ObjectType::Entity)
        } else if type_id.0 == 3 {
            if type_id.1 == 1 {
                Some(ObjectType::Item(ObjectItem::Equippable(type_id.2)))
            } else if type_id.1 == 2 {
                Some(ObjectType::Item(ObjectItem::Pet))
            } else if type_id.1 == 3 {
                if type_id.2 == 5 {
                    let currency = if type_id.3 == 0 {
                        ObjectConsumableCurrency::Gold
                    } else {
                        ObjectConsumableCurrency::Other
                    };
                    Some(ObjectType::Item(ObjectItem::Consumable(ObjectConsumable::Currency(currency))))
                } else {
                    Some(ObjectType::Item(ObjectItem::Consumable(ObjectConsumable::Other)))
                }
            } else {
                None
            }
        } else if type_id.0 == 4 {
            Some(ObjectType::Structure)
        } else {
            None
        }
    }
}

/// What every template states: its reference id, its code name, its place
/// in the taxonomy and how long a dropped instance stays in the world, in
/// milliseconds.
#[derive(Clone, Debug, PartialEq, Eq)]
pub struct RefCommon {
    pub ref_id: u32,
    pub id: String,
    pub type_id: TypeId,
    pub despawn_time: u64,
}

/// The mathematical content of a [`RefCommon`].
pub struct RefCommonView {
    pub ref_id: u32,
    pub id: Seq<char>,
    pub type_id: TypeId,
    pub despawn_time: u64,
}

impl View for RefCommon {
    type V = RefCommonView;

    open spec fn view(&self) -> RefCommonView {
        RefCommonView {
            ref_id: self.ref_id,
            id: self.id@,
            type_id: self.type_id,
            despawn_time: self.despawn_time,
        }
    }
}

/// The columns that every template row is read for, in reading order:
/// the reference id, the code name, the four levels of the taxonomy code
/// and the despawn time.
pub open spec fn common_cells() -> Seq<Cell> {
    seq![
        Cell { column: 1, missing: 1, kind: CellKind::Number { max: u32::MAX } },
        Cell { column: 2, missing: 2, kind: CellKind::Text },
        Cell { column: 9, missing: 9, kind: CellKind::Number { max: 255 } },
        Cell { column: 10, missing: 10, kind: CellKind::Number { max: 255 } },
        Cell { column: 11, missing: 11, kind: CellKind::Number { max: 255 } },
        Cell { column: 12, missing: 12, kind: CellKind::Number { max: 255 } },
        Cell { column: 13, missing: 13, kind: CellKind::Number { max: u32::MAX } },
    ]
}

/// What a row states of its template, or what is wrong with the first
/// of its common columns that has something wrong with it.
pub open spec fn parsed_common(columns: Seq<Seq<char>>) -> Result<RefCommonView, ParseError> {
    let cells = common_cells();
    match first_error(columns, cells) {
        Some(error) => Err(error),
        None => Ok(
            RefCommonView {
                ref_id: cell_value(columns, cells[0]) as u32,
                id: columns[2],
                type_id: TypeId(
                    cell_value(columns, cells[2]) as u8,
                    cell_value(columns, cells[3]) as u8,
                    cell_value(columns, cells[4]) as u8,
                    cell_value(columns, cells[5]) as u8,
                ),
                despawn_time: cell_value(columns, cells[6]) as u64,
            },
        ),
    }
}

impl RefCommon {
    /// Reads the common part of a template from the columns of its row.
    pub fn from_columns(columns: &Vec<String>) -> (result: Result<RefCommon, ParseError>)
        ensures
            match result {
                Ok(common) => parsed_common(views(columns@)) == Ok::<RefCommonView, ParseError>(
                    common@,
                ),
                Err(error) => parsed_common(views(columns@)) == Err::<RefCommonView, ParseError>(
                    error,
                ),
            },
    {
        let layout = vec![
            Cell { column: 1, missing: 1, kind: CellKind::Number { max: u32::MAX } },
            Cell { column: 2, missing: 2, kind: CellKind::Text },
            Cell { column: 9, missing: 9, kind: CellKind::Number { max: 255 } },
            Cell { column: 10, missing: 10, kind: CellKind::Number { max: 255 } },
            Cell { column: 11, missing: 11, kind: CellKind::Number { max: 255 } },
            Cell { column: 12, missing: 12, kind: CellKind::Number { max: 255 } },
            Cell { column: 13, missing: 13, kind: CellKind::Number { max: u32::MAX } },
        ];
        assert(layout@ =~= common_cells());
        match read_cells(columns, &layout) {
            Err(error) => Err(error),
            Ok(values) => {
                proof {
                    let row = views(columns@);
                    assert(row[2] == columns@[2]@);
                    assert(crate::tabular::cell_error(row, layout@[0]) is None);
                    assert(crate::tabular::cell_error(row, layout@[1]) is None);
                    assert(crate::tabular::cell_error(row, layout@[2]) is None);
                    assert(crate::tabular::cell_error(row, layout@[3]) is None);
                    assert(crate::tabular::cell_error(row, layout@[4]) is None);
                    assert(crate::tabular::cell_error(row, layout@[5]) is None);
                    assert(crate::tabular::cell_error(row, layout@[6]) is None);
                }
                Ok(
                    RefCommon {
                        ref_id: values[0],
                        id: columns[2].clone(),
                        type_id: TypeId(
                            values[2] as u8,
                            values[3] as u8,
                            values[4] as u8,
                            values[5] as u8,
                        ),
                        despawn_time: values[6] as u64,
                    },
                )
            },
        }
    }
}

/// An item template.
#[derive(Clone, Debug, PartialEq, Eq)]
pub struct RefItemData {
    pub common: RefCommon,
    pub max_stack_size: u16,
}

/// A row of a template table.
pub trait DataEntry {
    /// The reference id of the row.
    spec fn entry_ref_id(&self) -> u32;

    /// The code name of the row.
    spec fn entry_code(&self) -> Seq<char>;

    fn ref_id(&self) -> (id: u32)
        ensures
            id == self.entry_ref_id(),
    ;

    fn code(&self) -> (code: &str)
        ensures
            code@ == self.entry_code(),
    ;
}

impl DataEntry for RefItemData {
    open spec fn entry_ref_id(&self) -> u32 {
        self.common.ref_id
    }

    open spec fn entry_code(&self) -> Seq<char> {
        self.common.id@
    }

    fn ref_id(&self) -> (id: u32) {
        self.common.ref_id
    }

    fn code(&self) -> (code: &str) {
        self.common.id.as_str()
    }
}

/// The reference ids of some rows, in the rows' order.
pub open spec fn ref_ids<T: DataEntry>(rows: Seq<T>) -> Seq<u32> {
    rows.map_values(|row: T| row.entry_ref_id())
}

/// The first of `rows` with the reference id `ref_id`, if there is one.
pub open spec fn find_row<T: DataEntry>(rows: Seq<T>, ref_id: u32) -> Option<T> {
    match ref_ids(rows).index_of_first(ref_id) {
        Some(i) => Some(rows[i]),
        None => None,
    }
}

/// A row that is found bears the reference id it was searched by and is
/// one of the rows; no row is found only if none bears the id.
pub proof fn lemma_find_row<T: DataEntry>(rows: Seq<T>, ref_id: u32)
    ensures
        match find_row(rows, ref_id) {
            Some(row) => row.entry_ref_id() == ref_id && rows.contains(row),
            None => forall|k: int| 0 <= k < rows.len() ==> (#[trigger] rows[k]).entry_ref_id() != ref_id,
        },
{
    let ids = ref_ids(rows);
    ids.index_of_first_ensures(ref_id);
    match ids.index_of_first(ref_id) {
        Some(i) => {
            assert(ids[i] == rows[i].entry_ref_id());
        },
        None => {
            assert forall|k: int| 0 <= k < rows.len() implies (#[trigger] rows[k]).entry_ref_id()
                != ref_id by {
                assert(ids[k] == rows[k].entry_ref_id());
                assert(ids.contains(ids[k]));
            }
        },
    }
}

/// A table of templates.
#[derive(Debug)]
pub struct DataMap<T: DataEntry> {
    rows: Vec<T>,
}

impl<T: DataEntry> View for DataMap<T> {
    type V = Seq<T>;

    closed spec fn view(&self) -> Seq<T> {
        self.rows@
    }
}

impl<T: DataEntry> DataMap<T> {
    /// The table of the given rows.
    pub fn new(rows: Vec<T>) -> (table: DataMap<T>)
        ensures
            table@ == rows@,
    {
        DataMap { rows }
    }

    /// The template with the reference id `ref_id`.
    pub fn find_id(&self, ref_id: u32) -> (found: Option<&T>)
        ensures
            match found {
                Some(row) => find_row(self@, ref_id) == Some(*row),
                None => find_row(self@, ref_id) is None,
            },
    {
        let mut i: usize = 0;
        while i < self.rows.len()
            invariant
                i <= self.rows.len(),
                forall|k: int| 0 <= k < i ==> (#[trigger] self.rows@[k]).entry_ref_id() != ref_id,
            decreases self.rows.len() - i,
        {
            if self.rows[i].ref_id() == ref_id {
                proof {
                    let ids = ref_ids(self@);
                    assert forall|k: int| 0 <= k < i implies ids[k] != ref_id by {
                        assert(ids[k] == self.rows@[k].entry_ref_id());
                    }
                    lemma_first_found_at(ids, ref_id, i as int);
                }
                return Some(&self.rows[i]);
            }
            i += 1;
        }
        proof {
            let ids = ref_ids(self@);
            assert forall|k: int| 0 <= k < ids.len() implies ids[k] != ref_id by {
                assert(ids[k] == self.rows@[k].entry_ref_id());
            }
            lemma_not_found(ids, ref_id);
        }
        None
    }
}

} // verus!
