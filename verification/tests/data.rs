use silkroad_core::characterdata::{
    parse_character_table, EntityRarity, RefCharacterData, TableError,
};
use silkroad_core::data::{
    DataEntry, DataMap, ObjectConsumable, ObjectConsumableCurrency, ObjectItem, ObjectType,
    RefCommon, RefItemData, TypeId,
};
use silkroad_core::tabular::{parse_number, split_columns, split_lines, ParseError};

fn row(changes: &[(usize, &str)], length: usize) -> String {
    let mut columns: Vec<String> = (0..length).map(|_| "0".to_string()).collect();
    let defaults: [(usize, &str); 12] = [
        (1, "1907"),
        (2, "MOB_CH_MANGNYANG"),
        (9, "1"),
        (10, "2"),
        (11, "1"),
        (12, "1"),
        (13, "5000"),
        (16, "3"),
        (57, "12"),
        (59, "88"),
        (79, "400"),
        (93, "1"),
    ];
    for (column, text) in defaults.iter().chain(changes.iter()) {
        if *column < length {
            columns[*column] = text.to_string();
        }
    }
    columns.join("\t")
}

#[test]
fn split_columns_cuts_at_every_tab() {
    assert_eq!(split_columns(""), vec![""]);
    assert_eq!(split_columns("a"), vec!["a"]);
    assert_eq!(split_columns("a\tb"), vec!["a", "b"]);
    assert_eq!(split_columns("\ta\t\tb\t"), vec!["", "a", "", "b", ""]);
    assert_eq!(split_columns("x y\tz"), vec!["x y", "z"]);
    assert_eq!(split_columns("ä\tö"), vec!["ä", "ö"]);
}

#[test]
fn parse_number_reads_decimal_digits() {
    assert_eq!(parse_number("0", 255), Some(0));
    assert_eq!(parse_number("007", 255), Some(7));
    assert_eq!(parse_number("+42", 255), Some(42));
    assert_eq!(parse_number("255", 255), Some(255));
    assert_eq!(parse_number("256", 255), None);
    assert_eq!(parse_number("4294967295", u32::MAX), Some(u32::MAX));
    assert_eq!(parse_number("4294967296", u32::MAX), None);
    assert_eq!(parse_number("99999999999999999999999999", u32::MAX), None);
    assert_eq!(parse_number("", 255), None);
    assert_eq!(parse_number("+", 255), None);
    assert_eq!(parse_number("-1", 255), None);
    assert_eq!(parse_number("1+", 255), None);
    assert_eq!(parse_number("++1", 255), None);
    assert_eq!(parse_number("12a", 255), None);
    assert_eq!(parse_number(" 1", 255), None);
    assert_eq!(parse_number("٣", 255), None);
}

#[test]
fn character_row_is_read_column_by_column() {
    let line = row(
        &[(46, "16"), (47, "50"), (48, "100"), (50, "6"), (83, "31"), (85, "0"), (92, "77")],
        94,
    );
    let data = RefCharacterData::from_str(&line).unwrap();
    assert_eq!(
        data,
        RefCharacterData {
            common: RefCommon {
                ref_id: 1907,
                id: "MOB_CH_MANGNYANG".to_string(),
                type_id: TypeId(1, 2, 1, 1),
                despawn_time: 5000,
            },
            rarity: EntityRarity::Unique,
            level: 12,
            exp: 400,
            hp: 88,
            base_range: 6,
            walk_speed: 16,
            run_speed: 50,
            berserk_speed: 100,
            aggressive: true,
            skills: vec![31, 77],
        }
    );
    assert_eq!(data.ref_id(), 1907);
    assert_eq!(data.code(), "MOB_CH_MANGNYANG");
    assert_eq!(line.parse::<RefCharacterData>(), Ok(data));
}

#[test]
fn character_row_aggression_is_exactly_one() {
    assert!(!RefCharacterData::from_str(&row(&[(93, "0")], 94)).unwrap().aggressive);
    assert!(!RefCharacterData::from_str(&row(&[(93, "2")], 94)).unwrap().aggressive);
    assert!(RefCharacterData::from_str(&row(&[(93, "1")], 100)).unwrap().aggressive);
}

#[test]
fn character_row_reports_the_first_missing_column() {
    assert_eq!(RefCharacterData::from_str(""), Err(ParseError::MissingColumn(1)));
    assert_eq!(RefCharacterData::from_str(&row(&[], 2)), Err(ParseError::MissingColumn(2)));
    assert_eq!(RefCharacterData::from_str(&row(&[], 12)), Err(ParseError::MissingColumn(12)));
    assert_eq!(RefCharacterData::from_str(&row(&[], 14)), Err(ParseError::MissingColumn(94)));
    assert_eq!(RefCharacterData::from_str(&row(&[], 93)), Err(ParseError::MissingColumn(94)));
}

#[test]
fn character_row_reports_errors_in_reading_order() {
    assert_eq!(
        RefCharacterData::from_str(&row(&[(1, "x"), (16, "2")], 94)),
        Err(ParseError::InvalidNumber)
    );
    assert_eq!(
        RefCharacterData::from_str(&row(&[(16, "2"), (57, "x")], 94)),
        Err(ParseError::UnknownRarity(2))
    );
    assert_eq!(
        RefCharacterData::from_str(&row(&[(16, "9")], 94)),
        Err(ParseError::UnknownRarity(9))
    );
    assert_eq!(
        RefCharacterData::from_str(&row(&[(16, "256")], 94)),
        Err(ParseError::InvalidNumber)
    );
    assert_eq!(
        RefCharacterData::from_str(&row(&[(57, "256")], 94)),
        Err(ParseError::InvalidNumber)
    );
    assert_eq!(
        RefCharacterData::from_str(&row(&[(50, "65536")], 94)),
        Err(ParseError::InvalidNumber)
    );
    assert_eq!(
        RefCharacterData::from_str(&row(&[(88, "-3")], 94)),
        Err(ParseError::InvalidNumber)
    );
}

#[test]
fn rarity_codes() {
    assert_eq!(EntityRarity::from_code(0), Some(EntityRarity::Normal));
    assert_eq!(EntityRarity::from_code(1), Some(EntityRarity::Champion));
    assert_eq!(EntityRarity::from_code(2), None);
    assert_eq!(EntityRarity::from_code(3), Some(EntityRarity::Unique));
    assert_eq!(EntityRarity::from_code(4), Some(EntityRarity::Giant));
    assert_eq!(EntityRarity::from_code(5), Some(EntityRarity::Titan));
    assert_eq!(EntityRarity::from_code(6), Some(EntityRarity::Elite));
    assert_eq!(EntityRarity::from_code(7), Some(EntityRarity::EliteStrong));
    assert_eq!(EntityRarity::from_code(8), Some(EntityRarity::Unique2));
    assert_eq!(EntityRarity::from_code(9), None);
}

#[test]
fn taxonomy_codes() {
    assert_eq!(ObjectType::from_type_id(&TypeId(1, 2, 1, 1)), Some(ObjectType::Entity));
    assert_eq!(
        ObjectType::from_type_id(&TypeId(3, 1, 6, 2)),
        Some(ObjectType::Item(ObjectItem::Equippable(6)))
    );
    assert_eq!(ObjectType::from_type_id(&TypeId(3, 2, 1, 1)), Some(ObjectType::Item(ObjectItem::Pet)));
    assert_eq!(
        ObjectType::from_type_id(&TypeId(3, 3, 5, 0)),
        Some(ObjectType::Item(ObjectItem::Consumable(ObjectConsumable::Currency(
            ObjectConsumableCurrency::Gold
        ))))
    );
    assert_eq!(
        ObjectType::from_type_id(&TypeId(3, 3, 5, 2)),
        Some(ObjectType::Item(ObjectItem::Consumable(ObjectConsumable::Currency(
            ObjectConsumableCurrency::Other
        ))))
    );
    assert_eq!(
        ObjectType::from_type_id(&TypeId(3, 3, 1, 0)),
        Some(ObjectType::Item(ObjectItem::Consumable(ObjectConsumable::Other)))
    );
    assert_eq!(ObjectType::from_type_id(&TypeId(4, 0, 0, 0)), Some(ObjectType::Structure));
    assert_eq!(ObjectType::from_type_id(&TypeId(3, 4, 0, 0)), None);
    assert_eq!(ObjectType::from_type_id(&TypeId(0, 0, 0, 0)), None);
}

#[test]
fn data_map_finds_the_first_row_with_the_id() {
    let item = |ref_id: u32, id: &str| RefItemData {
        common: RefCommon {
            ref_id,
            id: id.to_string(),
            type_id: TypeId(3, 3, 1, 1),
            despawn_time: 0,
        },
        max_stack_size: 1,
    };
    let table = DataMap::new(vec![item(5, "FIVE"), item(7, "SEVEN"), item(5, "FIVE_AGAIN")]);
    assert_eq!(table.find_id(5).map(|row| row.code()), Some("FIVE"));
    assert_eq!(table.find_id(7).map(|row| row.code()), Some("SEVEN"));
    assert_eq!(table.find_id(7).map(|row| row.ref_id()), Some(7));
    assert!(table.find_id(6).is_none());
    assert!(DataMap::<RefItemData>::new(vec![]).find_id(5).is_none());
}

#[test]
fn split_lines_cuts_at_line_feeds_and_drops_carriage_returns() {
    assert_eq!(split_lines(""), vec![""]);
    assert_eq!(split_lines("a\tb"), vec!["a\tb"]);
    assert_eq!(split_lines("a\nb"), vec!["a", "b"]);
    assert_eq!(split_lines("a\r\nb\r\n"), vec!["a", "b", ""]);
    assert_eq!(split_lines("\n\nx"), vec!["", "", "x"]);
}

#[test]
fn character_table_skips_comments_and_empty_lines() {
    let text = format!(
        "// CharacterData\r\n{}\r\n\r\n//{}\n{}\n/{}",
        row(&[(1, "10")], 94),
        row(&[(1, "11")], 94),
        row(&[(1, "12"), (2, "//MOB")], 94),
        row(&[(1, "13")], 94),
    );
    let table = parse_character_table(&text).unwrap();
    assert_eq!(table.find_id(10).map(|row| row.code()), Some("MOB_CH_MANGNYANG"));
    assert_eq!(table.find_id(12).map(|row| row.code()), Some("//MOB"));
    assert!(table.find_id(11).is_none());
    assert_eq!(table.find_id(13).map(|row| row.ref_id()), Some(13));
    assert!(parse_character_table("").unwrap().find_id(10).is_none());
}

#[test]
fn character_table_reports_the_first_faulty_line() {
    let text = format!(
        "{}\n\n{}\n{}\n",
        row(&[], 94),
        row(&[(57, "x")], 94),
        row(&[(16, "2")], 94),
    );
    assert_eq!(
        parse_character_table(&text).err(),
        Some(TableError { line: 2, error: ParseError::InvalidNumber })
    );
    assert_eq!(
        parse_character_table("/").err(),
        Some(TableError { line: 0, error: ParseError::MissingColumn(1) })
    );
}
