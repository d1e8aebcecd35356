use recipe_helper::indigent::Indigent;
use recipe_helper::indigent::IndigentType;
use recipe_helper::indigent::ParseError;
use recipe_helper::text::str_eq;

#[test]
fn category_codes_encode_exactly() {
    assert_eq!(IndigentType::Vegetable.to_u32(), 1);
    assert_eq!(IndigentType::Fruit.to_u32(), 2);
    assert_eq!(IndigentType::Seed.to_u32(), 3);
    assert_eq!(IndigentType::Dairy.to_u32(), 4);
    assert_eq!(IndigentType::Meat.to_u32(), 5);
    assert_eq!(IndigentType::Fish.to_u32(), 6);
    assert_eq!(IndigentType::Other.to_u32(), 7);
}

#[test]
fn category_codes_decode_exactly() {
    assert_eq!(IndigentType::from_u32(1), IndigentType::Vegetable);
    assert_eq!(IndigentType::from_u32(2), IndigentType::Fruit);
    assert_eq!(IndigentType::from_u32(3), IndigentType::Seed);
    assert_eq!(IndigentType::from_u32(4), IndigentType::Dairy);
    assert_eq!(IndigentType::from_u32(5), IndigentType::Meat);
    assert_eq!(IndigentType::from_u32(6), IndigentType::Fish);
    assert_eq!(IndigentType::from_u32(7), IndigentType::Other);
    assert_eq!(IndigentType::from_u32(0), IndigentType::Other);
    assert_eq!(IndigentType::from_u32(255), IndigentType::Other);
}

#[test]
fn category_codes_round_trip() {
    for code in 1..=6u32 {
        assert_eq!(IndigentType::from_u32(code).to_u32(), code);
    }
    let all = [
        IndigentType::Vegetable,
        IndigentType::Fruit,
        IndigentType::Seed,
        IndigentType::Dairy,
        IndigentType::Meat,
        IndigentType::Fish,
        IndigentType::Other,
    ];
    for t in all {
        assert_eq!(IndigentType::from_u32(t.to_u32()), t);
    }
    assert_eq!(IndigentType::default(), IndigentType::Other);
}

#[test]
fn category_names_decode_case_sensitively() {
    assert_eq!(IndigentType::from_name("Vegetable"), IndigentType::Vegetable);
    assert_eq!(IndigentType::from_name("Fruit"), IndigentType::Fruit);
    assert_eq!(IndigentType::from_name("Seed"), IndigentType::Seed);
    assert_eq!(IndigentType::from_name("Dairy"), IndigentType::Dairy);
    assert_eq!(IndigentType::from_name("Meat"), IndigentType::Meat);
    assert_eq!(IndigentType::from_name("Fish"), IndigentType::Fish);
    assert_eq!(IndigentType::from_name("Other"), IndigentType::Other);
    assert_eq!(IndigentType::from_name("vegetable"), IndigentType::Other);
    assert_eq!(IndigentType::from_name("Cheese"), IndigentType::Other);
    assert_eq!(IndigentType::from_name(""), IndigentType::Other);
}

#[test]
fn new_indigent_carries_its_fields() {
    let mut ind = Indigent::new("Corn", 12, IndigentType::Vegetable);
    assert_eq!(ind.name(), "Corn");
    assert_eq!(ind.indigent_id(), 12);
    assert_eq!(ind.indigent_type(), IndigentType::Vegetable);

    ind.set_name("Sweetcorn");
    assert_eq!(ind.name(), "Sweetcorn");
    assert_eq!(ind.indigent_id(), 12);
    assert_eq!(ind.indigent_type(), IndigentType::Vegetable);
}

#[test]
fn indigents_compare_by_id_only() {
    let a = Indigent::new("Corn", 3, IndigentType::Vegetable);
    let b = Indigent::new("Carrot", 3, IndigentType::Other);
    let c = Indigent::new("Corn", 4, IndigentType::Vegetable);
    assert_eq!(a, b);
    assert_ne!(a, c);
}

#[test]
fn import_line_parses_two_columns() {
    let ind = Indigent::from_line("Corn;Vegetable").unwrap();
    assert_eq!(ind.name(), "Corn");
    assert_eq!(ind.indigent_id(), 0);
    assert_eq!(ind.indigent_type(), IndigentType::Vegetable);
}

#[test]
fn import_line_unknown_tag_falls_back_to_other() {
    let ind = Indigent::from_line("Mystery;Banana").unwrap();
    assert_eq!(ind.name(), "Mystery");
    assert_eq!(ind.indigent_type(), IndigentType::Other);
}

#[test]
fn import_line_without_delimiter_is_rejected() {
    assert_eq!(Indigent::from_line("Corn"), Err(ParseError::NoDelimiter));
    assert_eq!(Indigent::from_line(""), Err(ParseError::NoDelimiter));
}

#[test]
fn import_line_with_extra_columns_is_rejected() {
    assert_eq!(Indigent::from_line("Corn;Vegetable;1"), Err(ParseError::ExtraDelimiter));
    assert_eq!(Indigent::from_line(";;"), Err(ParseError::ExtraDelimiter));
}

#[test]
fn import_line_empty_columns_parse() {
    let ind = Indigent::from_line(";").unwrap();
    assert_eq!(ind.name(), "");
    assert_eq!(ind.indigent_type(), IndigentType::Other);
}

#[test]
fn str_eq_compares_contents() {
    assert!(str_eq("", ""));
    assert!(str_eq("Corn", "Corn"));
    assert!(!str_eq("Corn", "Corm"));
    assert!(!str_eq("Corn", "Cor"));
    assert!(!str_eq("", "x"));
}
