use e_macros_core::hooks::Hook;
use e_macros_core::number::Number;
use e_macros_core::repr::ReprType;
use e_macros_core::schema::{Annotation, EnumDef, FieldShape, MetaItem, RawValue, Variant};
use e_macros_core::structure::{create_structure, ResolvedEnum};

fn num(n: i128) -> Number {
    Number::from_i128(n)
}

fn e_attr(items: Vec<MetaItem>) -> Annotation {
    Annotation::new("e", items)
}

fn value_item(text: &str) -> MetaItem {
    MetaItem::pair("value", RawValue::text(text))
}

fn index_item(n: i128) -> MetaItem {
    MetaItem::pair("index", RawValue::integer(n))
}

fn words(path: &str, list: &[&str]) -> Annotation {
    Annotation::new(path, list.iter().map(|w| MetaItem::word(w)).collect())
}

fn unit(ident: &str) -> Variant {
    Variant::new(ident, FieldShape::Unit)
}

fn resolve(def: EnumDef) -> ResolvedEnum {
    create_structure(def).expect("the definition has no fault")
}

fn at(e: &ResolvedEnum, ident: &str) -> usize {
    e.variants.iter().position(|v| v.ident == ident).expect("a variant of that name")
}

const DERIVES: [&str; 5] = ["Debug", "Clone", "PartialEq", "Serialize", "Deserialize"];

fn serde_rename(name: &str) -> Annotation {
    Annotation::new("serde", vec![MetaItem::pair("rename", RawValue::text(name))])
}

// #[derive(Debug, Clone, PartialEq, Serialize, Deserialize)]
// pub enum TestEnumData {
//     #[serde(rename = "name")] #[e(value = "一", index = 10)] V1,
//     V2(String),
//     V3(bool, f64),
//     V4 { x: u8, y: u8 },
//     V5(serde_json::Value),
// }
fn test_enum_data() -> ResolvedEnum {
    resolve(
        EnumDef::new("TestEnumData")
            .with(words("derive", &DERIVES))
            .variant(
                unit("V1")
                    .with(serde_rename("name"))
                    .with(e_attr(vec![value_item("一"), index_item(10)])),
            )
            .variant(Variant::new("V2", FieldShape::Positional(1)))
            .variant(Variant::new("V3", FieldShape::Positional(2)))
            .variant(Variant::new(
                "V4",
                FieldShape::Named(vec!["x".to_string(), "y".to_string()]),
            ))
            .variant(Variant::new("V5", FieldShape::Positional(1))),
    )
}

// #[derive(Debug, Clone, PartialEq, Serialize, Deserialize, Default)]
// pub enum TestEnum {
//     #[default] #[e(value = "上层")] Up = 0,
//     #[e(value = "下层")] Down = 1,
//     Data { data: TestEnumData },
//     Next(Box<TestEnum>),
// }
fn test_enum() -> ResolvedEnum {
    resolve(
        EnumDef::new("TestEnum")
            .with(words(
                "derive",
                &["Debug", "Clone", "PartialEq", "Serialize", "Deserialize", "Default"],
            ))
            .variant(
                unit("Up")
                    .with(Annotation::new("default", vec![]))
                    .with(e_attr(vec![value_item("上层")]))
                    .with_discriminant(num(0)),
            )
            .variant(
                unit("Down").with(e_attr(vec![value_item("下层")])).with_discriminant(num(1)),
            )
            .variant(Variant::new("Data", FieldShape::Named(vec!["data".to_string()])))
            .variant(Variant::new("Next", FieldShape::Positional(1))),
    )
}

/// The position of `V2`, whatever it carries.
fn v2(e: &ResolvedEnum, _payload: &str) -> usize {
    at(e, "V2")
}

#[test]
fn test_enum_value() {
    let data = test_enum_data();
    assert_eq!(data.value(at(&data, "V1")), Some("一"));
    assert_eq!(data.value(v2(&data, "test")), Some("V2"));
    assert_eq!(data.value(at(&data, "V3")), Some("V3"));
    assert_eq!(data.value(at(&data, "V4")), Some("V4"));
    assert_eq!(data.value(at(&data, "V5")), Some("V5"));

    let e = test_enum();
    assert_eq!(e.value(at(&e, "Up")), Some("上层"));
    assert_eq!(e.value(at(&e, "Down")), Some("下层"));
    assert_eq!(e.value(at(&e, "Data")), Some("Data"));
    assert_eq!(e.value(at(&e, "Next")), Some("Next"));
}

#[test]
fn test_enum_index() {
    let data = test_enum_data();
    assert_eq!(data.index(at(&data, "V1")), num(10));
    // the variants after `V1` declare no index: they count on from 10
    assert_eq!(data.index(v2(&data, "test")), num(11));
    assert_eq!(data.index(at(&data, "V5")), num(14));
    // a position that names no variant gets zero
    assert_eq!(data.index(5), num(0));
}

#[test]
fn test_enum_serde_hooks() {
    let data = test_enum_data();
    assert!(data.capabilities.serialize);
    assert!(data.capabilities.deserialize);
    assert_eq!(data.hooks, vec![Hook::Display, Hook::ToSerde, Hook::FromSerde]);
    // what belongs to the serializer passes through untouched
    assert_eq!(data.variants[0].annotations, vec![serde_rename("name")]);
    assert_eq!(data.derive_items, DERIVES.map(String::from).to_vec());
}

#[test]
fn test_enum_from_str() {
    let e = test_enum();
    assert_eq!(e.string_to_variant("上层"), Ok(at(&e, "Up")));
    assert_eq!(e.string_to_variant("下层"), Ok(at(&e, "Down")));

    // variants with fields answer to their string; their fields are then
    // to be filled with default values
    assert_eq!(e.string_to_variant("Data"), Ok(at(&e, "Data")));
    assert_eq!(e.variants[at(&e, "Data")].shape, FieldShape::Named(vec!["data".to_string()]));
    assert_eq!(e.string_to_variant("Next"), Ok(at(&e, "Next")));
    assert_eq!(e.variants[at(&e, "Next")].shape, FieldShape::Positional(1));

    assert!(e.string_to_variant("Unknown").is_err());
    // identifiers do not count unless asked for
    assert!(e.string_to_variant("Up").is_err());
    assert_eq!(e.string_to_variant_permissive("Up"), Ok(at(&e, "Up")));
}

#[test]
fn test_test_enum_default() {
    let e = test_enum();
    // the marker of the default variant stays where it was put: on `Up`
    let marked: Vec<&str> = e
        .variants
        .iter()
        .filter(|v| v.annotations.iter().any(|a| a.path == "default"))
        .map(|v| v.ident.as_str())
        .collect();
    assert_eq!(marked, vec!["Up"]);
    assert!(e.derive_items.iter().any(|d| d == "Default"));
    // literal discriminants and no hint: `i32`, and the hint is added
    assert_eq!(e.representation.ty, ReprType::I32);
    assert_eq!(e.representation.synthesized, Some(ReprType::I32));
    assert_eq!(e.index(at(&e, "Up")), num(0));
    assert_eq!(e.index(at(&e, "Down")), num(1));
    assert_eq!(e.index(at(&e, "Data")), num(2));
}
