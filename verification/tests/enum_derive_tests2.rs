use e_macros_core::number::Number;
use e_macros_core::schema::{Annotation, EnumDef, FieldShape, MetaItem, RawValue, Variant};
use e_macros_core::structure::{create_structure, ResolvedEnum};

fn num(n: i128) -> Number {
    Number::from_i128(n)
}

fn e_attr(items: Vec<MetaItem>) -> Annotation {
    Annotation::new("e", items)
}

fn value_item(text: &str) -> MetaItem {
    MetaItem::pair("value", RawValue::text(text))
}

fn words(path: &str, list: &[&str]) -> Annotation {
    Annotation::new(path, list.iter().map(|w| MetaItem::word(w)).collect())
}

fn unit(ident: &str) -> Variant {
    Variant::new(ident, FieldShape::Unit)
}

fn resolve(def: EnumDef) -> ResolvedEnum {
    create_structure(def).expect("the definition has no fault")
}

fn at(e: &ResolvedEnum, ident: &str) -> usize {
    e.variants.iter().position(|v| v.ident == ident).expect("a variant of that name")
}

// #[derive(Debug, Clone, Serialize, Deserialize)]
// pub enum TestEnum {
//     #[e(value = "上层")] Up,
//     #[e(value = "下层")] Down,
//     Data { data: TestEnumData },
//     Next(Box<TestEnum>),
// }
fn test_enum() -> ResolvedEnum {
    resolve(
        EnumDef::new("TestEnum")
            .with(words("derive", &["Debug", "Clone", "Serialize", "Deserialize"]))
            .variant(unit("Up").with(e_attr(vec![value_item("上层")])))
            .variant(unit("Down").with(e_attr(vec![value_item("下层")])))
            .variant(Variant::new("Data", FieldShape::Named(vec!["data".to_string()])))
            .variant(Variant::new("Next", FieldShape::Positional(1))),
    )
}

#[test]
fn test_test_enum() {
    let e = test_enum();
    assert_eq!(e.value(at(&e, "Up")), Some("上层"));
    assert_eq!(e.value(at(&e, "Down")), Some("下层"));
    // what `Debug` prints of the other two is untouched: identifier and fields
    assert_eq!(e.variants[at(&e, "Data")].ident, "Data");
    assert_eq!(e.variants[at(&e, "Data")].shape, FieldShape::Named(vec!["data".to_string()]));
    assert_eq!(e.variants[at(&e, "Next")].ident, "Next");
    assert_eq!(e.variants[at(&e, "Next")].shape, FieldShape::Positional(1));
    assert_eq!(e.index(at(&e, "Next")), num(3));
}
