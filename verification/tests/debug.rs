use e_macros_core::number::Number;
use e_macros_core::repr::ReprType;
use e_macros_core::schema::{Annotation, EnumDef, FieldShape, MetaItem, Variant};
use e_macros_core::structure::{create_structure, ResolvedEnum};

fn num(n: i128) -> Number {
    Number::from_i128(n)
}

fn words(path: &str, list: &[&str]) -> Annotation {
    Annotation::new(path, list.iter().map(|w| MetaItem::word(w)).collect())
}

fn unit(ident: &str) -> Variant {
    Variant::new(ident, FieldShape::Unit)
}

fn resolve(def: EnumDef) -> ResolvedEnum {
    create_structure(def).expect("the definition has no fault")
}

fn at(e: &ResolvedEnum, ident: &str) -> usize {
    e.variants.iter().position(|v| v.ident == ident).expect("a variant of that name")
}

// #[derive(Debug, PartialEq, Eq, Default)]
// #[repr(u128)]
// enum Foo {
//     #[value("v1")] A = 10,
//     B = 20,
//     C = 30,
// }
fn foo() -> ResolvedEnum {
    resolve(
        EnumDef::new("Foo")
            .with(words("derive", &["Debug", "PartialEq", "Eq", "Default"]))
            .with(words("repr", &["u128"]))
            .variant(
                unit("A")
                    .with(Annotation::new("value", vec![MetaItem::Other("\"v1\"".to_string())]))
                    .with_discriminant(num(10)),
            )
            .variant(unit("B").with_discriminant(num(20)))
            .variant(unit("C").with_discriminant(num(30))),
    )
}

#[test]
fn test_value_method() {
    let e = foo();
    assert_eq!(e.index(at(&e, "A")), num(10));
    assert_eq!(e.index(at(&e, "B")), num(20));
    assert_eq!(e.index(at(&e, "C")), num(30));
    assert_eq!(e.representation.ty, ReprType::U128);
}

#[test]
fn test_new_method() {
    let e = foo();
    let found = e.number_to_variant(&num(10));
    assert_eq!(found, Ok(at(&e, "A")));
    let found = e.number_to_variant(&num(20));
    assert_eq!(found, Ok(at(&e, "B")));
    let found = e.number_to_variant(&num(30));
    assert_eq!(found, Ok(at(&e, "C")));
}

#[test]
fn test_from_method() {
    let e = foo();
    let found = e.number_to_variant(&Number::from_u128(10)).unwrap();
    assert_eq!(e.variants[found].ident, "A");
    let found = e.number_to_variant(&Number::from_u128(20)).unwrap();
    assert_eq!(e.variants[found].ident, "B");
    let found = e.number_to_variant(&Number::from_u128(30)).unwrap();
    assert_eq!(e.variants[found].ident, "C");
    assert!(e.number_to_variant(&Number::from_u128(1)).is_err());
    assert!(e.number_to_variant(&Number::from_u128(0)).is_err());
}

#[test]
fn test_debug_output() {
    let e = foo();
    // `Debug` stays derived, and prints the identifiers, which stay as they are
    assert!(e.derive_items.iter().any(|item| item == "Debug"));
    let debug_a = e.variants[at(&e, "A")].ident.as_str();
    let debug_b = e.variants[at(&e, "B")].ident.as_str();
    let debug_c = e.variants[at(&e, "C")].ident.as_str();
    assert_eq!(debug_a, "A");
    assert_eq!(debug_b, "B");
    assert_eq!(debug_c, "C");
}

#[test]
fn test_foreign_annotation_passes_through() {
    let e = foo();
    assert_eq!(
        e.variants[at(&e, "A")].annotations,
        vec![Annotation::new("value", vec![MetaItem::Other("\"v1\"".to_string())])]
    );
    // it is not this crate's `value` key: the display string is the identifier
    assert_eq!(e.value(at(&e, "A")), Some("A"));
}
