use e_macros_core::error::{ConversionError, SynthesisError};
use e_macros_core::number::Number;
use e_macros_core::repr::ReprType;
use e_macros_core::schema::{Annotation, EnumDef, FieldShape, MetaItem, RawValue, Variant};
use e_macros_core::structure::{create_structure, ResolvedEnum};

fn num(n: i128) -> Number {
    Number::from_i128(n)
}

fn e_attr(items: Vec<MetaItem>) -> Annotation {
    Annotation::new("e", items)
}

fn value_item(text: &str) -> MetaItem {
    MetaItem::pair("value", RawValue::text(text))
}

fn index_item(n: i128) -> MetaItem {
    MetaItem::pair("index", RawValue::integer(n))
}

fn words(path: &str, list: &[&str]) -> Annotation {
    Annotation::new(path, list.iter().map(|w| MetaItem::word(w)).collect())
}

fn unit(ident: &str) -> Variant {
    Variant::new(ident, FieldShape::Unit)
}

fn resolve(def: EnumDef) -> ResolvedEnum {
    create_structure(def).expect("the definition has no fault")
}

fn at(e: &ResolvedEnum, ident: &str) -> usize {
    e.variants.iter().position(|v| v.ident == ident).expect("a variant of that name")
}

// An enum that mixes everything: declared and undeclared indices and
// strings, variants with and without fields, a clamped tail.
fn mixed() -> EnumDef {
    EnumDef::new("Mixed")
        .with(words("derive", &["Debug", "Clone"]))
        .with(words("repr", &["u8"]))
        .variant(unit("First"))
        .variant(unit("Second").with(e_attr(vec![value_item("2nd")])))
        .variant(Variant::new("Pair", FieldShape::Positional(2)))
        .variant(unit("Far").with(e_attr(vec![index_item(200)])))
        .variant(Variant::new("Record", FieldShape::Named(vec!["a".to_string()])))
        .variant(unit("Top").with(e_attr(vec![index_item(255), value_item("top")])))
        .variant(unit("Over"))
        .variant(unit("Low").with(e_attr(vec![index_item(7)])))
        .variant(unit("Next"))
}

#[test]
fn undeclared_index_is_previous_plus_one() {
    let e = resolve(mixed());
    assert_eq!(e.index(0), num(0));
    for position in 1..e.variant_count() {
        let variant = &e.variants[position];
        if variant.declared_index.is_none() && !variant.clamped {
            let before = e.index(position - 1).to_i128().unwrap();
            assert_eq!(e.index(position), num(before + 1), "at {}", variant.ident);
        }
    }
    assert_eq!(e.index(at(&e, "Second")), num(1));
    assert_eq!(e.index(at(&e, "Pair")), num(2));
    assert_eq!(e.index(at(&e, "Record")), num(201));
    assert_eq!(e.index(at(&e, "Next")), num(8));
}

#[test]
fn undeclared_value_is_identifier() {
    let e = resolve(mixed());
    for (position, variant) in e.variants.iter().enumerate() {
        match &variant.declared_display {
            None => assert_eq!(e.value(position), Some(variant.ident.as_str())),
            Some(text) => assert_eq!(e.value(position), Some(text.as_str())),
        }
    }
    assert_eq!(e.value(at(&e, "First")), Some("First"));
    assert_eq!(e.value(at(&e, "Second")), Some("2nd"));
    assert_eq!(e.value(at(&e, "Record")), Some("Record"));
}

#[test]
fn variant_count_ignores_field_shapes() {
    let e = resolve(mixed());
    assert_eq!(e.variant_count(), 9);
    let only_units = resolve(
        EnumDef::new("Units").variant(unit("A")).variant(unit("B")),
    );
    assert_eq!(only_units.variant_count(), 2);
    let only_fields = resolve(
        EnumDef::new("Fields")
            .variant(Variant::new("A", FieldShape::Positional(0)))
            .variant(Variant::new("B", FieldShape::Named(vec![]))),
    );
    assert_eq!(only_fields.variant_count(), 2);
    assert_eq!(resolve(EnumDef::new("Empty")).variant_count(), 0);
}

#[test]
fn unit_variants_round_trip() {
    // no two variants without fields share an index or a string here
    let e = resolve(
        EnumDef::new("Distinct")
            .with(words("repr", &["i16"]))
            .variant(unit("A").with(e_attr(vec![index_item(-3)])))
            .variant(unit("B").with(e_attr(vec![value_item("bee")])))
            .variant(Variant::new("C", FieldShape::Positional(1)))
            .variant(unit("D"))
            .variant(unit("E").with(e_attr(vec![index_item(1000), value_item("")]))),
    );
    for (position, variant) in e.variants.iter().enumerate() {
        if variant.shape == FieldShape::Unit {
            assert_eq!(e.number_to_variant(&e.index(position)), Ok(position));
            assert_eq!(e.string_to_variant(e.value(position).unwrap()), Ok(position));
        }
    }
    assert_eq!(e.number_to_variant(&num(-3)), Ok(0));
    assert_eq!(e.number_to_variant(&num(-2)), Ok(1));
    assert_eq!(e.number_to_variant(&num(0)), Ok(3));
    assert_eq!(e.string_to_variant(""), Ok(4));
}

#[test]
fn first_declared_wins_among_duplicates() {
    let e = resolve(
        EnumDef::new("Twins")
            .variant(
                Variant::new("Boxed", FieldShape::Positional(1))
                    .with(e_attr(vec![index_item(5), value_item("same")])),
            )
            .variant(unit("A").with(e_attr(vec![index_item(5), value_item("same")])))
            .variant(unit("B").with(e_attr(vec![index_item(5), value_item("same")]))),
    );
    // duplicates are accepted
    assert_eq!(e.index(0), num(5));
    assert_eq!(e.index(1), num(5));
    assert_eq!(e.index(2), num(5));
    // a number skips the variant with fields and takes the first without
    assert_eq!(e.number_to_variant(&num(5)), Ok(1));
    // a string takes the first variant, fields or not
    assert_eq!(e.string_to_variant("same"), Ok(0));
}

#[test]
fn synthesis_twice_gives_the_same() {
    let first = create_structure(mixed());
    let second = create_structure(mixed());
    assert_eq!(first, second);
    let (first, second) = (first.unwrap(), second.unwrap());
    for position in 0..first.variant_count() {
        assert_eq!(first.index(position), second.index(position));
        assert_eq!(first.value(position), second.value(position));
    }
}

#[test]
fn every_index_is_a_value_of_the_representation_type() {
    let e = resolve(mixed());
    for position in 0..e.variant_count() {
        assert!(e.representation.ty.contains(&e.index(position)));
    }
}

#[test]
fn plain_enum_counts_from_zero() {
    let e = resolve(
        EnumDef::new("Letters").variant(unit("A")).variant(unit("B")).variant(unit("C")),
    );
    assert_eq!(e.representation.ty, ReprType::I32);
    assert_eq!(e.representation.synthesized, None);
    assert!(e.representation.hints.is_empty());
    assert_eq!(e.index(0), num(0));
    assert_eq!(e.index(1), num(1));
    assert_eq!(e.index(2), num(2));
    assert_eq!(e.value(0), Some("A"));
    assert_eq!(e.value(1), Some("B"));
    assert_eq!(e.value(2), Some("C"));
}

#[test]
fn auto_increment_continues_from_last_resolved_value() {
    let e = resolve(
        EnumDef::new("Numbers")
            .variant(unit("One").with(e_attr(vec![index_item(111)])))
            .variant(unit("Two").with(e_attr(vec![value_item("two"), index_item(2)])))
            .variant(unit("Three")),
    );
    assert_eq!(e.index(at(&e, "One")), num(111));
    assert_eq!(e.index(at(&e, "Two")), num(2));
    assert_eq!(e.index(at(&e, "Three")), num(3));
}

#[test]
fn eight_bit_overflow_clamps_and_synthesis_succeeds() {
    let def = EnumDef::new("Small")
        .with(words("repr", &["i8"]))
        .variant(unit("Top").with(e_attr(vec![index_item(127)])))
        .variant(unit("Over"))
        .variant(unit("Again"));
    let e = create_structure(def).expect("overflow is no fault");
    assert_eq!(e.index(0), num(127));
    assert_eq!(e.index(1), num(127));
    assert_eq!(e.index(2), num(127));
    assert_eq!(e.overflow_warning(0), None);
    assert_eq!(
        e.overflow_warning(1),
        Some("Index overflow: enum Small index exceeds the range of i8".to_string())
    );
    assert!(e.overflow_warning(2).is_some());
    assert_eq!(e.overflow_warning(3), None);

    // counting up to the limit is no overflow
    let e = resolve(
        EnumDef::new("Close")
            .with(words("repr", &["i8"]))
            .variant(unit("A").with(e_attr(vec![index_item(126)])))
            .variant(unit("B")),
    );
    assert_eq!(e.index(1), num(127));
    assert!(!e.variants[1].clamped);
}

#[test]
fn unknown_string_names_enum_and_input() {
    let e = resolve(EnumDef::new("Color").variant(unit("Red")));
    let error = e.string_to_variant("Purple").unwrap_err();
    assert_eq!(
        error,
        ConversionError::InvalidString {
            enum_name: "Color".to_string(),
            input: "Purple".to_string()
        }
    );
    let message = error.message();
    assert_eq!(message, "Invalid string value \"Purple\" for enum \"Color\"");
    assert!(message.contains("Color"));
    assert!(message.contains("Purple"));
    let (head, tail) = e.string_error_frame();
    assert_eq!([head.as_str(), "Purple", tail.as_str()].concat(), message);
    // matching is exact
    assert!(e.string_to_variant("red").is_err());
    assert!(e.string_to_variant("Red ").is_err());
    assert_eq!(e.string_to_variant("Red"), Ok(0));
}

#[test]
fn unknown_number_names_enum_and_type() {
    let e = resolve(EnumDef::new("Color").with(words("repr", &["u16"])).variant(unit("Red")));
    let error = e.number_to_variant(&num(9)).unwrap_err();
    assert_eq!(
        error,
        ConversionError::InvalidNumber {
            enum_name: "Color".to_string(),
            repr: ReprType::U16,
            value: num(9)
        }
    );
    assert_eq!(error.message(), "Invalid value u16 for enum \"Color\"");
    assert_eq!(e.number_error_message(), error.message());
}

#[test]
fn faults_name_the_first_variant_at_fault() {
    let malformed = EnumDef::new("Bad")
        .variant(unit("A"))
        .variant(unit("B").with(e_attr(vec![MetaItem::pair("index", RawValue::text("seven"))])))
        .variant(unit("C").with(e_attr(vec![index_item(1 << 40)])));
    let fault = create_structure(malformed).unwrap_err();
    assert_eq!(fault, SynthesisError::MalformedIndex { position: 1 });
    assert_eq!(fault.position(), Some(1));
    assert_eq!(fault.message(), "index is not an integer literal");

    let too_large = EnumDef::new("Bad")
        .with(words("repr", &["u8"]))
        .variant(unit("A"))
        .variant(unit("B"))
        .variant(unit("C").with(e_attr(vec![index_item(256)])))
        .variant(
            unit("D")
                .with(e_attr(vec![MetaItem::pair("index", RawValue::Other("N".to_string()))])),
        );
    let fault = create_structure(too_large).unwrap_err();
    assert_eq!(fault, SynthesisError::IndexOutOfRange { position: 2 });
    assert_eq!(fault.message(), "index is not a value of the representation type");

    let negative = EnumDef::new("Bad")
        .with(words("repr", &["u32"]))
        .variant(unit("A").with(e_attr(vec![index_item(-1)])));
    assert_eq!(create_structure(negative), Err(SynthesisError::IndexOutOfRange { position: 0 }));

    let discriminant = EnumDef::new("Bad")
        .with(words("repr", &["i8"]))
        .variant(unit("A").with_discriminant(num(128)));
    assert_eq!(
        create_structure(discriminant),
        Err(SynthesisError::IndexOutOfRange { position: 0 })
    );

    // a fault in the hints comes before a fault in a variant
    let both = EnumDef::new("Bad")
        .with(words("repr", &["u8", "u16"]))
        .variant(unit("A").with(e_attr(vec![index_item(-1)])));
    let fault = create_structure(both).unwrap_err();
    assert_eq!(
        fault,
        SynthesisError::ConflictingRepr { first: ReprType::U8, second: ReprType::U16 }
    );
    assert_eq!(fault.position(), None);
    assert_eq!(fault.message(), "conflicting representation hints: `u8` and `u16`");
}
