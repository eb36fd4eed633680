//! What holds of every resolved enum.
//!
//! Each statement here is proved from the definition of synthesis in
//! `structure` and of the lookups in `lookup`.

use crate::assign::{
    declared_numbers, fault_at, first_fault, lemma_cursor_bounds, ResolvedVariantModel,
};
use crate::attributes::{is_derive, is_repr};
use crate::error::{ConversionErrorModel, SynthesisError};
use crate::extract::is_recognized;
use crate::lookup::lemma_first_where;
use crate::repr::ReprType;
use crate::schema::{AnnotationModel, EnumDef, EnumDefModel, VariantModel};
use crate::structure::{outcome, synthesized, synthesizes, ResolvedEnum, ResolvedEnumModel};
use vstd::prelude::*;

verus! {

/// Where the variants have no fault, none of them has one.
pub proof fn lemma_no_fault(variants: Seq<VariantModel>, repr: ReprType)
    requires
        first_fault(variants, repr) is None,
    ensures
        forall|i: int| 0 <= i < variants.len() ==> fault_at(variants, repr, i) is None,
    decreases variants.len(),
{
    if variants.len() > 0 {
        let head = variants.drop_last();
        lemma_no_fault(head, repr);
        assert forall|i: int| 0 <= i < variants.len() implies fault_at(variants, repr, i)
            is None by {
            if i < head.len() {
                assert(head[i] == variants[i]);
                assert(fault_at(head, repr, i) is None);
            }
        }
    }
}

/// Synthesis fails on a variant only with the fault of the first variant
/// that has one: no variant before it has a fault.
pub proof fn lemma_first_fault_is_first(variants: Seq<VariantModel>, repr: ReprType)
    ensures
        match first_fault(variants, repr) {
            Some(e) => exists|p: int|
                0 <= p < variants.len() && fault_at(variants, repr, p) == Some(e) && forall|q: int|
                    0 <= q < p ==> fault_at(variants, repr, q) is None,
            None => forall|q: int| 0 <= q < variants.len() ==> fault_at(variants, repr, q) is None,
        },
    decreases variants.len(),
{
    if variants.len() > 0 {
        let head = variants.drop_last();
        lemma_first_fault_is_first(head, repr);
        assert forall|q: int| 0 <= q < head.len() implies fault_at(head, repr, q) == fault_at(
            variants,
            repr,
            q,
        ) by {
            assert(head[q] == variants[q]);
        }
        match first_fault(head, repr) {
            Some(e) => {
                let p = choose|p: int|
                    0 <= p < head.len() && fault_at(head, repr, p) == Some(e) && forall|q: int|
                        0 <= q < p ==> fault_at(head, repr, q) is None;
                assert(fault_at(variants, repr, p) == Some(e));
                assert forall|q: int| 0 <= q < p implies fault_at(variants, repr, q) is None by {
                    assert(fault_at(head, repr, q) is None);
                }
            },
            None => {
                if first_fault(variants, repr) is Some {
                    let p = variants.len() - 1;
                    assert(fault_at(variants, repr, p) == first_fault(variants, repr));
                    assert forall|q: int| 0 <= q < p implies fault_at(variants, repr, q)
                        is None by {
                        assert(fault_at(head, repr, q) is None);
                    }
                } else {
                    assert forall|q: int| 0 <= q < variants.len() implies fault_at(
                        variants,
                        repr,
                        q,
                    ) is None by {
                        if q < head.len() {
                            assert(fault_at(head, repr, q) is None);
                        }
                    }
                }
            },
        }
    }
}

/// Every enum that synthesis returns is well formed.
pub proof fn law_well_formed(def: EnumDefModel, e: ResolvedEnumModel)
    requires
        synthesizes(def, e),
    ensures
        e.well_formed(),
{
    let others = |a: AnnotationModel| !is_derive(a) && !is_repr(a);
    assert forall|k: int| 0 <= k < e.annotations.len() implies !is_derive(
        #[trigger] e.annotations[k],
    ) && !is_repr(e.annotations[k]) by {
        def.annotations.lemma_filter_pred(others, k);
    }
    assert forall|i: int| 0 <= i < e.variants.len() implies e.variant_well_formed(i) by {
        law_indices_fit(def, e, i);
        if e.variants[i].declared_index is Some {
            law_declared_index(def, e, i);
        } else if i == 0 || e.index(i - 1) < e.repr().highest() {
            law_auto_increment(def, e, i);
        } else {
            law_overflow_clamps(def, e, i);
        }
        let kept = |a: AnnotationModel| !is_recognized(a);
        assert forall|k: int| 0 <= k < e.variants[i].annotations.len() implies !is_recognized(
            #[trigger] e.variants[i].annotations[k],
        ) by {
            def.variants[i].annotations.lemma_filter_pred(kept, k);
        }
    }
}

/// Synthesis keeps every variant: the resolved enum has as many variants as
/// were declared, whatever their fields, and each keeps its identifier and
/// its shape.
pub proof fn law_variant_count(def: EnumDefModel, e: ResolvedEnumModel)
    requires
        synthesizes(def, e),
    ensures
        e.variant_count() == def.variants.len(),
        forall|i: int|
            0 <= i < def.variants.len() ==> {
                &&& (#[trigger] e.variants[i]).ident == def.variants[i].ident
                &&& e.variants[i].shape == def.variants[i].shape
            },
{
}

/// A variant that declares no index has the index of the variant before it
/// plus one, and zero if it is the first, as long as that value is one of
/// the representation type.
pub proof fn law_auto_increment(def: EnumDefModel, e: ResolvedEnumModel, i: int)
    requires
        synthesizes(def, e),
        0 <= i < e.variants.len(),
        e.variants[i].declared_index is None,
        i > 0 ==> e.index(i - 1) < e.repr().highest(),
    ensures
        i == 0 ==> e.index(i) == 0,
        i > 0 ==> e.index(i) == e.index(i - 1) + 1,
        !e.clamped(i),
{
    let declared = declared_numbers(def.variants);
    assert(declared.take(i + 1).drop_last() == declared.take(i));
    assert(declared.take(i + 1).last() == declared[i]);
    e.repr().lemma_range();
    if i == 0 {
        assert(declared.take(0).len() == 0);
    }
}

/// A variant that declares no index, and whose predecessor already has the
/// largest value of the representation type, stays at that value and is
/// marked as clamped.  Synthesis does not fail on it.
pub proof fn law_overflow_clamps(def: EnumDefModel, e: ResolvedEnumModel, i: int)
    requires
        synthesizes(def, e),
        0 < i < e.variants.len(),
        e.variants[i].declared_index is None,
        e.index(i - 1) >= e.repr().highest(),
    ensures
        e.index(i) == e.index(i - 1),
        e.clamped(i),
{
    let declared = declared_numbers(def.variants);
    assert(declared.take(i + 1).drop_last() == declared.take(i));
    assert(declared.take(i + 1).last() == declared[i]);
}

/// A variant that declares an index has that index.
pub proof fn law_declared_index(def: EnumDefModel, e: ResolvedEnumModel, i: int)
    requires
        synthesizes(def, e),
        0 <= i < e.variants.len(),
        e.variants[i].declared_index is Some,
    ensures
        e.index(i) == e.variants[i].declared_index.unwrap(),
        !e.clamped(i),
{
    let declared = declared_numbers(def.variants);
    assert(declared.take(i + 1).last() == declared[i]);
}

/// Every index is a value of the enum's one representation type.
pub proof fn law_indices_fit(def: EnumDefModel, e: ResolvedEnumModel, i: int)
    requires
        synthesizes(def, e),
        0 <= i < e.variants.len(),
    ensures
        e.repr().holds(e.index(i)),
{
    let declared = declared_numbers(def.variants);
    lemma_no_fault(def.variants, e.repr());
    let prefix = declared.take(i + 1);
    assert forall|j: int| 0 <= j < prefix.len() && prefix[j] is Some implies e.repr().holds(
        prefix[j].unwrap(),
    ) by {
        assert(fault_at(def.variants, e.repr(), j) is None);
    }
    lemma_cursor_bounds(prefix, e.repr());
}

/// The index of a variant without recursion: from the last variant at or
/// before it that declares an index, one is counted for every variant since,
/// but never beyond the largest value of the representation type.
pub proof fn law_index_counts_from_declared(
    def: EnumDefModel,
    e: ResolvedEnumModel,
    from: int,
    i: int,
)
    requires
        synthesizes(def, e),
        0 <= from <= i < e.variants.len(),
        e.variants[from].declared_index is Some,
        forall|k: int| from < k <= i ==> (#[trigger] e.variants[k]).declared_index is None,
    ensures
        e.index(i) == vstd::math::min(
            e.repr().highest(),
            e.variants[from].declared_index.unwrap() + (i - from),
        ),
    decreases i - from,
{
    law_indices_fit(def, e, from);
    law_declared_index(def, e, from);
    if from < i {
        law_index_counts_from_declared(def, e, from, i - 1);
        assert(e.variants[i].declared_index is None);
        if e.index(i - 1) < e.repr().highest() {
            law_auto_increment(def, e, i);
        } else {
            law_indices_fit(def, e, i - 1);
            law_overflow_clamps(def, e, i);
        }
    }
}

/// The index of a variant before which, and at which, no index is declared:
/// its position, but never beyond the largest value of the representation
/// type.
pub proof fn law_index_counts_from_zero(def: EnumDefModel, e: ResolvedEnumModel, i: int)
    requires
        synthesizes(def, e),
        0 <= i < e.variants.len(),
        forall|k: int| 0 <= k <= i ==> (#[trigger] e.variants[k]).declared_index is None,
    ensures
        e.index(i) == vstd::math::min(e.repr().highest(), i),
    decreases i,
{
    assert(e.variants[i].declared_index is None);
    e.repr().lemma_range();
    if i == 0 {
        law_auto_increment(def, e, i);
    } else {
        law_index_counts_from_zero(def, e, i - 1);
        if e.index(i - 1) < e.repr().highest() {
            law_auto_increment(def, e, i);
        } else {
            law_indices_fit(def, e, i - 1);
            law_overflow_clamps(def, e, i);
        }
    }
}

/// A variant that declares no display string has its identifier as its
/// display string; one that declares a display string has that one.
pub proof fn law_default_value(def: EnumDefModel, e: ResolvedEnumModel, i: int)
    requires
        synthesizes(def, e),
        0 <= i < e.variants.len(),
    ensures
        e.variants[i].declared_display is None ==> e.value(i) == Some(e.variants[i].ident),
        e.variants[i].declared_display is Some ==> e.value(i) == e.variants[i].declared_display,
{
}

/// A variant without fields is found again by its index, provided that no
/// other variant without fields has the same index.
pub proof fn law_number_round_trip(e: ResolvedEnumModel, i: int)
    requires
        0 <= i < e.variants.len(),
        e.variants[i].shape is Unit,
        forall|j: int|
            0 <= j < e.variants.len() && j != i && (#[trigger] e.variants[j]).shape is Unit
                ==> e.variants[j].index != e.variants[i].index,
    ensures
        e.number_to_variant(e.index(i)) == Ok::<int, ConversionErrorModel>(i),
{
    let n = e.index(i);
    lemma_first_where(e.variants, |v: ResolvedVariantModel| v.shape is Unit && v.index == n);
}

/// A variant without fields is found again by its display string, provided
/// that no other variant without fields has the same display string, and
/// that no variant with fields that is declared before it has it either.
pub proof fn law_string_round_trip(e: ResolvedEnumModel, i: int)
    requires
        0 <= i < e.variants.len(),
        e.variants[i].shape is Unit,
        forall|j: int|
            0 <= j < e.variants.len() && j != i && (#[trigger] e.variants[j]).shape is Unit
                ==> e.variants[j].value != e.variants[i].value,
        forall|j: int|
            0 <= j < i && !((#[trigger] e.variants[j]).shape is Unit) ==> e.variants[j].value
                != e.variants[i].value,
    ensures
        e.value(i) is Some,
        e.string_to_variant(e.value(i).unwrap()) == Ok::<int, ConversionErrorModel>(i),
{
    let text = e.variants[i].value;
    lemma_first_where(e.variants, |v: ResolvedVariantModel| v.value == text);
}

/// A string that selects no variant is answered with a message that
/// carries, word for word, both the string and the enum's identifier.
pub proof fn law_unknown_string_message(e: ResolvedEnumModel, text: Seq<char>)
    requires
        e.by_string(text) is None,
    ensures
        e.string_to_variant(text) == Err::<int, ConversionErrorModel>(
            ConversionErrorModel::InvalidString { enum_name: e.ident, input: text },
        ),
        ({
            let fault = ConversionErrorModel::InvalidString { enum_name: e.ident, input: text };
            let head = ConversionErrorModel::string_head().len() as int;
            let joint = head + text.len() + ConversionErrorModel::string_joint().len();
            &&& fault.message().len() == joint + e.ident.len() + 1
            &&& fault.message().subrange(head, head + text.len()) == text
            &&& fault.message().subrange(joint, joint + e.ident.len()) == e.ident
        }),
{
    reveal_strlit("\"");
    let fault = ConversionErrorModel::InvalidString { enum_name: e.ident, input: text };
    let head = ConversionErrorModel::string_head().len() as int;
    let joint = head + text.len() + ConversionErrorModel::string_joint().len();
    assert(fault.message().subrange(head, head + text.len()) =~= text);
    assert(fault.message().subrange(joint, joint + e.ident.len()) =~= e.ident);
}

/// Where several variants could be selected, the first in declared order is.
pub proof fn law_first_wins(e: ResolvedEnumModel, n: int, text: Seq<char>, i: int)
    requires
        0 <= i < e.variants.len(),
    ensures
        e.variants[i].shape is Unit && e.variants[i].index == n ==> e.by_number(n) is Some
            && e.by_number(n).unwrap() <= i,
        e.variants[i].value == text ==> e.by_string(text) is Some && e.by_string(text).unwrap()
            <= i,
{
    lemma_first_where(e.variants, |v: ResolvedVariantModel| v.shape is Unit && v.index == n);
    lemma_first_where(e.variants, |v: ResolvedVariantModel| v.value == text);
}

/// Synthesis is a function of what the definition holds: run twice, on the
/// same definition or on two that hold the same, it gives the same outcome,
/// and so the same indices and display strings.
pub proof fn law_repeatable(
    first_input: EnumDef,
    second_input: EnumDef,
    first: Result<ResolvedEnum, SynthesisError>,
    second: Result<ResolvedEnum, SynthesisError>,
)
    requires
        first_input@ == second_input@,
        outcome(first) == synthesized(first_input@),
        outcome(second) == synthesized(second_input@),
    ensures
        outcome(first) == outcome(second),
        first is Ok ==> second is Ok && first.unwrap()@.variants == second.unwrap()@.variants,
        first is Ok ==> forall|i: int|
            first.unwrap()@.index(i) == second.unwrap()@.index(i) && first.unwrap()@.value(i)
                == second.unwrap()@.value(i),
{
}

} // verus!
