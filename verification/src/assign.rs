//! Resolving every variant's display string and index.
//!
//! A variant's display string is the one it declares, else its identifier.
//!
//! A variant's index is the integer it declares: by `index = <integer>`, or
//! else by a literal discriminant.  A variant that declares none takes the
//! index of the variant before it plus one, and the first variant takes zero.
//! Where that step would leave the representation type the index stays at
//! the previous value and the variant is marked as clamped; synthesis goes
//! on.  Indices are assigned strictly in declared order.  Nothing is done
//! about two variants that end up with the same index or the same string.

use crate::error::SynthesisError;
use crate::extract::{
    declared_display, declared_index, extract_attributes, passthrough, recognized_items,
};
use crate::number::Number;
use crate::repr::ReprType;
use crate::schema::{
    Annotation, AnnotationModel, FieldShape, FieldShapeModel, RawValue, RawValueModel, Variant,
    VariantModel,
};
use vstd::prelude::*;

verus! {

/// What a variant says about its own index.
pub enum Declared {
    /// Nothing: the index follows from the variant before.
    Auto,
    /// This integer.
    Literal(int),
    /// Something that is not an integer literal.
    Malformed,
}

/// A variant with its display string and its index resolved.
#[derive(Debug, PartialEq, Eq)]
pub struct ResolvedVariant {
    pub ident: String,
    pub shape: FieldShape,
    /// The annotations that passed through, in order.
    pub annotations: Vec<Annotation>,
    /// The literal discriminant as declared.
    pub discriminant: Option<Number>,
    pub declared_display: Option<String>,
    pub declared_index: Option<Number>,
    /// The resolved display string.
    pub value: String,
    /// The resolved index.
    pub index: Number,
    /// Whether the index had to stay at the previous value because the next
    /// one is not a value of the representation type.
    pub clamped: bool,
}

/// The model of a `ResolvedVariant`.
pub struct ResolvedVariantModel {
    pub ident: Seq<char>,
    pub shape: FieldShapeModel,
    pub annotations: Seq<AnnotationModel>,
    pub discriminant: Option<int>,
    pub declared_display: Option<Seq<char>>,
    pub declared_index: Option<int>,
    pub value: Seq<char>,
    pub index: int,
    pub clamped: bool,
}

impl View for ResolvedVariant {
    type V = ResolvedVariantModel;

    open spec fn view(&self) -> ResolvedVariantModel {
        ResolvedVariantModel {
            ident: self.ident@,
            shape: self.shape@,
            annotations: self.annotations.deep_view(),
            discriminant: self.discriminant.deep_view(),
            declared_display: self.declared_display.deep_view(),
            declared_index: self.declared_index.deep_view(),
            value: self.value@,
            index: self.index@,
            clamped: self.clamped,
        }
    }
}

impl DeepView for ResolvedVariant {
    type V = ResolvedVariantModel;

    open spec fn deep_view(&self) -> ResolvedVariantModel {
        self@
    }
}

impl ResolvedVariant {
    /// Whether a number can select the variant.  Only a variant without
    /// fields can: a number says nothing about what the fields hold.
    pub fn selectable_by_number(&self) -> (r: bool)
        ensures
            r == (self@.shape is Unit),
    {
        self.shape.is_unit()
    }
}

/// What `v` says about its own index.  `index = ..` among its annotations
/// decides; without one, a literal discriminant does.
pub open spec fn declared_of(v: VariantModel) -> Declared {
    match declared_index(recognized_items(v.annotations)) {
        Some(RawValueModel::Integer(n)) => Declared::Literal(n),
        Some(_) => Declared::Malformed,
        None => match v.discriminant {
            Some(n) => Declared::Literal(n),
            None => Declared::Auto,
        },
    }
}

/// The integer that `v` declares as its index, if it declares one.
pub open spec fn declared_number(v: VariantModel) -> Option<int> {
    match declared_of(v) {
        Declared::Literal(n) => Some(n),
        _ => None,
    }
}

/// The declared indices of all variants, in order.
pub open spec fn declared_numbers(variants: Seq<VariantModel>) -> Seq<Option<int>> {
    Seq::new(variants.len(), |i: int| declared_number(variants[i]))
}

/// What is wrong with the index that the variant at `i` declares, if
/// anything.
pub open spec fn fault_at(variants: Seq<VariantModel>, repr: ReprType, i: int) -> Option<
    SynthesisError,
> {
    match declared_of(variants[i]) {
        Declared::Malformed => Some(SynthesisError::MalformedIndex { position: i as usize }),
        Declared::Literal(n) => if repr.holds(n) {
            None
        } else {
            Some(SynthesisError::IndexOutOfRange { position: i as usize })
        },
        Declared::Auto => None,
    }
}

/// The fault of the first variant that has one.
pub open spec fn first_fault(variants: Seq<VariantModel>, repr: ReprType) -> Option<
    SynthesisError,
>
    decreases variants.len(),
{
    if variants.len() == 0 {
        None
    } else if first_fault(variants.drop_last(), repr) is Some {
        first_fault(variants.drop_last(), repr)
    } else {
        fault_at(variants, repr, variants.len() - 1)
    }
}

/// The index of the last of the variants whose declared indices are given,
/// where `highest` is the largest value of the representation type.  Before
/// the first variant it stands one below zero.
pub open spec fn cursor_after(declared: Seq<Option<int>>, highest: int) -> int
    decreases declared.len(),
{
    if declared.len() == 0 {
        -1
    } else {
        match declared.last() {
            Some(n) => n,
            None => {
                let before = cursor_after(declared.drop_last(), highest);
                if before < highest {
                    before + 1
                } else {
                    before
                }
            },
        }
    }
}

/// Whether the variant after those whose declared indices are given, if it
/// declares no index itself, has to stay at the previous value.
pub open spec fn clamps_after(declared: Seq<Option<int>>, highest: int) -> bool {
    cursor_after(declared, highest) >= highest
}

/// The resolved form of the variant at `i`.
pub open spec fn resolved(
    variants: Seq<VariantModel>,
    repr: ReprType,
    i: int,
) -> ResolvedVariantModel {
    let v = variants[i];
    let display = declared_display(recognized_items(v.annotations));
    let declared = declared_numbers(variants);
    ResolvedVariantModel {
        ident: v.ident,
        shape: v.shape,
        annotations: passthrough(v.annotations),
        discriminant: v.discriminant,
        declared_display: display,
        declared_index: declared[i],
        value: match display {
            Some(text) => text,
            None => v.ident,
        },
        index: cursor_after(declared.take(i + 1), repr.highest()),
        clamped: declared[i] is None && clamps_after(declared.take(i), repr.highest()),
    }
}

/// The resolved forms of all variants, in order.
pub open spec fn resolved_variants(variants: Seq<VariantModel>, repr: ReprType) -> Seq<
    ResolvedVariantModel,
> {
    Seq::new(variants.len(), |i: int| resolved(variants, repr, i))
}

/// What resolving the variants gives: their resolved forms, or the fault of
/// the first variant that has one.
pub open spec fn variants_outcome(variants: Seq<VariantModel>, repr: ReprType) -> Result<
    Seq<ResolvedVariantModel>,
    SynthesisError,
> {
    match first_fault(variants, repr) {
        Some(e) => Err(e),
        None => Ok(resolved_variants(variants, repr)),
    }
}

/// As long as every declared index is a value of the representation type,
/// so is the index of every variant.
pub proof fn lemma_cursor_bounds(declared: Seq<Option<int>>, repr: ReprType)
    requires
        forall|i: int|
            0 <= i < declared.len() && declared[i] is Some ==> repr.holds(declared[i].unwrap()),
    ensures
        cursor_after(declared, repr.highest()) <= repr.highest(),
        declared.len() > 0 ==> repr.holds(cursor_after(declared, repr.highest())),
    decreases declared.len(),
{
    if declared.len() > 0 {
        lemma_cursor_bounds(declared.drop_last(), repr);
        repr.lemma_range();
    }
}

/// Resolves the variants of one enum against its representation type.
///
/// Fails with the fault of the first variant whose declared index is not an
/// integer literal or not a value of `repr`.  Otherwise returns one resolved
/// variant for each declared one, in the same order: consumed annotations
/// removed, display string and index assigned.
pub fn variant_drives_impl(variants: Vec<Variant>, repr: ReprType) -> (r: Result<
    Vec<ResolvedVariant>,
    SynthesisError,
>)
    ensures
        match r {
            Ok(out) => variants_outcome(variants.deep_view(), repr) == Ok::<
                Seq<ResolvedVariantModel>,
                SynthesisError,
            >(out.deep_view()),
            Err(e) => variants_outcome(variants.deep_view(), repr) == Err::<
                Seq<ResolvedVariantModel>,
                SynthesisError,
            >(e),
        },
{
    let ghost all = variants.deep_view();
    let ghost declared = declared_numbers(all);
    let high = repr.max_value();
    let mut cursor = Number::from_i128(-1);
    let mut out: Vec<ResolvedVariant> = Vec::new();
    proof {
        assert(declared.take(0).len() == 0);
    }
    for variant in it: variants
        invariant
            it.seq() == variants@,
            all == variants.deep_view(),
            declared == declared_numbers(all),
            high@ == repr.highest(),
            first_fault(all.take(it.index() as int), repr) is None,
            cursor@ == cursor_after(declared.take(it.index() as int), repr.highest()),
            out@.len() == it.index(),
            forall|i: int| 0 <= i < out@.len() ==> (#[trigger] out@[i])@ == resolved(all, repr, i),
    {
        let ghost k = it.index() as int;
        let position = out.len();
        proof {
            assert(all[k] == variant@);
            assert(all.take(k + 1).drop_last() == all.take(k));
            assert(all.take(k + 1)[k] == all[k]);
            assert(declared.take(k + 1).drop_last() == declared.take(k));
            assert(declared.take(k + 1).last() == declared_number(all[k]));
            repr.lemma_range();
        }
        let Variant { ident, shape, annotations, discriminant } = variant;
        let (attrs, rest) = extract_attributes(annotations);
        let declared_index = match attrs.index {
            Some(RawValue::Integer(n)) => Some(n),
            Some(_) => {
                proof {
                    lemma_first_fault_extends(all, repr, k + 1);
                }
                return Err(SynthesisError::MalformedIndex { position });
            },
            None => discriminant,
        };
        let mut clamped = false;
        match declared_index {
            Some(n) => {
                if !repr.contains(&n) {
                    proof {
                        lemma_first_fault_extends(all, repr, k + 1);
                    }
                    return Err(SynthesisError::IndexOutOfRange { position });
                }
                cursor = n;
            },
            None => {
                match cursor.next_up_to(&high) {
                    Some(next) => {
                        cursor = next;
                    },
                    None => {
                        clamped = true;
                    },
                }
            },
        }
        let value = match &attrs.display {
            Some(text) => text.clone(),
            None => ident.clone(),
        };
        out.push(
            ResolvedVariant {
                ident,
                shape,
                annotations: rest,
                discriminant,
                declared_display: attrs.display,
                declared_index,
                value,
                index: cursor,
                clamped,
            },
        );
    }
    proof {
        assert(all.take(all.len() as int) == all);
        assert(out.deep_view() =~= resolved_variants(all, repr));
    }
    Ok(out)
}

/// A fault among the first `n` variants is a fault among all of them.
proof fn lemma_first_fault_extends(variants: Seq<VariantModel>, repr: ReprType, n: int)
    requires
        0 <= n <= variants.len(),
        first_fault(variants.take(n), repr) is Some,
    ensures
        first_fault(variants, repr) == first_fault(variants.take(n), repr),
    decreases variants.len() - n,
{
    if n < variants.len() {
        assert(variants.take(n + 1).drop_last() == variants.take(n));
        lemma_first_fault_extends(variants, repr, n + 1);
    } else {
        assert(variants.take(n) == variants);
    }
}

} // verus!
