//! Synthesis of one enum: from its definition to its resolved form.

use crate::assign::{
    resolved_variants, variant_drives_impl, variants_outcome, ResolvedVariant,
    ResolvedVariantModel,
};
use crate::attributes::{
    capabilities_of, derive_items, is_derive, is_repr, process_derive_attrs, split_attributes,
    Capabilities,
};
use crate::error::SynthesisError;
use crate::extract::is_recognized;
use crate::hooks::{display_hooks, generate_display_impl, serde_hooks, serde_impl, Hook};
use crate::laws::law_well_formed;
use crate::layout::{
    all_items, has_discriminant, repr_ty, selected, Representation, RepresentationModel,
};
use crate::repr::ReprType;
use crate::schema::{Annotation, AnnotationModel, EnumDef, EnumDefModel};
use vstd::prelude::*;

verus! {

/// An enum with everything resolved: the definition to put out again, and
/// what the operations on it are made from.
#[derive(Debug, PartialEq, Eq)]
pub struct ResolvedEnum {
    pub ident: String,
    /// The visibility marker as given.
    pub visibility: String,
    /// The annotations that passed through, in order.
    pub annotations: Vec<Annotation>,
    /// The derived traits, in order.
    pub derive_items: Vec<String>,
    pub representation: Representation,
    pub capabilities: Capabilities,
    /// The optional operations, in the order in which they are put out.
    pub hooks: Vec<Hook>,
    /// The resolved variants in declared order.
    pub variants: Vec<ResolvedVariant>,
}

/// The model of a `ResolvedEnum`.
pub struct ResolvedEnumModel {
    pub ident: Seq<char>,
    pub visibility: Seq<char>,
    pub annotations: Seq<AnnotationModel>,
    pub derive_items: Seq<Seq<char>>,
    pub representation: RepresentationModel,
    pub capabilities: Capabilities,
    pub hooks: Seq<Hook>,
    pub variants: Seq<ResolvedVariantModel>,
}

impl View for ResolvedEnum {
    type V = ResolvedEnumModel;

    open spec fn view(&self) -> ResolvedEnumModel {
        ResolvedEnumModel {
            ident: self.ident@,
            visibility: self.visibility@,
            annotations: self.annotations.deep_view(),
            derive_items: self.derive_items.deep_view(),
            representation: self.representation@,
            capabilities: self.capabilities,
            hooks: self.hooks@,
            variants: self.variants.deep_view(),
        }
    }
}

impl ResolvedEnumModel {
    /// The integer type of the indices.
    pub open spec fn repr(self) -> ReprType {
        self.representation.ty
    }

    /// What holds of the variant at `i` of every enum that synthesis
    /// returns: its index is a value of the representation type; its
    /// display string is the declared one, else its identifier; its index is
    /// the declared one, else the index before it plus one, or that index
    /// itself where the next is out of the type's range, which is marked;
    /// and none of its annotations is one that the extractor consumes.
    pub open spec fn variant_well_formed(self, i: int) -> bool {
        let v = self.variants[i];
        let before = if i == 0 {
            -1
        } else {
            self.variants[i - 1].index
        };
        &&& self.repr().holds(v.index)
        &&& v.value == match v.declared_display {
            Some(text) => text,
            None => v.ident,
        }
        &&& match v.declared_index {
            Some(n) => v.index == n && !v.clamped,
            None => if before < self.repr().highest() {
                v.index == before + 1 && !v.clamped
            } else {
                v.index == before && v.clamped
            },
        }
        &&& forall|k: int|
            0 <= k < v.annotations.len() ==> !is_recognized(#[trigger] v.annotations[k])
    }

    /// What holds of every enum that synthesis returns.
    pub open spec fn well_formed(self) -> bool {
        &&& self.capabilities == capabilities_of(self.derive_items)
        &&& self.hooks == hooks_of(self.capabilities)
        &&& forall|k: int|
            0 <= k < self.annotations.len() ==> !is_derive(#[trigger] self.annotations[k])
                && !is_repr(self.annotations[k])
        &&& forall|i: int| 0 <= i < self.variants.len() ==> self.variant_well_formed(i)
    }
}

/// The optional operations that the capabilities ask for, in the order in
/// which they are put out: rendering first, then the JSON hooks.
pub open spec fn hooks_of(capabilities: Capabilities) -> Seq<Hook> {
    display_hooks(capabilities.display) + serde_hooks(
        capabilities.serialize,
        capabilities.deserialize,
    )
}

/// What synthesis makes of a definition: the resolved enum, or the first
/// fault.  A fault in the representation hints comes before a fault in a
/// variant, and among the variants the first in declared order counts.
pub open spec fn synthesized(def: EnumDefModel) -> Result<ResolvedEnumModel, SynthesisError> {
    let derives = def.annotations.filter(|a: AnnotationModel| is_derive(a));
    let reprs = def.annotations.filter(|a: AnnotationModel| is_repr(a));
    let others = def.annotations.filter(|a: AnnotationModel| !is_derive(a) && !is_repr(a));
    let capabilities = capabilities_of(derive_items(derives));
    match selected(all_items(reprs), has_discriminant(def.variants)) {
        Err(e) => Err(e),
        Ok(representation) => match variants_outcome(def.variants, representation.ty) {
            Err(e) => Err(e),
            Ok(variants) => Ok(
                ResolvedEnumModel {
                    ident: def.ident,
                    visibility: def.visibility,
                    annotations: others,
                    derive_items: derive_items(derives),
                    representation,
                    capabilities,
                    hooks: hooks_of(capabilities),
                    variants,
                },
            ),
        },
    }
}

/// Whether `resolved` is what synthesis makes of `def`.
pub open spec fn synthesizes(def: EnumDefModel, resolved: ResolvedEnumModel) -> bool {
    synthesized(def) == Ok::<ResolvedEnumModel, SynthesisError>(resolved)
}

/// What a result of synthesis stands for.
pub open spec fn outcome(r: Result<ResolvedEnum, SynthesisError>) -> Result<
    ResolvedEnumModel,
    SynthesisError,
> {
    match r {
        Ok(resolved) => Ok(resolved@),
        Err(e) => Err(e),
    }
}

/// Synthesizes one enum.
///
/// Reads the enum's annotations, chooses the representation type, resolves
/// every variant's display string and index, and decides on the optional
/// operations.  Fails on conflicting representation hints and on a declared
/// index that is not an integer literal or not a value of the
/// representation type; nothing else makes it fail.  What it returns is
/// well formed.
pub fn create_structure(enum_input: EnumDef) -> (r: Result<ResolvedEnum, SynthesisError>)
    ensures
        outcome(r) == synthesized(enum_input@),
        r matches Ok(resolved) ==> resolved@.well_formed(),
{
    let ghost def = enum_input@;
    let EnumDef { ident, visibility, annotations, variants } = enum_input;
    let (derive_attrs, repr_attrs, other_attrs) = split_attributes(annotations);
    let (capabilities, derive_items) = process_derive_attrs(derive_attrs);
    let representation = match repr_ty(repr_attrs, &variants) {
        Ok(representation) => representation,
        Err(e) => {
            return Err(e);
        },
    };
    let resolved = match variant_drives_impl(variants, representation.ty) {
        Ok(resolved) => resolved,
        Err(e) => {
            return Err(e);
        },
    };
    let mut hooks: Vec<Hook> = Vec::new();
    match generate_display_impl(capabilities.display) {
        Some(hook) => {
            hooks.push(hook);
        },
        None => {},
    }
    let mut serde = serde_impl(capabilities.serialize, capabilities.deserialize);
    hooks.append(&mut serde);
    let resolved = ResolvedEnum {
        ident,
        visibility,
        annotations: other_attrs,
        derive_items,
        representation,
        capabilities,
        hooks,
        variants: resolved,
    };
    proof {
        law_well_formed(def, resolved@);
    }
    Ok(resolved)
}

} // verus!
