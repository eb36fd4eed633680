//! Choosing the representation type of an enum.
//!
//! The hints are the arguments of the enum's `repr` annotations, in order.
//!
//! 1. A hint that names an integer type decides: that type is used.  Hints
//!    that name two different integer types are a fault.
//! 2. Otherwise the platform alias `C` stands for `u32`.
//! 3. Without any hint, the type is `i32`.  If a variant has a literal
//!    discriminant, a hint that names `i32` is added to the output, so that
//!    the layout of the enum is fixed; if none has, nothing is added.
//! 4. Hints that are neither of these leave the type at `u32`.
//!
//! Whatever hints were given are handed back in order.

use crate::error::SynthesisError;
use crate::repr::ReprType;
use crate::schema::{
    lemma_deep_view_push, text_is, Annotation, AnnotationModel, MetaItem, MetaItemModel, Variant,
    VariantModel,
};
use vstd::prelude::*;

verus! {

/// The representation of an enum.
#[derive(Debug, PartialEq, Eq)]
pub struct Representation {
    /// The integer type of the indices.
    pub ty: ReprType,
    /// The type that a hint added to the output names, where one is added.
    pub synthesized: Option<ReprType>,
    /// The hints as given, in order.
    pub hints: Vec<MetaItem>,
}

/// The model of a `Representation`.
pub struct RepresentationModel {
    pub ty: ReprType,
    pub synthesized: Option<ReprType>,
    pub hints: Seq<MetaItemModel>,
}

impl View for Representation {
    type V = RepresentationModel;

    open spec fn view(&self) -> RepresentationModel {
        RepresentationModel {
            ty: self.ty,
            synthesized: self.synthesized,
            hints: self.hints.deep_view(),
        }
    }
}

/// The arguments of all the annotations, in order.
pub open spec fn all_items(annotations: Seq<AnnotationModel>) -> Seq<MetaItemModel>
    decreases annotations.len(),
{
    if annotations.len() == 0 {
        Seq::empty()
    } else {
        all_items(annotations.drop_last()) + annotations.last().items
    }
}

/// The integer type that the hint names, if it names one.
pub open spec fn width_of(hint: MetaItemModel) -> Option<ReprType> {
    match hint {
        MetaItemModel::Word(word) => ReprType::named(word),
        _ => None,
    }
}

/// Whether the hint is the platform alias.
pub open spec fn is_alias(hint: MetaItemModel) -> bool {
    hint == MetaItemModel::Word("C"@)
}

/// The integer type named by the first hint that names one.
pub open spec fn first_width(hints: Seq<MetaItemModel>) -> Option<ReprType>
    decreases hints.len(),
{
    if hints.len() == 0 {
        None
    } else if first_width(hints.drop_last()) is Some {
        first_width(hints.drop_last())
    } else {
        width_of(hints.last())
    }
}

/// The integer type named by the first hint that names one other than
/// `chosen`.
pub open spec fn first_other_width(hints: Seq<MetaItemModel>, chosen: ReprType) -> Option<
    ReprType,
>
    decreases hints.len(),
{
    if hints.len() == 0 {
        None
    } else if first_other_width(hints.drop_last(), chosen) is Some {
        first_other_width(hints.drop_last(), chosen)
    } else if width_of(hints.last()) != Some(chosen) {
        width_of(hints.last())
    } else {
        None
    }
}

/// Whether one of the hints is the platform alias.
pub open spec fn has_alias(hints: Seq<MetaItemModel>) -> bool {
    exists|i: int| 0 <= i < hints.len() && is_alias(#[trigger] hints[i])
}

/// Whether one of the variants has a literal discriminant.
pub open spec fn has_discriminant(variants: Seq<VariantModel>) -> bool {
    exists|i: int| 0 <= i < variants.len() && (#[trigger] variants[i]).discriminant is Some
}

/// The representation that the hints select.  `explicit` says whether a
/// variant has a literal discriminant.
pub open spec fn selected(hints: Seq<MetaItemModel>, explicit: bool) -> Result<
    RepresentationModel,
    SynthesisError,
> {
    match first_width(hints) {
        Some(first) => match first_other_width(hints, first) {
            Some(second) => Err(SynthesisError::ConflictingRepr { first, second }),
            None => Ok(RepresentationModel { ty: first, synthesized: None, hints }),
        },
        None => if has_alias(hints) {
            Ok(RepresentationModel { ty: ReprType::U32, synthesized: None, hints })
        } else if hints.len() == 0 {
            Ok(
                RepresentationModel {
                    ty: ReprType::I32,
                    synthesized: if explicit {
                        Some(ReprType::I32)
                    } else {
                        None
                    },
                    hints,
                },
            )
        } else {
            Ok(RepresentationModel { ty: ReprType::U32, synthesized: None, hints })
        },
    }
}

/// Whether one of the variants has a literal discriminant.
pub fn any_discriminant(variants: &Vec<Variant>) -> (r: bool)
    ensures
        r == has_discriminant(variants.deep_view()),
{
    let ghost all = variants.deep_view();
    for k in 0..variants.len()
        invariant
            all == variants.deep_view(),
            forall|i: int| 0 <= i < k ==> (#[trigger] all[i]).discriminant is None,
    {
        if variants[k].discriminant.is_some() {
            assert(all[k as int].discriminant is Some);
            return true;
        }
        assert(all[k as int].discriminant is None);
    }
    false
}

/// Chooses the representation type from the enum's `repr` annotations.
pub fn repr_ty(repr_attrs: Vec<Annotation>, variants: &Vec<Variant>) -> (r: Result<
    Representation,
    SynthesisError,
>)
    ensures
        match r {
            Ok(representation) => selected(
                all_items(repr_attrs.deep_view()),
                has_discriminant(variants.deep_view()),
            ) == Ok::<RepresentationModel, SynthesisError>(representation@),
            Err(e) => selected(
                all_items(repr_attrs.deep_view()),
                has_discriminant(variants.deep_view()),
            ) == Err::<RepresentationModel, SynthesisError>(e),
        },
{
    let ghost all = repr_attrs.deep_view();
    let mut hints: Vec<MetaItem> = Vec::new();
    let mut first: Option<ReprType> = None;
    let mut second: Option<ReprType> = None;
    let mut alias = false;
    proof {
        assert(hints.deep_view() =~= all_items(all.take(0)));
    }
    for annotation in outer: repr_attrs
        invariant
            outer.seq() == repr_attrs@,
            all == repr_attrs.deep_view(),
            hints.deep_view() == all_items(all.take(outer.index() as int)),
            first == first_width(hints.deep_view()),
            first is Some ==> second == first_other_width(hints.deep_view(), first.unwrap()),
            first is None ==> second is None,
            alias == has_alias(hints.deep_view()),
    {
        let ghost k = outer.index() as int;
        let ghost before = hints.deep_view();
        let ghost items = annotation.items.deep_view();
        let ghost raw = annotation.items@;
        proof {
            assert(all.take(k + 1).drop_last() == all.take(k));
            assert(all.take(k + 1).last() == annotation@);
            assert(before + items.take(0) == before);
        }
        for item in inner: annotation.items
            invariant
                inner.seq() == raw,
                items == Seq::new(raw.len(), |i: int| raw[i].deep_view()),
                hints.deep_view() == before + items.take(inner.index() as int),
                first == first_width(hints.deep_view()),
                first is Some ==> second == first_other_width(hints.deep_view(), first.unwrap()),
                first is None ==> second is None,
                alias == has_alias(hints.deep_view()),
        {
            let ghost j = inner.index() as int;
            let ghost old_hints = hints.deep_view();
            let ghost old_raw = hints@;
            let ghost next = item@;
            proof {
                assert(before + items.take(j + 1) == old_hints.push(next));
                assert(old_hints.push(next).drop_last() == old_hints);
                if first_width(old_hints) is None && width_of(next) is Some {
                    lemma_first_other_width_none(old_hints, next);
                }
            }
            match &item {
                MetaItem::Word(word) => {
                    proof {
                        ReprType::lemma_names_are_long(word@);
                        reveal_strlit("C");
                    }
                    let width = ReprType::from_name(word);
                    match width {
                        Some(ty) => {
                            match first {
                                None => {
                                    first = Some(ty);
                                },
                                Some(chosen) => {
                                    if second.is_none() && ty != chosen {
                                        second = Some(ty);
                                    }
                                },
                            }
                        },
                        None => {
                            if text_is(word, "C") {
                                alias = true;
                            }
                        },
                    }
                },
                _ => {},
            }
            hints.push(item);
            proof {
                lemma_deep_view_push(old_raw, hints@, item);
                let grown = hints.deep_view();
                assert(grown == old_hints.push(next));
                if is_alias(next) {
                    assert(is_alias(grown[grown.len() - 1]));
                } else if has_alias(grown) {
                    let i = choose|i: int| 0 <= i < grown.len() && is_alias(#[trigger] grown[i]);
                    assert(is_alias(old_hints[i]));
                }
                if has_alias(old_hints) {
                    let i = choose|i: int|
                        0 <= i < old_hints.len() && is_alias(#[trigger] old_hints[i]);
                    assert(is_alias(grown[i]));
                }
            }
        }
        proof {
            assert(items.take(items.len() as int) == items);
        }
    }
    proof {
        assert(all.take(all.len() as int) == all);
    }
    match first {
        Some(chosen) => match second {
            Some(other) => Err(SynthesisError::ConflictingRepr { first: chosen, second: other }),
            None => Ok(Representation { ty: chosen, synthesized: None, hints }),
        },
        None => {
            if alias {
                Ok(Representation { ty: ReprType::U32, synthesized: None, hints })
            } else if hints.len() == 0 {
                let synthesized = if any_discriminant(variants) {
                    Some(ReprType::I32)
                } else {
                    None
                };
                Ok(Representation { ty: ReprType::I32, synthesized, hints })
            } else {
                Ok(Representation { ty: ReprType::U32, synthesized: None, hints })
            }
        },
    }
}

/// While no hint names an integer type, none names one other than the one
/// that `next` names.
proof fn lemma_first_other_width_none(hints: Seq<MetaItemModel>, next: MetaItemModel)
    requires
        first_width(hints) is None,
        width_of(next) is Some,
    ensures
        first_other_width(hints, width_of(next).unwrap()) is None,
    decreases hints.len(),
{
    if hints.len() > 0 {
        lemma_first_other_width_none(hints.drop_last(), next);
    }
}

} // verus!
