//! Reading a variant's annotations.
//!
//! Annotations named `e` belong to this crate.  Their arguments may set two
//! things, in any order and spread over any number of annotations:
//! `value = "<text>"` declares the variant's display string and
//! `index = <integer>` declares its index.  Where a key is given more than
//! once the last one counts.  Other arguments of an `e` annotation are
//! ignored.  Every `e` annotation is consumed; all others pass through.

use crate::schema::{
    lemma_deep_view_push, text_is, Annotation, AnnotationModel, MetaItem, MetaItemModel, RawValue,
    RawValueModel,
};
use vstd::prelude::*;

verus! {

/// Whether the annotation is one that the extractor reads and removes.
pub open spec fn is_recognized(a: AnnotationModel) -> bool {
    a.path == "e"@
}

/// The annotations that the extractor leaves alone, in order.
pub open spec fn passthrough(annotations: Seq<AnnotationModel>) -> Seq<AnnotationModel> {
    annotations.filter(|a: AnnotationModel| !is_recognized(a))
}

/// The arguments of all recognized annotations, in order.
pub open spec fn recognized_items(annotations: Seq<AnnotationModel>) -> Seq<MetaItemModel>
    decreases annotations.len(),
{
    if annotations.len() == 0 {
        Seq::empty()
    } else if is_recognized(annotations.last()) {
        recognized_items(annotations.drop_last()) + annotations.last().items
    } else {
        recognized_items(annotations.drop_last())
    }
}

/// The text that `item` declares as display string, if it declares one:
/// the key is `value` and the right-hand side is a string literal.
pub open spec fn display_of(item: MetaItemModel) -> Option<Seq<char>> {
    match item {
        MetaItemModel::Pair(key, RawValueModel::Text(text)) => if key == "value"@ {
            Some(text)
        } else {
            None
        },
        _ => None,
    }
}

/// The right-hand side that `item` declares as index, if it declares one:
/// the key is `index`.
pub open spec fn index_of(item: MetaItemModel) -> Option<RawValueModel> {
    match item {
        MetaItemModel::Pair(key, value) => if key == "index"@ {
            Some(value)
        } else {
            None
        },
        _ => None,
    }
}

/// The display string that the items declare: that of the last item that
/// declares one.
pub open spec fn declared_display(items: Seq<MetaItemModel>) -> Option<Seq<char>>
    decreases items.len(),
{
    if items.len() == 0 {
        None
    } else if display_of(items.last()) is Some {
        display_of(items.last())
    } else {
        declared_display(items.drop_last())
    }
}

/// The index that the items declare: that of the last item that declares
/// one, whatever its right-hand side is.
pub open spec fn declared_index(items: Seq<MetaItemModel>) -> Option<RawValueModel>
    decreases items.len(),
{
    if items.len() == 0 {
        None
    } else if index_of(items.last()) is Some {
        index_of(items.last())
    } else {
        declared_index(items.drop_last())
    }
}

/// What a variant's annotations declare.
#[derive(Debug, PartialEq, Eq)]
pub struct VariantAttrs {
    /// The declared display string.
    pub display: Option<String>,
    /// The declared index, not yet checked to be an integer.
    pub index: Option<RawValue>,
}

/// The model of `VariantAttrs`.
pub struct VariantAttrsModel {
    pub display: Option<Seq<char>>,
    pub index: Option<RawValueModel>,
}

impl View for VariantAttrs {
    type V = VariantAttrsModel;

    open spec fn view(&self) -> VariantAttrsModel {
        VariantAttrsModel { display: self.display.deep_view(), index: self.index.deep_view() }
    }
}

/// What the annotations of one variant declare.
pub open spec fn extracted(annotations: Seq<AnnotationModel>) -> VariantAttrsModel {
    VariantAttrsModel {
        display: declared_display(recognized_items(annotations)),
        index: declared_index(recognized_items(annotations)),
    }
}

/// Reads the annotations of one variant.
///
/// Returns what they declare, together with the annotations that pass
/// through: the input without the recognized ones, in the same order.
pub fn extract_attributes(annotations: Vec<Annotation>) -> (r: (VariantAttrs, Vec<Annotation>))
    ensures
        r.0@ == extracted(annotations.deep_view()),
        r.1.deep_view() == passthrough(annotations.deep_view()),
{
    let ghost all = annotations.deep_view();
    let ghost keep = |a: AnnotationModel| !is_recognized(a);
    let mut display: Option<String> = None;
    let mut index: Option<RawValue> = None;
    let mut rest: Vec<Annotation> = Vec::new();
    proof {
        assert(rest.deep_view() =~= all.take(0).filter(keep));
    }
    for annotation in outer: annotations
        invariant
            outer.seq() == annotations@,
            all == annotations.deep_view(),
            keep == (|a: AnnotationModel| !is_recognized(a)),
            display.deep_view() == declared_display(
                recognized_items(all.take(outer.index() as int)),
            ),
            index.deep_view() == declared_index(recognized_items(all.take(outer.index() as int))),
            rest.deep_view() == all.take(outer.index() as int).filter(keep),
    {
        let ghost k = outer.index() as int;
        let ghost before = recognized_items(all.take(k));
        proof {
            assert(all.take(k + 1).drop_last() == all.take(k));
            assert(all.take(k + 1).last() == annotation@);
            reveal(Seq::filter);
        }
        if text_is(&annotation.path, "e") {
            let ghost items = annotation.items.deep_view();
            let ghost raw = annotation.items@;
            proof {
                assert(before + items.take(0) == before);
            }
            for item in inner: annotation.items
                invariant
                    inner.seq() == raw,
                    items == Seq::new(raw.len(), |i: int| raw[i].deep_view()),
                    display.deep_view() == declared_display(
                        before + items.take(inner.index() as int),
                    ),
                    index.deep_view() == declared_index(before + items.take(inner.index() as int)),
            {
                let ghost j = inner.index() as int;
                proof {
                    let grown = before + items.take(j + 1);
                    assert(grown.drop_last() == before + items.take(j));
                    assert(grown.last() == item@);
                }
                match item {
                    MetaItem::Pair(key, value) => {
                        if text_is(&key, "value") {
                            proof {
                                reveal_strlit("value");
                                reveal_strlit("index");
                                assert("value"@.len() != "index"@.len() || "value"@[0]
                                    != "index"@[0]);
                            }
                            match value {
                                RawValue::Text(text) => {
                                    display = Some(text);
                                },
                                _ => {},
                            }
                        } else if text_is(&key, "index") {
                            index = Some(value);
                        }
                    },
                    _ => {},
                }
            }
            proof {
                assert(items.take(items.len() as int) == items);
            }
        } else {
            let ghost kept = rest@;
            rest.push(annotation);
            proof {
                lemma_deep_view_push(kept, rest@, annotation);
            }
        }
    }
    proof {
        assert(all.take(all.len() as int) == all);
    }
    (VariantAttrs { display, index }, rest)
}

} // verus!
