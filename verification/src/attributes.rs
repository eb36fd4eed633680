//! Reading the annotations of the enum itself.
//!
//! `derive` annotations list the traits the enum derives.  Three of them
//! switch on an optional operation: `Debug` the rendering of a variant as
//! its display string, `Serialize` and `Deserialize` the two JSON hooks.
//! `repr` annotations carry the representation hints.  Every other
//! annotation passes through.

use crate::schema::{
    lemma_deep_view_push, text_is, Annotation, AnnotationModel, MetaItem, MetaItemModel,
};
use vstd::prelude::*;

verus! {

/// The optional operations that the enum asks for.
#[derive(Clone, Copy, Debug, PartialEq, Eq, Structural)]
pub struct Capabilities {
    /// Render a variant as its display string.
    pub display: bool,
    /// Turn a value of the enum into JSON text.
    pub serialize: bool,
    /// Make a value of the enum from a JSON value.
    pub deserialize: bool,
}

/// Whether the annotation lists derived traits.
pub open spec fn is_derive(a: AnnotationModel) -> bool {
    a.path == "derive"@
}

/// Whether the annotation carries representation hints.
pub open spec fn is_repr(a: AnnotationModel) -> bool {
    a.path == "repr"@
}

/// Whether every item is a bare word.
pub open spec fn all_words(items: Seq<MetaItemModel>) -> bool {
    forall|i: int| 0 <= i < items.len() ==> (#[trigger] items[i]) is Word
}

/// The text that an item begins with: of a bare word, the word.
pub open spec fn word_of(item: MetaItemModel) -> Seq<char> {
    match item {
        MetaItemModel::Word(word) => word,
        MetaItemModel::Pair(key, _) => key,
        MetaItemModel::Other(source) => source,
    }
}

/// The traits that one `derive` annotation lists.  An annotation whose
/// arguments are not all bare words lists nothing.
pub open spec fn listed(a: AnnotationModel) -> Seq<Seq<char>> {
    if all_words(a.items) {
        a.items.map_values(|item: MetaItemModel| word_of(item))
    } else {
        Seq::empty()
    }
}

/// The traits that the `derive` annotations list, in order.
pub open spec fn derive_items(annotations: Seq<AnnotationModel>) -> Seq<Seq<char>>
    decreases annotations.len(),
{
    if annotations.len() == 0 {
        Seq::empty()
    } else {
        derive_items(annotations.drop_last()) + listed(annotations.last())
    }
}

/// The optional operations that a list of derived traits asks for.
pub open spec fn capabilities_of(items: Seq<Seq<char>>) -> Capabilities {
    Capabilities {
        display: items.contains("Debug"@),
        serialize: items.contains("Serialize"@),
        deserialize: items.contains("Deserialize"@),
    }
}

/// Splits the enum's annotations into those that list derived traits, those
/// that carry representation hints, and the rest, each in the given order.
pub fn split_attributes(attrs: Vec<Annotation>) -> (r: (
    Vec<Annotation>,
    Vec<Annotation>,
    Vec<Annotation>,
))
    ensures
        r.0.deep_view() == attrs.deep_view().filter(|a: AnnotationModel| is_derive(a)),
        r.1.deep_view() == attrs.deep_view().filter(|a: AnnotationModel| is_repr(a)),
        r.2.deep_view() == attrs.deep_view().filter(
            |a: AnnotationModel| !is_derive(a) && !is_repr(a),
        ),
{
    let ghost all = attrs.deep_view();
    let ghost derive = |a: AnnotationModel| is_derive(a);
    let ghost repr = |a: AnnotationModel| is_repr(a);
    let ghost other = |a: AnnotationModel| !is_derive(a) && !is_repr(a);
    let mut derive_attrs: Vec<Annotation> = Vec::new();
    let mut repr_attrs: Vec<Annotation> = Vec::new();
    let mut other_attrs: Vec<Annotation> = Vec::new();
    proof {
        assert(derive_attrs.deep_view() =~= all.take(0).filter(derive));
        assert(repr_attrs.deep_view() =~= all.take(0).filter(repr));
        assert(other_attrs.deep_view() =~= all.take(0).filter(other));
    }
    for attr in it: attrs
        invariant
            it.seq() == attrs@,
            all == attrs.deep_view(),
            derive == (|a: AnnotationModel| is_derive(a)),
            repr == (|a: AnnotationModel| is_repr(a)),
            other == (|a: AnnotationModel| !is_derive(a) && !is_repr(a)),
            derive_attrs.deep_view() == all.take(it.index() as int).filter(derive),
            repr_attrs.deep_view() == all.take(it.index() as int).filter(repr),
            other_attrs.deep_view() == all.take(it.index() as int).filter(other),
    {
        let ghost derives = derive_attrs@;
        let ghost reprs = repr_attrs@;
        let ghost others = other_attrs@;
        proof {
            let k = it.index() as int;
            assert(all.take(k + 1).drop_last() == all.take(k));
            assert(all.take(k + 1).last() == attr@);
            reveal(Seq::filter);
            reveal_strlit("derive");
            reveal_strlit("repr");
            assert("derive"@.len() != "repr"@.len());
        }
        if text_is(&attr.path, "derive") {
            derive_attrs.push(attr);
            proof {
                lemma_deep_view_push(derives, derive_attrs@, attr);
            }
        } else if text_is(&attr.path, "repr") {
            repr_attrs.push(attr);
            proof {
                lemma_deep_view_push(reprs, repr_attrs@, attr);
            }
        } else {
            other_attrs.push(attr);
            proof {
                lemma_deep_view_push(others, other_attrs@, attr);
            }
        }
    }
    proof {
        assert(all.take(all.len() as int) == all);
    }
    (derive_attrs, repr_attrs, other_attrs)
}

/// Reads the `derive` annotations: which optional operations they ask for,
/// and the traits they list, in order.
pub fn process_derive_attrs(derive_attrs: Vec<Annotation>) -> (r: (Capabilities, Vec<String>))
    ensures
        r.1.deep_view() == derive_items(derive_attrs.deep_view()),
        r.0 == capabilities_of(r.1.deep_view()),
{
    let ghost all = derive_attrs.deep_view();
    let mut capabilities = Capabilities { display: false, serialize: false, deserialize: false };
    let mut items: Vec<String> = Vec::new();
    proof {
        assert(items.deep_view() =~= derive_items(all.take(0)));
    }
    for attr in outer: derive_attrs
        invariant
            outer.seq() == derive_attrs@,
            all == derive_attrs.deep_view(),
            items.deep_view() == derive_items(all.take(outer.index() as int)),
            capabilities == capabilities_of(items.deep_view()),
    {
        let ghost k = outer.index() as int;
        let ghost given = attr.items.deep_view();
        let ghost raw = attr.items@;
        let ghost before = items.deep_view();
        proof {
            assert(all.take(k + 1).drop_last() == all.take(k));
            assert(all.take(k + 1).last() == attr@);
        }
        let mut words: Vec<String> = Vec::new();
        let mut only_words = true;
        proof {
            assert(words.deep_view() =~= given.take(0).map_values(
                |item: MetaItemModel| word_of(item),
            ));
        }
        for item in inner: attr.items
            invariant
                inner.seq() == raw,
                given == Seq::new(raw.len(), |i: int| raw[i].deep_view()),
                only_words == all_words(given.take(inner.index() as int)),
                only_words ==> words.deep_view() == given.take(inner.index() as int).map_values(
                    |item: MetaItemModel| word_of(item),
                ),
        {
            let ghost j = inner.index() as int;
            let ghost collected = words@;
            proof {
                assert(given.take(j + 1).drop_last() == given.take(j));
                assert(given.take(j + 1)[j] == item@);
                if all_words(given.take(j + 1)) {
                    assert forall|i: int| 0 <= i < j implies (#[trigger] given.take(j)[i])
                        is Word by {
                        assert(given.take(j + 1)[i] is Word);
                    }
                }
            }
            match item {
                MetaItem::Word(word) => {
                    if only_words {
                        words.push(word);
                        proof {
                            lemma_deep_view_push(collected, words@, word);
                        }
                    }
                },
                _ => {
                    only_words = false;
                },
            }
            proof {
                if only_words {
                    assert(words.deep_view() =~= given.take(j + 1).map_values(
                        |item: MetaItemModel| word_of(item),
                    ));
                }
            }
        }
        proof {
            assert(given.take(given.len() as int) == given);
        }
        if only_words {
            let ghost fresh = words.deep_view();
            let ghost fresh_raw = words@;
            proof {
                assert(before + fresh.take(0) == before);
            }
            for word in last: words
                invariant
                    last.seq() == fresh_raw,
                    fresh == Seq::new(fresh_raw.len(), |i: int| fresh_raw[i].deep_view()),
                    items.deep_view() == before + fresh.take(last.index() as int),
                    capabilities == capabilities_of(items.deep_view()),
            {
                let ghost listed_before = items@;
                let ghost models_before = items.deep_view();
                proof {
                    let j = last.index() as int;
                    assert(before + fresh.take(j + 1) == models_before.push(word@));
                    lemma_contains_push(models_before, word@, "Debug"@);
                    lemma_contains_push(models_before, word@, "Serialize"@);
                    lemma_contains_push(models_before, word@, "Deserialize"@);
                }
                if text_is(&word, "Debug") {
                    capabilities.display = true;
                }
                if text_is(&word, "Serialize") {
                    capabilities.serialize = true;
                }
                if text_is(&word, "Deserialize") {
                    capabilities.deserialize = true;
                }
                items.push(word);
                proof {
                    lemma_deep_view_push(listed_before, items@, word);
                }
            }
            proof {
                assert(fresh.take(fresh.len() as int) == fresh);
            }
        } else {
            proof {
                assert(before + Seq::<Seq<char>>::empty() == before);
            }
        }
    }
    proof {
        assert(all.take(all.len() as int) == all);
    }
    (capabilities, items)
}

/// A list with one more item contains what the list did, and the new item.
proof fn lemma_contains_push(items: Seq<Seq<char>>, next: Seq<char>, word: Seq<char>)
    ensures
        items.push(next).contains(word) == (items.contains(word) || next == word),
{
    let grown = items.push(next);
    if items.contains(word) {
        let i = choose|i: int| 0 <= i < items.len() && items[i] == word;
        assert(grown[i] == word);
    }
    if next == word {
        assert(grown[items.len() as int] == word);
    }
    if grown.contains(word) {
        let i = choose|i: int| 0 <= i < grown.len() && grown[i] == word;
        if i < items.len() {
            assert(items[i] == word);
        }
    }
}

} // verus!
