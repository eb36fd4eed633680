//! The operations of a resolved enum.
//!
//! A variant is named by its position in declared order.
//!
//! Three operations read a variant: its display string, its index, and the
//! count of variants.  Two go the other way.  A number selects the first
//! variant without fields that has it as its index; variants with fields
//! cannot be selected by number.  A string selects the first variant that
//! has it as its display string, with or without fields: of a variant with
//! fields it recovers which variant it is, and every field is to be filled
//! with its type's default value, whatever the payload once was.
//! Where several variants share an index or a string, the first in declared
//! order is the one selected.

use crate::assign::ResolvedVariantModel;
use crate::error::{ConversionError, ConversionErrorModel};
use crate::number::Number;
use crate::structure::{ResolvedEnum, ResolvedEnumModel};
use vstd::prelude::*;
use vstd::string::StringExecFns;

verus! {

/// The position of the first variant that `wanted` holds of.
pub open spec fn first_where(
    variants: Seq<ResolvedVariantModel>,
    wanted: spec_fn(ResolvedVariantModel) -> bool,
) -> Option<int>
    decreases variants.len(),
{
    if variants.len() == 0 {
        None
    } else if first_where(variants.drop_last(), wanted) is Some {
        first_where(variants.drop_last(), wanted)
    } else if wanted(variants.last()) {
        Some(variants.len() - 1)
    } else {
        None
    }
}

/// `first_where` gives a position that `wanted` holds of and before which it
/// holds of none; it gives nothing only where `wanted` holds of no variant.
pub proof fn lemma_first_where(
    variants: Seq<ResolvedVariantModel>,
    wanted: spec_fn(ResolvedVariantModel) -> bool,
)
    ensures
        match first_where(variants, wanted) {
            Some(p) => 0 <= p < variants.len() && wanted(variants[p]) && forall|q: int|
                0 <= q < p ==> !wanted(#[trigger] variants[q]),
            None => forall|q: int| 0 <= q < variants.len() ==> !wanted(#[trigger] variants[q]),
        },
    decreases variants.len(),
{
    if variants.len() > 0 {
        lemma_first_where(variants.drop_last(), wanted);
        assert forall|q: int| 0 <= q < variants.len() - 1 implies variants.drop_last()[q]
            == variants[q] by {}
        match first_where(variants, wanted) {
            Some(p) => {
                assert forall|q: int| 0 <= q < p implies !wanted(#[trigger] variants[q]) by {
                    assert(variants.drop_last()[q] == variants[q]);
                }
            },
            None => {
                assert forall|q: int| 0 <= q < variants.len() implies !wanted(
                    #[trigger] variants[q],
                ) by {
                    if q < variants.len() - 1 {
                        assert(variants.drop_last()[q] == variants[q]);
                    }
                }
            },
        }
    }
}

impl ResolvedEnumModel {
    /// The display string of the variant at `position`.
    pub open spec fn value(self, position: int) -> Option<Seq<char>> {
        if 0 <= position < self.variants.len() {
            Some(self.variants[position].value)
        } else {
            None
        }
    }

    /// The index of the variant at `position`; zero where there is no such
    /// variant.
    pub open spec fn index(self, position: int) -> int {
        if 0 <= position < self.variants.len() {
            self.variants[position].index
        } else {
            0
        }
    }

    /// The count of variants.
    pub open spec fn variant_count(self) -> nat {
        self.variants.len()
    }

    /// What rendering the variant at `position` as text gives, where the
    /// enum has that operation.
    pub open spec fn rendered(self, position: int) -> Option<Seq<char>> {
        if self.capabilities.display {
            self.value(position)
        } else {
            None
        }
    }

    /// Whether the index of the variant at `position` had to stay at the
    /// previous value.
    pub open spec fn clamped(self, position: int) -> bool {
        0 <= position < self.variants.len() && self.variants[position].clamped
    }

    /// What is reported about an index that had to stay at the previous
    /// value.
    pub open spec fn overflow_message(self) -> Seq<char> {
        "Index overflow: enum "@ + self.ident + " index exceeds the range of "@ + self.repr().name()
    }

    /// The variant that `n` selects.
    pub open spec fn by_number(self, n: int) -> Option<int> {
        first_where(self.variants, |v: ResolvedVariantModel| v.shape is Unit && v.index == n)
    }

    /// The variant that `text` selects.
    pub open spec fn by_string(self, text: Seq<char>) -> Option<int> {
        first_where(self.variants, |v: ResolvedVariantModel| v.value == text)
    }

    /// The variant that `text` selects where identifiers count too: a
    /// display string comes first, and where none matches, the first
    /// variant with `text` as its identifier.
    pub open spec fn by_string_or_ident(self, text: Seq<char>) -> Option<int> {
        if self.by_string(text) is Some {
            self.by_string(text)
        } else {
            first_where(self.variants, |v: ResolvedVariantModel| v.ident == text)
        }
    }

    /// What the conversion from the number `n` gives.
    pub open spec fn number_to_variant(self, n: int) -> Result<int, ConversionErrorModel> {
        match self.by_number(n) {
            Some(position) => Ok(position),
            None => Err(
                ConversionErrorModel::InvalidNumber {
                    enum_name: self.ident,
                    repr: self.repr(),
                    value: n,
                },
            ),
        }
    }

    /// What the conversion from the string `text` gives.
    pub open spec fn string_to_variant(self, text: Seq<char>) -> Result<
        int,
        ConversionErrorModel,
    > {
        match self.by_string(text) {
            Some(position) => Ok(position),
            None => Err(ConversionErrorModel::InvalidString { enum_name: self.ident, input: text }),
        }
    }

    /// What the conversion from the string `text` gives where identifiers
    /// count too.
    pub open spec fn string_to_variant_permissive(self, text: Seq<char>) -> Result<
        int,
        ConversionErrorModel,
    > {
        match self.by_string_or_ident(text) {
            Some(position) => Ok(position),
            None => Err(ConversionErrorModel::InvalidString { enum_name: self.ident, input: text }),
        }
    }
}

/// What a result of a conversion stands for.
pub open spec fn converted(r: Result<usize, ConversionError>) -> Result<
    int,
    ConversionErrorModel,
> {
    match r {
        Ok(position) => Ok(position as int),
        Err(e) => Err(e@),
    }
}

impl ResolvedEnum {
    /// The count of declared variants, whatever their fields.
    pub fn variant_count(&self) -> (n: usize)
        ensures
            n == self@.variant_count(),
    {
        self.variants.len()
    }

    /// The display string of the variant at `position`, if there is such a
    /// variant.
    pub fn value(&self, position: usize) -> (r: Option<&str>)
        ensures
            r.deep_view() == self@.value(position as int),
    {
        if position < self.variants.len() {
            Some(self.variants[position].value.as_str())
        } else {
            None
        }
    }

    /// The index of the variant at `position`.  A position that names no
    /// variant gets zero.
    pub fn index(&self, position: usize) -> (n: Number)
        ensures
            n@ == self@.index(position as int),
    {
        if position < self.variants.len() {
            self.variants[position].index
        } else {
            Number::zero()
        }
    }

    /// The variant at `position` rendered as text: its display string.
    /// Gives nothing if the enum does not have this operation, or if there
    /// is no such variant.
    pub fn render(&self, position: usize) -> (r: Option<&str>)
        ensures
            r.deep_view() == self@.rendered(position as int),
    {
        if self.capabilities.display {
            self.value(position)
        } else {
            None
        }
    }

    /// The report on the variant at `position` if its index had to stay at
    /// the previous value; nothing if it did not.  Such a report is a
    /// warning: synthesis has succeeded.
    pub fn overflow_warning(&self, position: usize) -> (r: Option<String>)
        ensures
            r.deep_view() == if self@.clamped(position as int) {
                Some(self@.overflow_message())
            } else {
                None
            },
    {
        if position < self.variants.len() && self.variants[position].clamped {
            let mut text = String::from_str("Index overflow: enum ");
            text.append(self.ident.as_str());
            text.append(" index exceeds the range of ");
            text.append(self.representation.ty.as_str());
            Some(text)
        } else {
            None
        }
    }

    /// The message of the error that `number_to_variant` returns.  It is the
    /// same for every number.
    pub fn number_error_message(&self) -> (text: String)
        ensures
            text@ == ConversionErrorModel::number_message(self@.ident, self@.repr()),
    {
        let mut text = String::from_str("Invalid value ");
        text.append(self.representation.ty.as_str());
        text.append(" for enum \"");
        text.append(self.ident.as_str());
        text.append("\"");
        text
    }

    /// The two parts of the message of the error that `string_to_variant`
    /// returns: what stands before the string that selected nothing, and
    /// what stands after it.
    pub fn string_error_frame(&self) -> (r: (String, String))
        ensures
            r.0@ == ConversionErrorModel::string_head(),
            r.1@ == ConversionErrorModel::string_tail(self@.ident),
    {
        let head = String::from_str("Invalid string value \"");
        let mut tail = String::from_str("\" for enum \"");
        tail.append(self.ident.as_str());
        tail.append("\"");
        (head, tail)
    }

    /// The position of the variant that the number selects: the first
    /// variant without fields whose index is `n`.
    pub fn number_to_variant(&self, n: &Number) -> (r: Result<usize, ConversionError>)
        ensures
            converted(r) == self@.number_to_variant(n@),
    {
        let ghost wanted = |v: ResolvedVariantModel| v.shape is Unit && v.index == n@;
        let ghost all = self@.variants;
        for k in 0..self.variants.len()
            invariant
                all == self@.variants,
                wanted == (|v: ResolvedVariantModel| v.shape is Unit && v.index == n@),
                first_where(all.take(k as int), wanted) is None,
        {
            proof {
                assert(all.take(k + 1).drop_last() == all.take(k as int));
                assert(all.take(k + 1).last() == self.variants@[k as int]@);
            }
            if self.variants[k].selectable_by_number() && self.variants[k].index.equals(n) {
                proof {
                    lemma_first_where_extends(all, wanted, k + 1);
                }
                return Ok(k);
            }
        }
        proof {
            assert(all.take(all.len() as int) == all);
        }
        Err(
            ConversionError::InvalidNumber {
                enum_name: self.ident.clone(),
                repr: self.representation.ty,
                value: *n,
            },
        )
    }

    /// The position of the variant that the string selects: the first
    /// variant whose display string is `text`.
    pub fn string_to_variant(&self, text: &str) -> (r: Result<usize, ConversionError>)
        ensures
            converted(r) == self@.string_to_variant(text@),
    {
        let input = text.to_owned();
        match self.find_by_value(&input) {
            Some(k) => Ok(k),
            None => Err(ConversionError::InvalidString { enum_name: self.ident.clone(), input }),
        }
    }

    /// As `string_to_variant`, but a string that is no variant's display
    /// string may still be a variant's identifier: it then selects the first
    /// variant with that identifier.
    pub fn string_to_variant_permissive(&self, text: &str) -> (r: Result<usize, ConversionError>)
        ensures
            converted(r) == self@.string_to_variant_permissive(text@),
    {
        let input = text.to_owned();
        match self.find_by_value(&input) {
            Some(k) => Ok(k),
            None => match self.find_by_ident(&input) {
                Some(k) => Ok(k),
                None => Err(
                    ConversionError::InvalidString { enum_name: self.ident.clone(), input },
                ),
            },
        }
    }

    /// The first variant whose display string is `text`.
    fn find_by_value(&self, text: &String) -> (r: Option<usize>)
        ensures
            position_view(r) == self@.by_string(text@),
    {
        let ghost wanted = |v: ResolvedVariantModel| v.value == text@;
        let ghost all = self@.variants;
        for k in 0..self.variants.len()
            invariant
                all == self@.variants,
                wanted == (|v: ResolvedVariantModel| v.value == text@),
                first_where(all.take(k as int), wanted) is None,
        {
            proof {
                assert(all.take(k + 1).drop_last() == all.take(k as int));
                assert(all.take(k + 1).last() == self.variants@[k as int]@);
            }
            if self.variants[k].value == *text {
                proof {
                    lemma_first_where_extends(all, wanted, k + 1);
                }
                return Some(k);
            }
        }
        proof {
            assert(all.take(all.len() as int) == all);
        }
        None
    }

    /// The first variant whose identifier is `text`.
    fn find_by_ident(&self, text: &String) -> (r: Option<usize>)
        ensures
            position_view(r) == first_where(
                self@.variants,
                |v: ResolvedVariantModel| v.ident == text@,
            ),
    {
        let ghost wanted = |v: ResolvedVariantModel| v.ident == text@;
        let ghost all = self@.variants;
        for k in 0..self.variants.len()
            invariant
                all == self@.variants,
                wanted == (|v: ResolvedVariantModel| v.ident == text@),
                first_where(all.take(k as int), wanted) is None,
        {
            proof {
                assert(all.take(k + 1).drop_last() == all.take(k as int));
                assert(all.take(k + 1).last() == self.variants@[k as int]@);
            }
            if self.variants[k].ident == *text {
                proof {
                    lemma_first_where_extends(all, wanted, k + 1);
                }
                return Some(k);
            }
        }
        proof {
            assert(all.take(all.len() as int) == all);
        }
        None
    }
}

/// An optional position as an integer.
pub open spec fn position_view(position: Option<usize>) -> Option<int> {
    match position {
        Some(p) => Some(p as int),
        None => None,
    }
}

/// A match among the first `n` variants is the match among all of them.
proof fn lemma_first_where_extends(
    variants: Seq<ResolvedVariantModel>,
    wanted: spec_fn(ResolvedVariantModel) -> bool,
    n: int,
)
    requires
        0 <= n <= variants.len(),
        first_where(variants.take(n), wanted) is Some,
    ensures
        first_where(variants, wanted) == first_where(variants.take(n), wanted),
    decreases variants.len() - n,
{
    if n < variants.len() {
        assert(variants.take(n + 1).drop_last() == variants.take(n));
        lemma_first_where_extends(variants, wanted, n + 1);
    } else {
        assert(variants.take(n) == variants);
    }
}

} // verus!
