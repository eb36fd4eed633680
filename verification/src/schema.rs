//! The enum definition as the host hands it over.
//!
//! These are plain records.  Nothing in them is interpreted yet: annotations
//! are lists of words and `key = value` pairs, and whatever the core does not
//! read travels along as text so that it can be put back unchanged.
//!
//! Each record has a mathematical model, its view, in which strings are
//! sequences of characters, lists are sequences and numbers are integers.
//! The contracts of this crate are stated over these models.

use crate::number::Number;
use vstd::prelude::*;

verus! {

/// What a variant carries.
#[derive(Clone, Debug, PartialEq, Eq)]
pub enum FieldShape {
    /// No fields.
    Unit,
    /// Fields without names; the count of them.
    Positional(usize),
    /// Fields with names, in declared order.
    Named(Vec<String>),
}

/// The right-hand side of a `key = value` pair.
#[derive(Clone, Debug, PartialEq, Eq)]
pub enum RawValue {
    /// A string literal; its contents without the quotes.
    Text(String),
    /// An integer literal, with its sign.
    Integer(Number),
    /// Anything else, as written.
    Other(String),
}

/// One argument of an annotation.
#[derive(Clone, Debug, PartialEq, Eq)]
pub enum MetaItem {
    /// A bare path, such as `Debug` in `derive(Debug)` or `u8` in `repr(u8)`.
    Word(String),
    /// `key = value`.
    Pair(String, RawValue),
    /// Anything else, as written, such as `align(4)`.
    Other(String),
}

/// An annotation attached to the enum or to one of its variants.
#[derive(Clone, Debug, PartialEq, Eq)]
pub struct Annotation {
    /// The path that names the annotation: `derive`, `repr`, `e`, `serde`, ...
    pub path: String,
    /// The arguments between the parentheses, in order; empty if there are
    /// none or if they are not a list of items.
    pub items: Vec<MetaItem>,
    /// The annotation as written.  The core never reads it; it is there so
    /// that an annotation that passes through can be put back unchanged.
    pub source: String,
}

/// One variant as declared.
#[derive(Clone, Debug, PartialEq, Eq)]
pub struct Variant {
    pub ident: String,
    pub shape: FieldShape,
    pub annotations: Vec<Annotation>,
    /// The integer literal after `=` in the declaration, if there is one.
    pub discriminant: Option<Number>,
}

/// One enum as declared.
#[derive(Clone, Debug, PartialEq, Eq)]
pub struct EnumDef {
    pub ident: String,
    /// The visibility marker as written; carried through untouched.
    pub visibility: String,
    pub annotations: Vec<Annotation>,
    /// The variants in declared order.
    pub variants: Vec<Variant>,
}

/// The model of a `FieldShape`.
pub enum FieldShapeModel {
    Unit,
    Positional(nat),
    Named(Seq<Seq<char>>),
}

/// The model of a `RawValue`.
pub enum RawValueModel {
    Text(Seq<char>),
    Integer(int),
    Other(Seq<char>),
}

/// The model of a `MetaItem`.
pub enum MetaItemModel {
    Word(Seq<char>),
    Pair(Seq<char>, RawValueModel),
    Other(Seq<char>),
}

/// The model of an `Annotation`.
pub struct AnnotationModel {
    pub path: Seq<char>,
    pub items: Seq<MetaItemModel>,
    pub source: Seq<char>,
}

/// The model of a `Variant`.
pub struct VariantModel {
    pub ident: Seq<char>,
    pub shape: FieldShapeModel,
    pub annotations: Seq<AnnotationModel>,
    pub discriminant: Option<int>,
}

/// The model of an `EnumDef`.
pub struct EnumDefModel {
    pub ident: Seq<char>,
    pub visibility: Seq<char>,
    pub annotations: Seq<AnnotationModel>,
    pub variants: Seq<VariantModel>,
}

impl View for FieldShape {
    type V = FieldShapeModel;

    open spec fn view(&self) -> FieldShapeModel {
        match self {
            FieldShape::Unit => FieldShapeModel::Unit,
            FieldShape::Positional(count) => FieldShapeModel::Positional(*count as nat),
            FieldShape::Named(names) => FieldShapeModel::Named(names.deep_view()),
        }
    }
}

impl DeepView for FieldShape {
    type V = FieldShapeModel;

    open spec fn deep_view(&self) -> FieldShapeModel {
        self@
    }
}

impl View for RawValue {
    type V = RawValueModel;

    open spec fn view(&self) -> RawValueModel {
        match self {
            RawValue::Text(text) => RawValueModel::Text(text@),
            RawValue::Integer(number) => RawValueModel::Integer(number@),
            RawValue::Other(source) => RawValueModel::Other(source@),
        }
    }
}

impl DeepView for RawValue {
    type V = RawValueModel;

    open spec fn deep_view(&self) -> RawValueModel {
        self@
    }
}

impl View for MetaItem {
    type V = MetaItemModel;

    open spec fn view(&self) -> MetaItemModel {
        match self {
            MetaItem::Word(word) => MetaItemModel::Word(word@),
            MetaItem::Pair(key, value) => MetaItemModel::Pair(key@, value@),
            MetaItem::Other(source) => MetaItemModel::Other(source@),
        }
    }
}

impl DeepView for MetaItem {
    type V = MetaItemModel;

    open spec fn deep_view(&self) -> MetaItemModel {
        self@
    }
}

impl View for Annotation {
    type V = AnnotationModel;

    open spec fn view(&self) -> AnnotationModel {
        AnnotationModel {
            path: self.path@,
            items: self.items.deep_view(),
            source: self.source@,
        }
    }
}

impl DeepView for Annotation {
    type V = AnnotationModel;

    open spec fn deep_view(&self) -> AnnotationModel {
        self@
    }
}

impl View for Variant {
    type V = VariantModel;

    open spec fn view(&self) -> VariantModel {
        VariantModel {
            ident: self.ident@,
            shape: self.shape@,
            annotations: self.annotations.deep_view(),
            discriminant: self.discriminant.deep_view(),
        }
    }
}

impl DeepView for Variant {
    type V = VariantModel;

    open spec fn deep_view(&self) -> VariantModel {
        self@
    }
}

impl View for EnumDef {
    type V = EnumDefModel;

    open spec fn view(&self) -> EnumDefModel {
        EnumDefModel {
            ident: self.ident@,
            visibility: self.visibility@,
            annotations: self.annotations.deep_view(),
            variants: self.variants.deep_view(),
        }
    }
}

impl DeepView for EnumDef {
    type V = EnumDefModel;

    open spec fn deep_view(&self) -> EnumDefModel {
        self@
    }
}

/// After a push, the models are those from before and the model of the new
/// element.
pub proof fn lemma_deep_view_push<T: DeepView>(before: Seq<T>, after: Seq<T>, last: T)
    requires
        after == before.push(last),
    ensures
        Seq::new(after.len(), |i: int| after[i].deep_view()) == Seq::new(
            before.len(),
            |i: int| before[i].deep_view(),
        ).push(last.deep_view()),
{
    assert(Seq::new(after.len(), |i: int| after[i].deep_view()) =~= Seq::new(
        before.len(),
        |i: int| before[i].deep_view(),
    ).push(last.deep_view()));
}

impl FieldShape {
    /// Whether the variant has no fields.
    pub open spec fn spec_is_unit(&self) -> bool {
        self is Unit
    }

    /// Whether the variant has no fields.
    #[verifier::when_used_as_spec(spec_is_unit)]
    pub fn is_unit(&self) -> (r: bool)
        ensures
            r == self.spec_is_unit(),
            r == (self@ is Unit),
    {
        match self {
            FieldShape::Unit => true,
            _ => false,
        }
    }
}

impl RawValue {
    /// A string literal with the contents `text`.
    pub fn text(text: &str) -> (r: RawValue)
        ensures
            r@ == RawValueModel::Text(text@),
    {
        RawValue::Text(text.to_owned())
    }

    /// An integer literal with the value `n`.
    pub fn integer(n: i128) -> (r: RawValue)
        ensures
            r@ == RawValueModel::Integer(n as int),
    {
        RawValue::Integer(Number::from_i128(n))
    }
}

impl MetaItem {
    /// The bare word `word`.
    pub fn word(word: &str) -> (r: MetaItem)
        ensures
            r@ == MetaItemModel::Word(word@),
    {
        MetaItem::Word(word.to_owned())
    }

    /// The pair `key = value`.
    pub fn pair(key: &str, value: RawValue) -> (r: MetaItem)
        ensures
            r@ == MetaItemModel::Pair(key@, value@),
    {
        MetaItem::Pair(key.to_owned(), value)
    }
}

impl Annotation {
    /// The annotation `path(items...)`, with no record of how it was
    /// written.
    pub fn new(path: &str, items: Vec<MetaItem>) -> (r: Annotation)
        ensures
            r@ == (AnnotationModel {
                path: path@,
                items: items.deep_view(),
                source: Seq::<char>::empty(),
            }),
    {
        Annotation { path: path.to_owned(), items, source: String::new() }
    }
}

impl Variant {
    /// A variant with the given identifier and shape, no annotations and no
    /// discriminant.
    pub fn new(ident: &str, shape: FieldShape) -> (r: Variant)
        ensures
            r@ == (VariantModel {
                ident: ident@,
                shape: shape@,
                annotations: Seq::<AnnotationModel>::empty(),
                discriminant: None,
            }),
    {
        let r = Variant {
            ident: ident.to_owned(),
            shape,
            annotations: Vec::new(),
            discriminant: None,
        };
        assert(r.annotations.deep_view() =~= Seq::empty());
        r
    }

    /// The same variant with `annotation` after those it has.
    pub fn with(self, annotation: Annotation) -> (r: Variant)
        ensures
            r@ == (VariantModel { annotations: self@.annotations.push(annotation@), ..self@ }),
    {
        let Variant { ident, shape, annotations, discriminant } = self;
        let mut annotations = annotations;
        let ghost before = annotations@;
        annotations.push(annotation);
        proof {
            lemma_deep_view_push(before, annotations@, annotation);
        }
        Variant { ident, shape, annotations, discriminant }
    }

    /// The same variant with the literal discriminant `n`.
    pub fn with_discriminant(self, n: Number) -> (r: Variant)
        ensures
            r@ == (VariantModel { discriminant: Some(n@), ..self@ }),
    {
        let Variant { ident, shape, annotations, discriminant: _ } = self;
        Variant { ident, shape, annotations, discriminant: Some(n) }
    }
}

impl EnumDef {
    /// An enum with the given identifier, no visibility marker, no
    /// annotations and no variants.
    pub fn new(ident: &str) -> (r: EnumDef)
        ensures
            r@ == (EnumDefModel {
                ident: ident@,
                visibility: Seq::<char>::empty(),
                annotations: Seq::<AnnotationModel>::empty(),
                variants: Seq::<VariantModel>::empty(),
            }),
    {
        let r = EnumDef {
            ident: ident.to_owned(),
            visibility: String::new(),
            annotations: Vec::new(),
            variants: Vec::new(),
        };
        assert(r.annotations.deep_view() =~= Seq::empty());
        assert(r.variants.deep_view() =~= Seq::empty());
        r
    }

    /// The same enum with `annotation` after those it has.
    pub fn with(self, annotation: Annotation) -> (r: EnumDef)
        ensures
            r@ == (EnumDefModel { annotations: self@.annotations.push(annotation@), ..self@ }),
    {
        let EnumDef { ident, visibility, annotations, variants } = self;
        let mut annotations = annotations;
        let ghost before = annotations@;
        annotations.push(annotation);
        proof {
            lemma_deep_view_push(before, annotations@, annotation);
        }
        EnumDef { ident, visibility, annotations, variants }
    }

    /// The same enum with `variant` after those it has.
    pub fn variant(self, variant: Variant) -> (r: EnumDef)
        ensures
            r@ == (EnumDefModel { variants: self@.variants.push(variant@), ..self@ }),
    {
        let EnumDef { ident, visibility, annotations, variants } = self;
        let mut variants = variants;
        let ghost before = variants@;
        variants.push(variant);
        proof {
            lemma_deep_view_push(before, variants@, variant);
        }
        EnumDef { ident, visibility, annotations, variants }
    }
}

/// Whether `text` spells exactly `word`.
pub fn text_is(text: &String, word: &str) -> (r: bool)
    ensures
        r == (text@ == word@),
{
    let other = word.to_owned();
    *text == other
}

} // verus!
