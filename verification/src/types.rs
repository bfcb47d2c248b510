//! Descriptions of the types that a tool takes as its arguments.

use crate::lookup::{lemma_position_found, lemma_position_missing, position};
use vstd::prelude::*;

verus! {

/// The model of a [`TypeDesc`].
pub enum TypeDescView {
    Text,
    Integer,
    Number,
    Boolean,
    List(Box<TypeDescView>),
    Optional(Box<TypeDescView>),
    Named(Seq<char>),
}

/// The type of one field or payload position.
#[derive(Debug, PartialEq, Eq)]
pub enum TypeDesc {
    /// A string.
    Text,
    /// An integer of any width.
    Integer,
    /// A floating-point number.
    Number,
    /// A truth value.
    Boolean,
    /// A sequence of items of one type.
    List(Box<TypeDesc>),
    /// A value that may be absent.
    Optional(Box<TypeDesc>),
    /// Another described type, by the name it is defined under.
    Named(String),
}

/// The model of a type.
pub open spec fn type_view(ty: TypeDesc) -> TypeDescView
    decreases ty,
{
    match ty {
        TypeDesc::Text => TypeDescView::Text,
        TypeDesc::Integer => TypeDescView::Integer,
        TypeDesc::Number => TypeDescView::Number,
        TypeDesc::Boolean => TypeDescView::Boolean,
        TypeDesc::List(item) => TypeDescView::List(Box::new(type_view(*item))),
        TypeDesc::Optional(inner) => TypeDescView::Optional(Box::new(type_view(*inner))),
        TypeDesc::Named(name) => TypeDescView::Named(name@),
    }
}

impl View for TypeDesc {
    type V = TypeDescView;

    open spec fn view(&self) -> TypeDescView {
        type_view(*self)
    }
}

impl Clone for TypeDesc {
    /// A copy of the type.
    fn clone(&self) -> (r: TypeDesc)
        ensures
            r@ == self@,
        decreases self,
    {
        match self {
            TypeDesc::Text => TypeDesc::Text,
            TypeDesc::Integer => TypeDesc::Integer,
            TypeDesc::Number => TypeDesc::Number,
            TypeDesc::Boolean => TypeDesc::Boolean,
            TypeDesc::List(item) => {
                let copy = (**item).clone();
                TypeDesc::List(Box::new(copy))
            },
            TypeDesc::Optional(inner) => {
                let copy = (**inner).clone();
                TypeDesc::Optional(Box::new(copy))
            },
            TypeDesc::Named(name) => TypeDesc::Named(name.clone()),
        }
    }
}

impl TypeDescView {
    /// Whether a value of the type may be absent.
    pub open spec fn is_option(self) -> bool {
        self is Optional
    }

    /// How deeply lists and optional types are nested in the type.
    pub open spec fn depth(self) -> nat
        decreases self,
    {
        match self {
            TypeDescView::List(item) => 1 + item.depth(),
            TypeDescView::Optional(inner) => 1 + inner.depth(),
            _ => 0,
        }
    }
}

impl TypeDesc {
    /// The type of a list of `item`s.
    pub fn list(item: TypeDesc) -> (r: TypeDesc)
        ensures
            r@ == TypeDescView::List(Box::new(item@)),
    {
        TypeDesc::List(Box::new(item))
    }

    /// The type of an `inner` that may be absent.
    pub fn optional(inner: TypeDesc) -> (r: TypeDesc)
        ensures
            r@ == TypeDescView::Optional(Box::new(inner@)),
    {
        TypeDesc::Optional(Box::new(inner))
    }

    /// The type that is defined under `name`.
    pub fn named(name: &str) -> (r: TypeDesc)
        ensures
            r@ == TypeDescView::Named(name@),
    {
        TypeDesc::Named(name.to_owned())
    }

    /// Whether a value of the type may be absent.
    pub fn is_option(&self) -> (r: bool)
        ensures
            r == self@.is_option(),
    {
        match self {
            TypeDesc::Optional(_) => true,
            _ => false,
        }
    }
}

/// The model of a [`Field`].
pub struct FieldView {
    pub name: Seq<char>,
    pub ty: TypeDescView,
    pub description: Seq<char>,
}

/// A named field of a record or of a variant.
#[derive(Debug, PartialEq, Eq)]
pub struct Field {
    pub name: String,
    pub ty: TypeDesc,
    /// What the field is for, in words; empty where nothing was said.
    pub description: String,
}

impl View for Field {
    type V = FieldView;

    open spec fn view(&self) -> FieldView {
        FieldView { name: self.name@, ty: self.ty@, description: self.description@ }
    }
}

/// The model of an [`Attribute`].
pub struct AttributeView {
    pub name: Seq<char>,
    pub text: Option<Seq<char>>,
}

/// An attribute on a declaration, such as `desc("..")`: its name, and the string that it
/// holds where it holds one string and nothing else.
#[derive(Debug, PartialEq, Eq)]
pub struct Attribute {
    pub name: String,
    pub text: Option<String>,
}

impl View for Attribute {
    type V = AttributeView;

    open spec fn view(&self) -> AttributeView {
        AttributeView {
            name: self.name@,
            text: match self.text {
                Some(text) => Some(text@),
                None => None,
            },
        }
    }
}

/// The models of a list of attributes.
pub open spec fn attribute_views(attrs: Seq<Attribute>) -> Seq<AttributeView> {
    attrs.map_values(|a: Attribute| a@)
}

/// Whether the attribute gives a description: it is named `desc` and holds a string.
pub open spec fn is_description(attr: AttributeView) -> bool {
    attr.name == "desc"@ && attr.text is Some
}

/// The description among the attributes: the string of the first that gives one, or the
/// empty string where none does.
pub open spec fn description_of(attrs: Seq<AttributeView>) -> Seq<char> {
    if exists|i: int| 0 <= i < attrs.len() && is_description(attrs[i]) {
        let first = choose|i: int|
            0 <= i < attrs.len() && is_description(attrs[i]) && forall|j: int|
                0 <= j < i ==> !is_description(attrs[j]);
        attrs[first].text.unwrap()
    } else {
        Seq::empty()
    }
}

/// The first attribute that gives a description is the one that counts.
pub proof fn lemma_description_at(attrs: Seq<AttributeView>, i: int)
    requires
        0 <= i < attrs.len(),
        is_description(attrs[i]),
        forall|j: int| 0 <= j < i ==> !is_description(attrs[j]),
    ensures
        description_of(attrs) == attrs[i].text.unwrap(),
{
    let first = choose|k: int|
        0 <= k < attrs.len() && is_description(attrs[k]) && forall|j: int|
            0 <= j < k ==> !is_description(attrs[j]);
    if first < i {
        assert(!is_description(attrs[first]));
    }
    if i < first {
        assert(!is_description(attrs[i]));
    }
}

/// The description that the attributes give.
pub fn get_desc(attrs: &Vec<Attribute>) -> (r: String)
    ensures
        r@ == description_of(attribute_views(attrs@)),
{
    let ghost all = attribute_views(attrs@);
    let wanted = "desc".to_owned();
    let mut i: usize = 0;
    while i < attrs.len()
        invariant
            i <= attrs.len(),
            wanted@ == "desc"@,
            all == attribute_views(attrs@),
            forall|j: int| 0 <= j < i ==> !is_description(all[j]),
        decreases attrs.len() - i,
    {
        assert(all[i as int] == attrs@[i as int]@);
        if attrs[i].name == wanted {
            match &attrs[i].text {
                Some(text) => {
                    proof {
                        lemma_description_at(all, i as int);
                    }
                    return text.clone();
                },
                None => {},
            }
        }
        i += 1;
    }
    String::new()
}

impl Field {
    /// The field `name` of the type `ty`, without a description.
    pub fn new(name: &str, ty: TypeDesc) -> (r: Field)
        ensures
            r@ == (FieldView { name: name@, ty: ty@, description: Seq::empty() }),
    {
        Field { name: name.to_owned(), ty, description: String::new() }
    }

    /// The field `name` of the type `ty`, with the description that `attrs` give.
    pub fn with_attributes(name: &str, ty: TypeDesc, attrs: &Vec<Attribute>) -> (r: Field)
        ensures
            r@ == (FieldView {
                name: name@,
                ty: ty@,
                description: description_of(attribute_views(attrs@)),
            }),
    {
        Field { name: name.to_owned(), ty, description: get_desc(attrs) }
    }
}

/// The model of a [`Payload`].
pub enum PayloadView {
    Unit,
    Tuple(Seq<TypeDescView>),
    Named(Seq<FieldView>),
}

/// What a variant of a tagged union carries.
#[derive(Debug, PartialEq, Eq)]
pub enum Payload {
    /// Nothing.
    Unit,
    /// Values by position.
    Tuple(Vec<TypeDesc>),
    /// Values by name.
    Named(Vec<Field>),
}

/// The models of a list of types.
pub open spec fn type_views(types: Seq<TypeDesc>) -> Seq<TypeDescView> {
    types.map_values(|t: TypeDesc| t@)
}

/// The models of a list of fields.
pub open spec fn field_views(fields: Seq<Field>) -> Seq<FieldView> {
    fields.map_values(|f: Field| f@)
}

impl View for Payload {
    type V = PayloadView;

    open spec fn view(&self) -> PayloadView {
        match self {
            Payload::Unit => PayloadView::Unit,
            Payload::Tuple(types) => PayloadView::Tuple(type_views(types@)),
            Payload::Named(fields) => PayloadView::Named(field_views(fields@)),
        }
    }
}

/// The model of a [`Variant`].
pub struct VariantView {
    pub name: Seq<char>,
    pub payload: PayloadView,
    pub description: Seq<char>,
}

/// One variant of a tagged union.
#[derive(Debug, PartialEq, Eq)]
pub struct Variant {
    pub name: String,
    pub payload: Payload,
    /// What the variant is for, in words; empty where nothing was said.
    pub description: String,
}

impl Variant {
    /// The variant `name` that carries nothing.
    pub fn unit(name: &str) -> (r: Variant)
        ensures
            r@ == (VariantView {
                name: name@,
                payload: PayloadView::Unit,
                description: Seq::empty(),
            }),
    {
        Variant { name: name.to_owned(), payload: Payload::Unit, description: String::new() }
    }

    /// The variant `name` that carries values of `types` by position.
    pub fn tuple(name: &str, types: Vec<TypeDesc>) -> (r: Variant)
        ensures
            r@ == (VariantView {
                name: name@,
                payload: PayloadView::Tuple(type_views(types@)),
                description: Seq::empty(),
            }),
    {
        Variant {
            name: name.to_owned(),
            payload: Payload::Tuple(types),
            description: String::new(),
        }
    }

    /// The variant `name` that carries `fields` by name.
    pub fn named(name: &str, fields: Vec<Field>) -> (r: Variant)
        ensures
            r@ == (VariantView {
                name: name@,
                payload: PayloadView::Named(field_views(fields@)),
                description: Seq::empty(),
            }),
    {
        Variant {
            name: name.to_owned(),
            payload: Payload::Named(fields),
            description: String::new(),
        }
    }

    /// The variant with the description that `attrs` give.
    pub fn with_attributes(self, attrs: &Vec<Attribute>) -> (r: Variant)
        ensures
            r@ == (VariantView { description: description_of(attribute_views(attrs@)), ..self@ }),
    {
        Variant { name: self.name, payload: self.payload, description: get_desc(attrs) }
    }
}

impl View for Variant {
    type V = VariantView;

    open spec fn view(&self) -> VariantView {
        VariantView {
            name: self.name@,
            payload: self.payload@,
            description: self.description@,
        }
    }
}

/// The models of a list of variants.
pub open spec fn variant_views(variants: Seq<Variant>) -> Seq<VariantView> {
    variants.map_values(|v: Variant| v@)
}

/// The model of an [`ArgumentType`].
pub enum ArgumentTypeView {
    Record { fields: Seq<FieldView> },
    Union { variants: Seq<VariantView>, description: Seq<char> },
}

/// The shape of a tool's input: a record of named fields, or a tagged union of variants.
#[derive(Debug, PartialEq, Eq)]
pub enum ArgumentType {
    Record { fields: Vec<Field> },
    Union {
        variants: Vec<Variant>,
        /// What the union is for, in words; empty where nothing was said.
        description: String,
    },
}

impl ArgumentType {
    /// The record of `fields`.
    pub fn record(fields: Vec<Field>) -> (r: ArgumentType)
        ensures
            r@ == (ArgumentTypeView::Record { fields: field_views(fields@) }),
    {
        ArgumentType::Record { fields }
    }

    /// The tagged union of `variants`, with the description that `attrs` give.
    pub fn union(variants: Vec<Variant>, attrs: &Vec<Attribute>) -> (r: ArgumentType)
        ensures
            r@ == (ArgumentTypeView::Union {
                variants: variant_views(variants@),
                description: description_of(attribute_views(attrs@)),
            }),
    {
        ArgumentType::Union { variants, description: get_desc(attrs) }
    }
}

impl View for ArgumentType {
    type V = ArgumentTypeView;

    open spec fn view(&self) -> ArgumentTypeView {
        match self {
            ArgumentType::Record { fields } => ArgumentTypeView::Record {
                fields: field_views(fields@),
            },
            ArgumentType::Union { variants, description } => ArgumentTypeView::Union {
                variants: variant_views(variants@),
                description: description@,
            },
        }
    }
}

/// The model of a [`NamedType`].
pub struct NamedTypeView {
    pub name: Seq<char>,
    pub definition: ArgumentTypeView,
}

/// A described type together with the name that other types refer to it by.
#[derive(Debug, PartialEq, Eq)]
pub struct NamedType {
    pub name: String,
    pub definition: ArgumentType,
}

impl View for NamedType {
    type V = NamedTypeView;

    open spec fn view(&self) -> NamedTypeView {
        NamedTypeView { name: self.name@, definition: self.definition@ }
    }
}

/// The models of a list of named types.
pub open spec fn named_type_views(types: Seq<NamedType>) -> Seq<NamedTypeView> {
    types.map_values(|t: NamedType| t@)
}

/// The names that a list of types is defined under, in order.
pub open spec fn type_names(types: Seq<NamedTypeView>) -> Seq<Seq<char>> {
    types.map_values(|t: NamedTypeView| t.name)
}

/// The named types that a description may refer to. Where two stand under one name, the
/// first is the one that the name means.
#[derive(Debug, PartialEq, Eq)]
pub struct TypeTable {
    pub types: Vec<NamedType>,
}

impl View for TypeTable {
    type V = Seq<NamedTypeView>;

    open spec fn view(&self) -> Seq<NamedTypeView> {
        named_type_views(self.types@)
    }
}

impl TypeTable {
    /// A table without types.
    pub fn new() -> (r: TypeTable)
        ensures
            r@ == Seq::<NamedTypeView>::empty(),
    {
        let r = TypeTable { types: Vec::new() };
        assert(r@ =~= Seq::<NamedTypeView>::empty());
        r
    }

    /// Adds `definition` under `name`, after the types that the table holds.
    pub fn define(&mut self, name: &str, definition: ArgumentType)
        ensures
            final(self)@ == old(self)@.push(
                NamedTypeView { name: name@, definition: definition@ },
            ),
    {
        self.types.push(NamedType { name: name.to_owned(), definition });
        assert(self@ =~= old(self)@.push(
            NamedTypeView { name: name@, definition: definition@ },
        ));
    }

    /// Where the type that `name` means stands in the table.
    pub fn find(&self, name: &String) -> (r: Option<usize>)
        ensures
            match r {
                Some(i) => position(type_names(self@), name@) == Some(i as int) && i
                    < self.types@.len(),
                None => position(type_names(self@), name@) is None,
            },
    {
        let mut i: usize = 0;
        while i < self.types.len()
            invariant
                i <= self.types.len(),
                forall|j: int| 0 <= j < i ==> type_names(self@)[j] != name@,
            decreases self.types.len() - i,
        {
            if self.types[i].name == *name {
                proof {
                    assert(type_names(self@)[i as int] == name@);
                    lemma_position_found(type_names(self@), name@, i as int);
                }
                return Some(i);
            }
            i += 1;
        }
        proof {
            lemma_position_missing(type_names(self@), name@);
        }
        None
    }
}

} // verus!
