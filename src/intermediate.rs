//! The intermediate schema tree and its mathematical model.
//!
//! A field map is held as a sequence of `(name, attribute)` entries. Its meaning
//! is the map from names to attribute models in which a later entry for a name
//! overrides an earlier one, so the order of distinct names never matters.

use vstd::prelude::*;

verus! {

/// Whether a field's value comes from the configuration author or is computed
/// by the provider (optionally forced to the computed placeholder).
#[derive(Debug, Clone, Copy, PartialEq, Eq, Structural)]
pub enum InterpolationStrategy {
    UserSupplied,
    ProviderComputed { force: bool },
}

/// A computed field below a dictionary: `path` may hold the wildcard `"_"`.
#[derive(Debug, PartialEq)]
pub struct FieldDescriptor {
    pub force: bool,
    pub path: Vec<String>,
}

#[derive(Debug, PartialEq)]
pub struct Attribute {
    pub description: Option<String>,
    pub optional: bool,
    pub interpolation: InterpolationStrategy,
    pub type_: Type,
}

#[derive(Debug, PartialEq)]
pub enum Type {
    Dynamic,
    String,
    Number,
    Bool,
    List { min: Option<u32>, max: Option<u32>, content: Box<Type> },
    Object { open: bool, content: Vec<(String, Attribute)> },
    Dictionary { inner: Box<Type>, prefix: Vec<String>, computed_fields: Vec<FieldDescriptor> },
}

/// The merged schema together with the computed-field descriptors that still
/// have to be anchored on dictionaries.
#[derive(Debug, PartialEq)]
pub struct GoSchema {
    pub computed_fields: Vec<FieldDescriptor>,
    pub schema: Vec<(String, Attribute)>,
}

/// Model of a [`FieldDescriptor`].
pub struct FieldDescriptorModel {
    pub force: bool,
    pub path: Seq<Seq<char>>,
}

/// Model of an [`Attribute`].
pub struct AttributeModel {
    pub description: Option<Seq<char>>,
    pub optional: bool,
    pub interpolation: InterpolationStrategy,
    pub type_: TypeModel,
}

/// Model of a [`Type`]: object content is a map from field names.
pub enum TypeModel {
    Dynamic,
    String,
    Number,
    Bool,
    List { min: Option<u32>, max: Option<u32>, content: Box<TypeModel> },
    Object { open: bool, content: Map<Seq<char>, AttributeModel> },
    Dictionary {
        inner: Box<TypeModel>,
        prefix: Seq<Seq<char>>,
        computed_fields: Seq<FieldDescriptorModel>,
    },
}

pub type FieldsModel = Map<Seq<char>, AttributeModel>;

impl View for FieldDescriptor {
    type V = FieldDescriptorModel;

    open spec fn view(&self) -> FieldDescriptorModel {
        FieldDescriptorModel { force: self.force, path: self.path.deep_view() }
    }
}

pub open spec fn descriptors_view(s: Seq<FieldDescriptor>) -> Seq<FieldDescriptorModel> {
    s.map_values(|f: FieldDescriptor| f@)
}

pub open spec fn text_view(s: Option<String>) -> Option<Seq<char>> {
    match s {
        Some(t) => Some(t@),
        None => None,
    }
}

pub open spec fn attr_view(a: Attribute) -> AttributeModel
    decreases a,
{
    AttributeModel {
        description: text_view(a.description),
        optional: a.optional,
        interpolation: a.interpolation,
        type_: type_view(a.type_),
    }
}

pub open spec fn type_view(t: Type) -> TypeModel
    decreases t,
{
    match t {
        Type::Dynamic => TypeModel::Dynamic,
        Type::String => TypeModel::String,
        Type::Number => TypeModel::Number,
        Type::Bool => TypeModel::Bool,
        Type::List { min, max, content } => TypeModel::List {
            min,
            max,
            content: Box::new(type_view(*content)),
        },
        Type::Object { open, content } => TypeModel::Object {
            open,
            content: fields_view(content@),
        },
        Type::Dictionary { inner, prefix, computed_fields } => TypeModel::Dictionary {
            inner: Box::new(type_view(*inner)),
            prefix: prefix.deep_view(),
            computed_fields: descriptors_view(computed_fields@),
        },
    }
}

/// The map that a sequence of entries denotes: a later entry wins.
pub open spec fn fields_view(s: Seq<(String, Attribute)>) -> FieldsModel
    decreases s,
{
    if s.len() == 0 {
        Map::empty()
    } else {
        fields_view(s.drop_last()).insert(s.last().0@, attr_view(s.last().1))
    }
}

impl Type {
    /// A dictionary of `inner` values that no computed field is anchored on yet.
    pub fn dictionary_of(inner: Type) -> (r: Type)
        ensures
            type_view(r) == (TypeModel::Dictionary {
                inner: Box::new(type_view(inner)),
                prefix: Seq::empty(),
                computed_fields: Seq::empty(),
            }),
    {
        let prefix: Vec<String> = Vec::new();
        let computed_fields: Vec<FieldDescriptor> = Vec::new();
        assert(prefix.deep_view() =~= Seq::empty());
        assert(descriptors_view(computed_fields@) =~= Seq::empty());
        Type::Dictionary { inner: Box::new(inner), prefix, computed_fields }
    }
}

impl View for Attribute {
    type V = AttributeModel;

    open spec fn view(&self) -> AttributeModel {
        attr_view(*self)
    }
}

impl View for Type {
    type V = TypeModel;

    open spec fn view(&self) -> TypeModel {
        type_view(*self)
    }
}

} // verus!
