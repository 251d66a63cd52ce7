//! Splitting of a merged schema into the resource, data-source and provider
//! configuration maps of one provider, and a core schema in which `resource`
//! and `data` stay as empty open objects for later extension.

use vstd::prelude::*;
use vstd::string::StringExecFns;

use crate::fields::{insert_field, remove_field};
use crate::intermediate::{
    attr_view, fields_view, Attribute, AttributeModel, FieldsModel, GoSchema, Type,
    TypeModel,
};

verus! {

/// The maps of one provider, and the schema that is left.
#[derive(Debug)]
pub struct SplitSchema {
    pub resources: Vec<(String, Attribute)>,
    pub data_sources: Vec<(String, Attribute)>,
    pub provider_schema: Vec<(String, Attribute)>,
    pub core_schema: GoSchema,
}

#[derive(Debug)]
pub enum SplitError {
    /// A top-level block is absent.
    MissingBlock { name: String },
    /// A top-level block is not an object.
    ExpectedObject { name: String },
    /// The `provider` block has no entry for the selected provider.
    MissingProvider { name: String },
    /// The selected provider's entry is not a list of objects.
    ExpectedObjectList { name: String },
}

pub open spec fn split_error_text(e: SplitError) -> Seq<char> {
    match e {
        SplitError::MissingBlock { name } => "missing block: "@ + name@,
        SplitError::ExpectedObject { name } => "expected object: "@ + name@,
        SplitError::MissingProvider { name } => "missing provider: "@ + name@,
        SplitError::ExpectedObjectList { name } => "expected list of objects: "@ + name@,
    }
}

impl SplitError {
    /// The error as text, naming the offending key.
    pub fn message(&self) -> (r: String)
        ensures
            r@ == split_error_text(*self),
    {
        match self {
            SplitError::MissingBlock { name } => String::from_str("missing block: ").concat(name.as_str()),
            SplitError::ExpectedObject { name } => String::from_str("expected object: ").concat(
                name.as_str(),
            ),
            SplitError::MissingProvider { name } => String::from_str("missing provider: ").concat(
                name.as_str(),
            ),
            SplitError::ExpectedObjectList { name } => String::from_str("expected list of objects: ").concat(
                name.as_str(),
            ),
        }
    }
}

/// What splitting a merged schema yields.
pub enum SplitModel {
    Split {
        resources: FieldsModel,
        data_sources: FieldsModel,
        provider_schema: FieldsModel,
        core: FieldsModel,
    },
    MissingBlock(Seq<char>),
    ExpectedObject(Seq<char>),
    MissingProvider(Seq<char>),
    ExpectedObjectList(Seq<char>),
}

/// A block kept in the core schema: an empty open object with its description.
pub open spec fn emptied(a: AttributeModel) -> AttributeModel {
    AttributeModel { type_: TypeModel::Object { open: true, content: Map::empty() }, ..a }
}

pub open spec fn split_model(m: FieldsModel, provider: Seq<char>) -> SplitModel {
    if !m.contains_key("resource"@) {
        SplitModel::MissingBlock("resource"@)
    } else if !(m["resource"@].type_ is Object) {
        SplitModel::ExpectedObject("resource"@)
    } else if !m.contains_key("data"@) {
        SplitModel::MissingBlock("data"@)
    } else if !(m["data"@].type_ is Object) {
        SplitModel::ExpectedObject("data"@)
    } else if !m.contains_key("provider"@) {
        SplitModel::MissingBlock("provider"@)
    } else if !(m["provider"@].type_ is Object) {
        SplitModel::ExpectedObject("provider"@)
    } else {
        let providers = m["provider"@].type_->Object_content;
        if !providers.contains_key(provider) {
            SplitModel::MissingProvider(provider)
        } else {
            match providers[provider].type_ {
                TypeModel::List { min: _, max: _, content } => match *content {
                    TypeModel::Object { open: _, content: configuration } => SplitModel::Split {
                        resources: m["resource"@].type_->Object_content,
                        data_sources: m["data"@].type_->Object_content,
                        provider_schema: configuration,
                        core: m.remove("provider"@).insert("resource"@, emptied(m["resource"@])).insert(
                            "data"@,
                            emptied(m["data"@]),
                        ),
                    },
                    _ => SplitModel::ExpectedObjectList(provider),
                },
                _ => SplitModel::ExpectedObjectList(provider),
            }
        }
    }
}

/// Takes the top-level block `name` out of `schema`; it must be an object.
fn take_block(schema: &mut Vec<(String, Attribute)>, name: String) -> (r: Result<
    (Attribute, Vec<(String, Attribute)>),
    SplitError,
>)
    ensures
        fields_view(final(schema)@) == fields_view(old(schema)@).remove(name@),
        !fields_view(old(schema)@).contains_key(name@) ==> (r matches Err(
            SplitError::MissingBlock { name: n },
        ) && n@ == name@),
        fields_view(old(schema)@).contains_key(name@) && !(fields_view(old(schema)@)[name@].type_ is Object)
            ==> (r matches Err(SplitError::ExpectedObject { name: n }) && n@ == name@),
        fields_view(old(schema)@).contains_key(name@) && fields_view(old(schema)@)[name@].type_ is Object
            ==> (r matches Ok((a, content)) && attr_view(a) == emptied(
            fields_view(old(schema)@)[name@],
        ) && fields_view(content@) == fields_view(old(schema)@)[name@].type_->Object_content),
{
    match remove_field(schema, &name) {
        None => Err(SplitError::MissingBlock { name }),
        Some(a) => {
            let Attribute { description, optional, interpolation, type_ } = a;
            match type_ {
                Type::Object { open: _, content } => Ok(
                    (
                        Attribute {
                            description,
                            optional,
                            interpolation,
                            type_: Type::Object { open: true, content: Vec::new() },
                        },
                        content,
                    ),
                ),
                _ => Err(SplitError::ExpectedObject { name }),
            }
        },
    }
}

impl GoSchema {
    /// Splits a schema whose computed fields are all anchored into the maps of
    /// the provider `provider` and the core schema.
    pub fn split(self, provider: &String) -> (r: Result<SplitSchema, SplitError>)
        requires
            self.computed_fields@.len() == 0,
        ensures
            match split_model(fields_view(self.schema@), provider@) {
                SplitModel::Split { resources, data_sources, provider_schema, core } => r matches Ok(
                    s,
                ) && fields_view(s.resources@) == resources && fields_view(s.data_sources@)
                    == data_sources && fields_view(s.provider_schema@) == provider_schema
                    && fields_view(s.core_schema.schema@) == core && s.core_schema.computed_fields@.len()
                    == 0,
                SplitModel::MissingBlock(n) => r matches Err(SplitError::MissingBlock { name })
                    && name@ == n,
                SplitModel::ExpectedObject(n) => r matches Err(SplitError::ExpectedObject { name })
                    && name@ == n,
                SplitModel::MissingProvider(n) => r matches Err(SplitError::MissingProvider { name })
                    && name@ == n,
                SplitModel::ExpectedObjectList(n) => r matches Err(
                    SplitError::ExpectedObjectList { name },
                ) && name@ == n,
            },
    {
        proof {
            reveal_strlit("resource");
            reveal_strlit("data");
            reveal_strlit("provider");
            assert("resource"@.len() != "data"@.len());
            assert("resource"@[0] != "provider"@[0]);
            assert("data"@.len() != "provider"@.len());
        }
        let GoSchema { computed_fields, schema } = self;
        let mut schema = schema;
        let ghost m = fields_view(schema@);
        let (resource_block, resources) = match take_block(&mut schema, String::from_str("resource")) {
            Ok(b) => b,
            Err(e) => {
                return Err(e);
            },
        };
        let (data_block, data_sources) = match take_block(&mut schema, String::from_str("data")) {
            Ok(b) => b,
            Err(e) => {
                return Err(e);
            },
        };
        let (_, providers) = match take_block(&mut schema, String::from_str("provider")) {
            Ok(b) => b,
            Err(e) => {
                return Err(e);
            },
        };
        let mut providers = providers;
        let configuration = match remove_field(&mut providers, provider) {
            Some(a) => a,
            None => {
                return Err(SplitError::MissingProvider { name: provider.clone() });
            },
        };
        let provider_schema = match configuration.type_ {
            Type::List { min: _, max: _, content } => match *content {
                Type::Object { open: _, content } => content,
                _ => {
                    return Err(SplitError::ExpectedObjectList { name: provider.clone() });
                },
            },
            _ => {
                return Err(SplitError::ExpectedObjectList { name: provider.clone() });
            },
        };
        insert_field(&mut schema, String::from_str("resource"), resource_block);
        insert_field(&mut schema, String::from_str("data"), data_block);
        proof {
            assert(fields_view(schema@) =~= m.remove("provider"@).insert("resource"@, emptied(m["resource"@])).insert(
                "data"@,
                emptied(m["data"@]),
            ));
        }
        Ok(
            SplitSchema {
                resources,
                data_sources,
                provider_schema,
                core_schema: GoSchema { computed_fields, schema },
            },
        )
    }
}

} // verus!
