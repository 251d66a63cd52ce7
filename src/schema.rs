//! Assembly of a provider's raw schema into the merged schema: the top-level
//! blocks `resource`, `data` and `provider`, with the meta-arguments added.

use vstd::prelude::*;
use vstd::string::StringExecFns;

use crate::augment::{
    add_common_fields, add_lifecycle_field, add_null_resource, add_provisioner_field,
    common_model, lifecycle_model, null_resource_model, optional_field, provisioner_model,
};
use crate::fields::{insert_field, lemma_fields_view_push, remove_field};
use crate::intermediate::{
    attr_view, fields_view, text_view, type_view, Attribute, AttributeModel, FieldsModel,
    InterpolationStrategy, Type, TypeModel,
};
use crate::projection::{
    block_failure, block_model, clone_text, failure_view, project_block, ProjectionError,
    ProjectionFailure,
};
use crate::terraform::{TFBlock, TFBlockSchema, TFProviderSchema};

verus! {

/// One resource or data-source type: a dictionary of named instances.
pub open spec fn instances_model(description: Option<Seq<char>>, fields: FieldsModel) -> AttributeModel {
    AttributeModel {
        description,
        optional: true,
        interpolation: InterpolationStrategy::UserSupplied,
        type_: TypeModel::Dictionary {
            inner: Box::new(TypeModel::Object { open: false, content: fields }),
            prefix: Seq::empty(),
            computed_fields: Seq::empty(),
        },
    }
}

/// The fields of a resource: its own, then the resource meta-arguments.
pub open spec fn resource_fields_model(b: TFBlock) -> FieldsModel {
    provisioner_model(lifecycle_model(common_model(block_model(b))))
}

/// The fields of a data source: its own, then the common meta-arguments.
pub open spec fn data_source_fields_model(b: TFBlock) -> FieldsModel {
    common_model(block_model(b))
}

pub open spec fn types_model(s: Seq<(String, TFBlockSchema)>, resource: bool) -> FieldsModel
    decreases s.len(),
{
    if s.len() == 0 {
        Map::empty()
    } else {
        let b = s.last().1.block;
        types_model(s.drop_last(), resource).insert(
            s.last().0@,
            instances_model(
                text_view(b.description),
                if resource {
                    resource_fields_model(b)
                } else {
                    data_source_fields_model(b)
                },
            ),
        )
    }
}

/// The first failure in projecting the blocks of `s`, each at its own name.
pub open spec fn types_failure(s: Seq<(String, TFBlockSchema)>) -> Option<ProjectionFailure>
    decreases s.len(),
{
    if s.len() == 0 {
        None
    } else {
        match types_failure(s.drop_last()) {
            Some(f) => Some(f),
            None => block_failure(s.last().1.block, seq![s.last().0@]),
        }
    }
}

proof fn lemma_types_failure_stays(s: Seq<(String, TFBlockSchema)>, k: int)
    requires
        0 <= k <= s.len(),
        types_failure(s.take(k)) is Some,
    ensures
        types_failure(s) == types_failure(s.take(k)),
    decreases s.len() - k,
{
    if k == s.len() {
        assert(s.take(k) =~= s);
    } else {
        assert(s.take(k + 1).drop_last() =~= s.take(k));
        lemma_types_failure_stays(s, k + 1);
    }
}

/// The configuration of a provider: a list of configuration objects.
pub open spec fn provider_config_model(b: TFBlock) -> AttributeModel {
    AttributeModel {
        description: text_view(b.description),
        optional: true,
        interpolation: InterpolationStrategy::UserSupplied,
        type_: TypeModel::List {
            min: None,
            max: None,
            content: Box::new(TypeModel::Object { open: false, content: block_model(b) }),
        },
    }
}

pub open spec fn top_block(content: FieldsModel) -> AttributeModel {
    optional_field(TypeModel::Object { open: false, content })
}

/// The first failure in projecting the schema of the provider `name`:
/// resources, then data sources, then the provider's own configuration.
pub open spec fn provider_schema_failure(name: Seq<char>, raw: TFProviderSchema) -> Option<ProjectionFailure> {
    match types_failure(raw.resource_schemas@) {
        Some(f) => Some(f),
        None => match types_failure(raw.data_source_schemas@) {
            Some(f) => Some(f),
            None => block_failure(raw.provider.block, seq![name]),
        },
    }
}

/// The merged schema of the provider `name`.
pub open spec fn provider_schema_model(name: Seq<char>, raw: TFProviderSchema) -> FieldsModel {
    Map::empty().insert("resource"@, top_block(types_model(raw.resource_schemas@, true))).insert(
        "data"@,
        top_block(types_model(raw.data_source_schemas@, false)),
    ).insert(
        "provider"@,
        top_block(Map::empty().insert(name, provider_config_model(raw.provider.block))),
    )
}

fn top_attribute(content: Vec<(String, Attribute)>) -> (r: Attribute)
    ensures
        attr_view(r) == top_block(fields_view(content@)),
{
    Attribute {
        description: None,
        optional: true,
        interpolation: InterpolationStrategy::UserSupplied,
        type_: Type::Object { open: false, content },
    }
}

/// Projects resource (`resource`) or data-source types, adding the
/// meta-arguments that each kind accepts.
pub fn project_types(s: &Vec<(String, TFBlockSchema)>, resource: bool) -> (r: Result<
    Vec<(String, Attribute)>,
    ProjectionError,
>)
    ensures
        match r {
            Ok(v) => types_failure(s@) is None && fields_view(v@) == types_model(s@, resource),
            Err(e) => types_failure(s@) == Some(failure_view(e)),
        },
{
    let mut out: Vec<(String, Attribute)> = Vec::new();
    let mut i: usize = 0;
    while i < s.len()
        invariant
            i <= s@.len(),
            types_failure(s@.take(i as int)) is None,
            fields_view(out@) == types_model(s@.take(i as int), resource),
        decreases s@.len() - i,
    {
        let mut path: Vec<String> = Vec::new();
        path.push(s[i].0.clone());
        proof {
            assert(path.deep_view() =~= seq![s@[i as int].0@]);
            assert(s@.take(i + 1).drop_last() =~= s@.take(i as int));
            assert(s@.take(i + 1).last() == s@[i as int]);
        }
        let mut fields = match project_block(&s[i].1.block, &path) {
            Ok(f) => f,
            Err(e) => {
                proof {
                    lemma_types_failure_stays(s@, i + 1);
                }
                return Err(e);
            },
        };
        add_common_fields(&mut fields);
        if resource {
            add_lifecycle_field(&mut fields);
            add_provisioner_field(&mut fields);
        }
        let entry = Attribute {
            description: clone_text(&s[i].1.block.description),
            optional: true,
            interpolation: InterpolationStrategy::UserSupplied,
            type_: Type::dictionary_of(Type::Object { open: false, content: fields }),
        };
        let e = (s[i].0.clone(), entry);
        proof {
            lemma_fields_view_push(out@, e);
        }
        out.push(e);
        i = i + 1;
    }
    proof {
        assert(s@.take(s@.len() as int) =~= s@);
    }
    Ok(out)
}

/// Projects the raw schema of the provider `name` into the merged schema.
pub fn project_provider_schema(name: &String, raw: &TFProviderSchema) -> (r: Result<
    Vec<(String, Attribute)>,
    ProjectionError,
>)
    ensures
        match r {
            Ok(v) => provider_schema_failure(name@, *raw) is None && fields_view(v@)
                == provider_schema_model(name@, *raw),
            Err(e) => provider_schema_failure(name@, *raw) == Some(failure_view(e)),
        },
{
    let resources = match project_types(&raw.resource_schemas, true) {
        Ok(v) => v,
        Err(e) => {
            return Err(e);
        },
    };
    let data_sources = match project_types(&raw.data_source_schemas, false) {
        Ok(v) => v,
        Err(e) => {
            return Err(e);
        },
    };
    let mut path: Vec<String> = Vec::new();
    path.push(name.clone());
    assert(path.deep_view() =~= seq![name@]);
    let config = match project_block(&raw.provider.block, &path) {
        Ok(v) => v,
        Err(e) => {
            return Err(e);
        },
    };
    let config_type = Type::Object { open: false, content: config };
    assert(type_view(config_type) == TypeModel::Object { open: false, content: block_model(raw.provider.block) });
    let configuration = Attribute {
        description: clone_text(&raw.provider.block.description),
        optional: true,
        interpolation: InterpolationStrategy::UserSupplied,
        type_: Type::List { min: None, max: None, content: Box::new(config_type) },
    };
    let mut providers: Vec<(String, Attribute)> = Vec::new();
    insert_field(&mut providers, name.clone(), configuration);
    let mut schema: Vec<(String, Attribute)> = Vec::new();
    insert_field(&mut schema, String::from_str("resource"), top_attribute(resources));
    insert_field(&mut schema, String::from_str("data"), top_attribute(data_sources));
    insert_field(&mut schema, String::from_str("provider"), top_attribute(providers));
    Ok(schema)
}

/// `m` with the no-op resource set among the resource types, when `m` has a
/// `resource` block that is an object.
pub open spec fn with_null_resource(m: FieldsModel) -> FieldsModel {
    if m.contains_key("resource"@) {
        let a = m["resource"@];
        match a.type_ {
            TypeModel::Object { open, content } => m.insert(
                "resource"@,
                AttributeModel {
                    type_: TypeModel::Object {
                        open,
                        content: content.insert("null_resource"@, null_resource_model()),
                    },
                    ..a
                },
            ),
            _ => m,
        }
    } else {
        m
    }
}

/// Sets the no-op resource among the resource types of a merged schema.
pub fn inject_null_resource(schema: &mut Vec<(String, Attribute)>)
    ensures
        fields_view(final(schema)@) == with_null_resource(fields_view(old(schema)@)),
{
    let key = String::from_str("resource");
    let ghost m = fields_view(schema@);
    match remove_field(schema, &key) {
        Some(a) => {
            let ghost av = attr_view(a);
            let Attribute { description, optional, interpolation, type_ } = a;
            let type_ = match type_ {
                Type::Object { open, content } => {
                    let mut content = content;
                    add_null_resource(&mut content);
                    Type::Object { open, content }
                },
                other => other,
            };
            let updated = Attribute { description, optional, interpolation, type_ };
            insert_field(schema, key, updated);
            proof {
                assert(fields_view(schema@) =~= with_null_resource(m));
            }
        },
        None => {
            proof {
                assert(fields_view(schema@) =~= m);
            }
        },
    }
}

} // verus!
