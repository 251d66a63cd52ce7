//! Meta-arguments that every resource or data source accepts besides its own
//! fields: a dependency list, a provider selector, lifecycle controls and
//! provisioners, and the no-op resource that carries provisioners on its own.
//!
//! Each augmentation sets fields by name at the level of the map it is given;
//! it never looks into the fields' own types.

use vstd::prelude::*;
use vstd::string::StringExecFns;

use crate::fields::insert_field;
use crate::intermediate::{
    attr_view, fields_view, type_view, Attribute, AttributeModel, FieldsModel,
    InterpolationStrategy, Type, TypeModel,
};

verus! {

pub open spec fn optional_field(t: TypeModel) -> AttributeModel {
    AttributeModel {
        description: None,
        optional: true,
        interpolation: InterpolationStrategy::UserSupplied,
        type_: t,
    }
}

pub open spec fn string_list() -> TypeModel {
    TypeModel::List { min: None, max: None, content: Box::new(TypeModel::String) }
}

pub open spec fn string_dictionary() -> TypeModel {
    TypeModel::Dictionary {
        inner: Box::new(TypeModel::String),
        prefix: Seq::empty(),
        computed_fields: Seq::empty(),
    }
}

/// Adds the dependency list and the provider selector.
pub open spec fn common_model(m: FieldsModel) -> FieldsModel {
    m.insert("depends_on"@, optional_field(string_list())).insert(
        "provider"@,
        optional_field(TypeModel::String),
    )
}

pub open spec fn lifecycle_block() -> TypeModel {
    TypeModel::Object {
        open: false,
        content: Map::empty().insert("create_before_destroy"@, optional_field(TypeModel::Bool)).insert(
            "prevent_destroy"@,
            optional_field(TypeModel::Bool),
        ).insert("ignore_changes"@, optional_field(string_list())).insert(
            "replace_triggered_by"@,
            optional_field(string_list()),
        ),
    }
}

/// Adds the lifecycle controls of a resource.
pub open spec fn lifecycle_model(m: FieldsModel) -> FieldsModel {
    m.insert("lifecycle"@, optional_field(lifecycle_block()))
}

pub open spec fn local_exec_block() -> TypeModel {
    TypeModel::Object {
        open: false,
        content: Map::empty().insert("command"@, optional_field(TypeModel::String)).insert(
            "working_dir"@,
            optional_field(TypeModel::String),
        ).insert("interpreter"@, optional_field(string_list())).insert(
            "environment"@,
            optional_field(string_dictionary()),
        ),
    }
}

pub open spec fn remote_exec_block() -> TypeModel {
    TypeModel::Object {
        open: false,
        content: Map::empty().insert("inline"@, optional_field(string_list())).insert(
            "script"@,
            optional_field(TypeModel::String),
        ).insert("scripts"@, optional_field(string_list())),
    }
}

pub open spec fn provisioner_block() -> TypeModel {
    TypeModel::Object {
        open: false,
        content: Map::empty().insert("local-exec"@, optional_field(local_exec_block())).insert(
            "remote-exec"@,
            optional_field(remote_exec_block()),
        ),
    }
}

/// Adds the provisioners of a resource.
pub open spec fn provisioner_model(m: FieldsModel) -> FieldsModel {
    m.insert("provisioner"@, optional_field(provisioner_block()))
}

/// The no-op resource: a dictionary of instances with one field, `triggers`.
pub open spec fn null_resource_model() -> AttributeModel {
    optional_field(
        TypeModel::Dictionary {
            inner: Box::new(
                TypeModel::Object {
                    open: false,
                    content: Map::empty().insert("triggers"@, optional_field(string_dictionary())),
                },
            ),
            prefix: Seq::empty(),
            computed_fields: Seq::empty(),
        },
    )
}

/// Applying an augmentation twice sets the same fields as applying it once.
pub proof fn lemma_augmentation_idempotent(m: FieldsModel)
    ensures
        common_model(common_model(m)) == common_model(m),
        lifecycle_model(lifecycle_model(m)) == lifecycle_model(m),
        provisioner_model(provisioner_model(m)) == provisioner_model(m),
{
    reveal_strlit("depends_on");
    reveal_strlit("provider");
    assert(common_model(common_model(m)) =~= common_model(m));
    assert(lifecycle_model(lifecycle_model(m)) =~= lifecycle_model(m));
    assert(provisioner_model(provisioner_model(m)) =~= provisioner_model(m));
}

/// The augmentations may be applied in any order.
pub proof fn lemma_augmentation_order_independent(m: FieldsModel)
    ensures
        common_model(lifecycle_model(m)) == lifecycle_model(common_model(m)),
        common_model(provisioner_model(m)) == provisioner_model(common_model(m)),
        lifecycle_model(provisioner_model(m)) == provisioner_model(lifecycle_model(m)),
{
    reveal_strlit("depends_on");
    reveal_strlit("provider");
    reveal_strlit("lifecycle");
    reveal_strlit("provisioner");
    assert("depends_on"@.len() == 10 && "provider"@.len() == 8);
    assert("lifecycle"@.len() == 9 && "provisioner"@.len() == 11);
    assert(common_model(lifecycle_model(m)) =~= lifecycle_model(common_model(m)));
    assert(common_model(provisioner_model(m)) =~= provisioner_model(common_model(m)));
    assert(lifecycle_model(provisioner_model(m)) =~= provisioner_model(lifecycle_model(m)));
}

fn optional_attribute(t: Type) -> (r: Attribute)
    ensures
        attr_view(r) == optional_field(type_view(t)),
{
    Attribute {
        description: None,
        optional: true,
        interpolation: InterpolationStrategy::UserSupplied,
        type_: t,
    }
}

fn string_list_type() -> (r: Type)
    ensures
        type_view(r) == string_list(),
{
    assert(type_view(Type::String) == TypeModel::String);
    Type::List { min: None, max: None, content: Box::new(Type::String) }
}

fn string_dictionary_type() -> (r: Type)
    ensures
        type_view(r) == string_dictionary(),
{
    assert(type_view(Type::String) == TypeModel::String);
    Type::dictionary_of(Type::String)
}

fn closed_object(content: Vec<(String, Attribute)>) -> (r: Type)
    ensures
        type_view(r) == (TypeModel::Object { open: false, content: fields_view(content@) }),
{
    Type::Object { open: false, content }
}

fn lifecycle_type() -> (r: Type)
    ensures
        type_view(r) == lifecycle_block(),
{
    let mut content: Vec<(String, Attribute)> = Vec::new();
    insert_field(&mut content, String::from_str("create_before_destroy"), optional_attribute(Type::Bool));
    insert_field(&mut content, String::from_str("prevent_destroy"), optional_attribute(Type::Bool));
    insert_field(&mut content, String::from_str("ignore_changes"), optional_attribute(string_list_type()));
    insert_field(
        &mut content,
        String::from_str("replace_triggered_by"),
        optional_attribute(string_list_type()),
    );
    assert(type_view(Type::Bool) == TypeModel::Bool);
    closed_object(content)
}

fn local_exec_type() -> (r: Type)
    ensures
        type_view(r) == local_exec_block(),
{
    let mut content: Vec<(String, Attribute)> = Vec::new();
    insert_field(&mut content, String::from_str("command"), optional_attribute(Type::String));
    insert_field(&mut content, String::from_str("working_dir"), optional_attribute(Type::String));
    insert_field(&mut content, String::from_str("interpreter"), optional_attribute(string_list_type()));
    insert_field(&mut content, String::from_str("environment"), optional_attribute(string_dictionary_type()));
    assert(type_view(Type::String) == TypeModel::String);
    closed_object(content)
}

fn remote_exec_type() -> (r: Type)
    ensures
        type_view(r) == remote_exec_block(),
{
    let mut content: Vec<(String, Attribute)> = Vec::new();
    insert_field(&mut content, String::from_str("inline"), optional_attribute(string_list_type()));
    insert_field(&mut content, String::from_str("script"), optional_attribute(Type::String));
    insert_field(&mut content, String::from_str("scripts"), optional_attribute(string_list_type()));
    assert(type_view(Type::String) == TypeModel::String);
    closed_object(content)
}

fn provisioner_type() -> (r: Type)
    ensures
        type_view(r) == provisioner_block(),
{
    let mut content: Vec<(String, Attribute)> = Vec::new();
    insert_field(&mut content, String::from_str("local-exec"), optional_attribute(local_exec_type()));
    insert_field(&mut content, String::from_str("remote-exec"), optional_attribute(remote_exec_type()));
    closed_object(content)
}

/// Adds the dependency list `depends_on` and the provider selector `provider`
/// to the fields of a resource or data source.
pub fn add_common_fields(fields: &mut Vec<(String, Attribute)>)
    ensures
        fields_view(final(fields)@) == common_model(fields_view(old(fields)@)),
{
    insert_field(fields, String::from_str("depends_on"), optional_attribute(string_list_type()));
    insert_field(fields, String::from_str("provider"), optional_attribute(Type::String));
    assert(type_view(Type::String) == TypeModel::String);
}

/// Adds the `lifecycle` controls to the fields of a resource.
pub fn add_lifecycle_field(fields: &mut Vec<(String, Attribute)>)
    ensures
        fields_view(final(fields)@) == lifecycle_model(fields_view(old(fields)@)),
{
    insert_field(fields, String::from_str("lifecycle"), optional_attribute(lifecycle_type()));
}

/// Adds the `provisioner` block to the fields of a resource.
pub fn add_provisioner_field(fields: &mut Vec<(String, Attribute)>)
    ensures
        fields_view(final(fields)@) == provisioner_model(fields_view(old(fields)@)),
{
    insert_field(fields, String::from_str("provisioner"), optional_attribute(provisioner_type()));
}

/// Sets the no-op resource `null_resource` in a map of resource types.
pub fn add_null_resource(resources: &mut Vec<(String, Attribute)>)
    ensures
        fields_view(final(resources)@) == fields_view(old(resources)@).insert(
            "null_resource"@,
            null_resource_model(),
        ),
{
    let mut content: Vec<(String, Attribute)> = Vec::new();
    insert_field(&mut content, String::from_str("triggers"), optional_attribute(string_dictionary_type()));
    let instance = closed_object(content);
    insert_field(resources, String::from_str("null_resource"), optional_attribute(Type::dictionary_of(instance)));
}

} // verus!
