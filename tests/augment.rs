use tf_ncl::augment::{add_common_fields, add_lifecycle_field, add_null_resource, add_provisioner_field};
use tf_ncl::fields::lookup_field;
use tf_ncl::intermediate::{Attribute, InterpolationStrategy, Type};

fn field(t: Type) -> Attribute {
    Attribute { description: None, optional: false, interpolation: InterpolationStrategy::UserSupplied, type_: t }
}

fn names(fields: &[(String, Attribute)]) -> Vec<String> {
    let mut v: Vec<String> = fields.iter().map(|(k, _)| k.clone()).collect();
    v.sort();
    v.dedup();
    v
}

#[test]
fn common_fields_are_added() {
    let mut fields = vec![("ami".to_string(), field(Type::String))];
    add_common_fields(&mut fields);
    assert_eq!(names(&fields), vec!["ami".to_string(), "depends_on".to_string(), "provider".to_string()]);
    let deps = lookup_field(&fields, &"depends_on".to_string()).unwrap();
    assert!(deps.optional);
    assert_eq!(deps.type_, Type::List { min: None, max: None, content: Box::new(Type::String) });
    let provider = lookup_field(&fields, &"provider".to_string()).unwrap();
    assert_eq!(provider.type_, Type::String);
}

#[test]
fn augmentation_twice_sets_the_same_fields() {
    let mut once = vec![("ami".to_string(), field(Type::String))];
    add_common_fields(&mut once);
    add_lifecycle_field(&mut once);
    add_provisioner_field(&mut once);
    let mut twice = vec![("ami".to_string(), field(Type::String))];
    for _ in 0..2 {
        add_common_fields(&mut twice);
        add_lifecycle_field(&mut twice);
        add_provisioner_field(&mut twice);
    }
    assert_eq!(once.len(), twice.len());
    assert_eq!(names(&once), names(&twice));
    for (k, v) in once.iter() {
        assert_eq!(lookup_field(&twice, k), Some(v));
    }
}

#[test]
fn augmentation_order_does_not_matter() {
    let mut a = vec![("x".to_string(), field(Type::Bool))];
    add_provisioner_field(&mut a);
    add_lifecycle_field(&mut a);
    add_common_fields(&mut a);
    let mut b = vec![("x".to_string(), field(Type::Bool))];
    add_common_fields(&mut b);
    add_lifecycle_field(&mut b);
    add_provisioner_field(&mut b);
    assert_eq!(names(&a), names(&b));
    for (k, v) in a.iter() {
        assert_eq!(lookup_field(&b, k), Some(v));
    }
}

#[test]
fn augmentation_overwrites_a_field_of_the_same_name() {
    let mut fields = vec![("provider".to_string(), field(Type::Number))];
    add_common_fields(&mut fields);
    assert_eq!(fields.len(), 2);
    let provider = lookup_field(&fields, &"provider".to_string()).unwrap();
    assert_eq!(provider.type_, Type::String);
    assert!(provider.optional);
}

#[test]
fn lifecycle_block_has_four_fields() {
    let mut fields = vec![];
    add_lifecycle_field(&mut fields);
    let lifecycle = lookup_field(&fields, &"lifecycle".to_string()).unwrap();
    assert!(lifecycle.optional);
    match &lifecycle.type_ {
        Type::Object { open: false, content } => {
            assert_eq!(
                names(content),
                vec![
                    "create_before_destroy".to_string(),
                    "ignore_changes".to_string(),
                    "prevent_destroy".to_string(),
                    "replace_triggered_by".to_string()
                ]
            );
            assert_eq!(lookup_field(content, &"prevent_destroy".to_string()).unwrap().type_, Type::Bool);
        }
        other => panic!("expected an object, got {:?}", other),
    }
}

#[test]
fn provisioner_block_has_local_and_remote_execution() {
    let mut fields = vec![];
    add_provisioner_field(&mut fields);
    let provisioner = lookup_field(&fields, &"provisioner".to_string()).unwrap();
    match &provisioner.type_ {
        Type::Object { content, .. } => {
            assert_eq!(names(content), vec!["local-exec".to_string(), "remote-exec".to_string()]);
            match &lookup_field(content, &"local-exec".to_string()).unwrap().type_ {
                Type::Object { content, .. } => {
                    assert_eq!(lookup_field(content, &"command".to_string()).unwrap().type_, Type::String);
                }
                other => panic!("expected an object, got {:?}", other),
            }
        }
        other => panic!("expected an object, got {:?}", other),
    }
}

#[test]
fn null_resource_exposes_triggers() {
    let mut resources = vec![];
    add_null_resource(&mut resources);
    add_null_resource(&mut resources);
    assert_eq!(resources.len(), 1);
    let null = lookup_field(&resources, &"null_resource".to_string()).unwrap();
    match &null.type_ {
        Type::Dictionary { inner, .. } => match &**inner {
            Type::Object { content, .. } => {
                assert_eq!(names(content), vec!["triggers".to_string()]);
                let triggers = lookup_field(content, &"triggers".to_string()).unwrap();
                assert!(triggers.optional);
                assert_eq!(
                    triggers.type_,
                    Type::Dictionary { inner: Box::new(Type::String), prefix: vec![], computed_fields: vec![] }
                );
            }
            other => panic!("expected an object, got {:?}", other),
        },
        other => panic!("expected a dictionary, got {:?}", other),
    }
}
