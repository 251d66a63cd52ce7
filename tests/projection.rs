use tf_ncl::fields::lookup_field;
use tf_ncl::intermediate::{InterpolationStrategy, Type};
use tf_ncl::projection::{
    project_attribute, project_block, project_flags, project_type, ProjectionError,
};
use tf_ncl::terraform::{
    TFBlock, TFBlockAttribute, TFBlockNestingMode, TFBlockType, TFCollectionKind, TFNestedType,
    TFType,
};

fn attr(type_: Option<TFType>, required: bool, optional: bool, computed: bool) -> TFBlockAttribute {
    TFBlockAttribute {
        type_,
        nested_type: None,
        description: None,
        required,
        optional,
        computed,
        sensitive: false,
    }
}

fn names(fields: &[(String, tf_ncl::intermediate::Attribute)]) -> Vec<String> {
    let mut v: Vec<String> = fields.iter().map(|(k, _)| k.clone()).collect();
    v.sort();
    v
}

#[test]
fn flag_triples_project_exactly_four() {
    let mut legal = 0;
    for required in [false, true] {
        for optional in [false, true] {
            for computed in [false, true] {
                let r = project_flags(required, optional, computed);
                let expected = match (required, optional, computed) {
                    (true, false, false) => Some((false, InterpolationStrategy::UserSupplied)),
                    (false, true, false) => Some((true, InterpolationStrategy::UserSupplied)),
                    (false, false, true) => {
                        Some((true, InterpolationStrategy::ProviderComputed { force: true }))
                    }
                    (false, true, true) => {
                        Some((true, InterpolationStrategy::ProviderComputed { force: false }))
                    }
                    _ => None,
                };
                assert_eq!(r, expected);
                if r.is_some() {
                    legal += 1;
                }
            }
        }
    }
    assert_eq!(legal, 4);
}

#[test]
fn required_and_computed_is_rejected_with_path() {
    let a = attr(Some(TFType::String), true, false, true);
    let path = vec!["aws_instance".to_string(), "ami".to_string()];
    match project_attribute(&a, &path) {
        Err(e) => {
            assert_eq!(e.message(), "illegal flag combination: aws_instance.ami");
            match e {
                ProjectionError::IllegalFlags { path, required, optional, computed } => {
                    assert_eq!(path, vec!["aws_instance".to_string(), "ami".to_string()]);
                    assert!(required && !optional && computed);
                }
                other => panic!("unexpected error {:?}", other),
            }
        }
        Ok(_) => panic!("projection should fail"),
    }
}

#[test]
fn all_false_flags_are_rejected() {
    let a = attr(Some(TFType::Bool), false, false, false);
    assert!(project_attribute(&a, &vec!["x".to_string()]).is_err());
}

#[test]
fn attribute_without_type_is_rejected() {
    let a = attr(None, true, false, false);
    let e = project_attribute(&a, &vec!["r".to_string(), "f".to_string()]).unwrap_err();
    assert_eq!(e.message(), "missing type: r.f");
}

#[test]
fn computed_optional_attribute_is_not_forced() {
    let mut a = attr(Some(TFType::Number), false, true, true);
    a.description = Some("a number".to_string());
    let p = project_attribute(&a, &vec![]).unwrap();
    assert!(p.optional);
    assert_eq!(p.interpolation, InterpolationStrategy::ProviderComputed { force: false });
    assert_eq!(p.type_, Type::Number);
    assert_eq!(p.description, Some("a number".to_string()));
}

#[test]
fn raw_types_project() {
    assert_eq!(
        project_type(&TFType::SetOf(Box::new(TFType::Bool))),
        Type::List { min: None, max: None, content: Box::new(Type::Bool) }
    );
    assert_eq!(
        project_type(&TFType::MapOf(Box::new(TFType::String))),
        Type::Dictionary { inner: Box::new(Type::String), prefix: vec![], computed_fields: vec![] }
    );
    assert_eq!(
        project_type(&TFType::Tuple(vec![TFType::String, TFType::Number])),
        Type::List { min: None, max: None, content: Box::new(Type::Dynamic) }
    );
    assert_eq!(project_type(&TFType::Dynamic), Type::Dynamic);
}

#[test]
fn inline_object_fields_default_to_optional() {
    let t = TFType::Object(vec![
        ("a".to_string(), TFType::String),
        ("b".to_string(), TFType::List(Box::new(TFType::Number))),
    ]);
    match project_type(&t) {
        Type::Object { open, content } => {
            assert!(!open);
            assert_eq!(names(&content), vec!["a".to_string(), "b".to_string()]);
            for (_, f) in content.iter() {
                assert!(f.optional);
                assert_eq!(f.interpolation, InterpolationStrategy::UserSupplied);
                assert_eq!(f.description, None);
            }
        }
        other => panic!("expected an object, got {:?}", other),
    }
}

#[test]
fn type_names_are_read() {
    assert!(matches!(TFType::primitive("dynamic"), Some(TFType::String)));
    assert!(matches!(TFType::primitive("string"), Some(TFType::String)));
    assert!(matches!(TFType::primitive("number"), Some(TFType::Number)));
    assert!(matches!(TFType::primitive("bool"), Some(TFType::Bool)));
    assert!(TFType::primitive("list").is_none());
    assert_eq!(TFCollectionKind::named("list"), Some(TFCollectionKind::List));
    assert_eq!(TFCollectionKind::named("map"), Some(TFCollectionKind::MapOf));
    assert_eq!(TFCollectionKind::named("set"), Some(TFCollectionKind::SetOf));
    assert_eq!(TFCollectionKind::named("object"), Some(TFCollectionKind::Object));
    assert_eq!(TFCollectionKind::named("tuple"), Some(TFCollectionKind::Tuple));
    assert_eq!(TFCollectionKind::named("string"), None);
}

fn block(attributes: Vec<(String, TFBlockAttribute)>, block_types: Vec<(String, TFBlockType)>) -> TFBlock {
    TFBlock { attributes, block_types, description: None }
}

#[test]
fn nested_blocks_follow_their_nesting_mode() {
    let inner = || block(vec![("v".to_string(), attr(Some(TFType::String), true, false, false))], vec![]);
    let b = block(
        vec![],
        vec![
            (
                "one".to_string(),
                TFBlockType { nesting_mode: TFBlockNestingMode::Single, min_items: None, max_items: None, block: inner() },
            ),
            (
                "many".to_string(),
                TFBlockType { nesting_mode: TFBlockNestingMode::List, min_items: Some(1), max_items: Some(3), block: inner() },
            ),
            (
                "keyed".to_string(),
                TFBlockType { nesting_mode: TFBlockNestingMode::MapOf, min_items: None, max_items: None, block: inner() },
            ),
        ],
    );
    let fields = project_block(&b, &vec![]).unwrap();
    let one = lookup_field(&fields, &"one".to_string()).unwrap();
    assert!(one.optional);
    assert!(matches!(&one.type_, Type::Object { open: false, .. }));
    let many = lookup_field(&fields, &"many".to_string()).unwrap();
    assert!(!many.optional);
    match &many.type_ {
        Type::List { min, max, content } => {
            assert_eq!((*min, *max), (Some(1), Some(3)));
            assert!(matches!(**content, Type::Object { .. }));
        }
        other => panic!("expected a list, got {:?}", other),
    }
    let keyed = lookup_field(&fields, &"keyed".to_string()).unwrap();
    match &keyed.type_ {
        Type::Dictionary { inner, prefix, computed_fields } => {
            assert!(matches!(**inner, Type::Object { .. }));
            assert!(prefix.is_empty() && computed_fields.is_empty());
        }
        other => panic!("expected a dictionary, got {:?}", other),
    }
}

#[test]
fn nested_attribute_sets_are_projected_with_flags() {
    let nested = TFNestedType {
        attributes: vec![
            ("req".to_string(), attr(Some(TFType::String), true, false, false)),
            ("comp".to_string(), attr(Some(TFType::String), false, false, true)),
        ],
        nesting_mode: TFBlockNestingMode::SetOf,
        min_items: None,
        max_items: None,
    };
    let mut a = attr(None, false, true, false);
    a.nested_type = Some(nested);
    let p = project_attribute(&a, &vec![]).unwrap();
    match p.type_ {
        Type::List { content, .. } => match *content {
            Type::Object { content, .. } => {
                let req = lookup_field(&content, &"req".to_string()).unwrap();
                assert!(!req.optional);
                let comp = lookup_field(&content, &"comp".to_string()).unwrap();
                assert_eq!(comp.interpolation, InterpolationStrategy::ProviderComputed { force: true });
            }
            other => panic!("expected an object, got {:?}", other),
        },
        other => panic!("expected a list, got {:?}", other),
    }
}

#[test]
fn illegal_flags_in_nested_block_fail_the_block() {
    let inner = block(vec![("bad".to_string(), attr(Some(TFType::String), true, true, false))], vec![]);
    let b = block(
        vec![],
        vec![(
            "inner".to_string(),
            TFBlockType { nesting_mode: TFBlockNestingMode::Single, min_items: None, max_items: None, block: inner },
        )],
    );
    let e = project_block(&b, &vec!["res".to_string()]).unwrap_err();
    assert_eq!(e.message(), "illegal flag combination: res.inner.bad");
}

#[test]
fn first_failing_attribute_is_reported() {
    let b = block(
        vec![
            ("a".to_string(), attr(None, true, false, false)),
            ("b".to_string(), attr(Some(TFType::String), false, false, false)),
        ],
        vec![],
    );
    let e = project_block(&b, &vec!["r".to_string()]).unwrap_err();
    assert_eq!(e.message(), "missing type: r.a");
}

#[test]
fn attributes_fail_before_nested_blocks() {
    let inner = block(vec![("bad".to_string(), attr(None, true, false, false))], vec![]);
    let b = block(
        vec![("late".to_string(), attr(Some(TFType::String), true, true, true))],
        vec![(
            "inner".to_string(),
            TFBlockType { nesting_mode: TFBlockNestingMode::List, min_items: None, max_items: None, block: inner },
        )],
    );
    let e = project_block(&b, &vec![]).unwrap_err();
    assert_eq!(e.message(), "illegal flag combination: late");
}
