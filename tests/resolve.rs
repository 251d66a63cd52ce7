use tf_ncl::fields::lookup_field;
use tf_ncl::intermediate::{Attribute, FieldDescriptor, GoSchema, InterpolationStrategy, Type};
use tf_ncl::resolve::{anchors_are_dictionaries, attribute_at_path, ResolveError};

fn s(x: &str) -> String {
    x.to_string()
}

fn path(p: &[&str]) -> Vec<String> {
    p.iter().map(|x| x.to_string()).collect()
}

fn field(t: Type) -> Attribute {
    Attribute { description: None, optional: true, interpolation: InterpolationStrategy::UserSupplied, type_: t }
}

fn dict(prefix: Vec<String>) -> Type {
    Type::Dictionary {
        inner: Box::new(Type::Object { open: false, content: vec![(s("x"), field(Type::String))] }),
        prefix,
        computed_fields: vec![],
    }
}

fn descriptor(force: bool, p: &[&str]) -> FieldDescriptor {
    FieldDescriptor { force, path: path(p) }
}

#[test]
fn wildcard_splits_path() {
    let d = descriptor(false, &["a", "b", "_", "c", "_"]);
    let (prefix, rest) = d.split_at_first_wildcard();
    assert_eq!(prefix, path(&["a", "b"]));
    assert_eq!(rest, path(&["_", "c", "_"]));
    let d = descriptor(false, &["a", "b"]);
    let (prefix, rest) = d.split_at_first_wildcard();
    assert_eq!(prefix, path(&["a", "b"]));
    assert!(rest.is_empty());
}

#[test]
fn attribute_is_found_through_objects() {
    let schema = vec![(
        s("outer"),
        field(Type::Object { open: false, content: vec![(s("d"), field(dict(vec![])))] }),
    )];
    assert_eq!(attribute_at_path(&schema, &path(&["outer", "d"])).map(|a| &a.type_), Some(&dict(vec![])));
    assert!(attribute_at_path(&schema, &path(&["outer", "missing"])).is_none());
    assert!(attribute_at_path(&schema, &path(&["outer", "d", "x"])).is_none());
    assert!(attribute_at_path(&schema, &path(&[])).is_none());
}

#[test]
fn two_descriptors_share_one_dictionary() {
    let schema = GoSchema {
        computed_fields: vec![descriptor(false, &["a", "_", "x"]), descriptor(true, &["a", "_", "y"])],
        schema: vec![(s("a"), field(dict(vec![])))],
    };
    let g = schema.push_down_computed_fields().unwrap();
    assert!(g.computed_fields.is_empty());
    match &lookup_field(&g.schema, &s("a")).unwrap().type_ {
        Type::Dictionary { prefix, computed_fields, .. } => {
            assert_eq!(prefix, &path(&["a"]));
            assert_eq!(
                computed_fields,
                &vec![descriptor(false, &["_", "x"]), descriptor(true, &["_", "y"])]
            );
        }
        other => panic!("expected a dictionary, got {:?}", other),
    }
}

#[test]
fn dictionary_with_other_prefix_is_ambiguous() {
    let schema = GoSchema {
        computed_fields: vec![descriptor(false, &["a", "_", "z"])],
        schema: vec![(s("a"), field(dict(path(&["b"]))))],
    };
    match schema.push_down_computed_fields() {
        Err(e) => {
            assert_eq!(e.message(), "ambiguous computed field anchor: b claimed as a");
            match e {
                ResolveError::AmbiguousAnchor { existing, claimed } => {
                    assert_eq!(existing, path(&["b"]));
                    assert_eq!(claimed, path(&["a"]));
                }
                other => panic!("unexpected error {:?}", other),
            }
        }
        Ok(_) => panic!("resolution should fail"),
    }
}

#[test]
fn unreachable_descriptor_is_left_over() {
    let schema = GoSchema {
        computed_fields: vec![descriptor(false, &["a", "_", "x"]), descriptor(false, &["nowhere", "_", "x"])],
        schema: vec![(s("a"), field(dict(vec![])))],
    };
    match schema.push_down_computed_fields() {
        Err(e) => {
            assert_eq!(e.message(), "leftover computed fields");
            match e {
                ResolveError::LeftoverComputedFields { fields } => {
                    assert_eq!(fields, vec![descriptor(false, &["nowhere", "_", "x"])]);
                }
                other => panic!("unexpected error {:?}", other),
            }
        }
        Ok(_) => panic!("resolution should fail"),
    }
}

#[test]
fn distinct_dictionaries_consume_every_descriptor() {
    let nested = field(Type::Object { open: false, content: vec![(s("inner"), field(dict(vec![])))] });
    let schema = GoSchema {
        computed_fields: vec![
            descriptor(true, &["top", "_", "x"]),
            descriptor(false, &["obj", "inner", "_", "x"]),
            descriptor(false, &["whole"]),
        ],
        schema: vec![(s("top"), field(dict(vec![]))), (s("obj"), nested), (s("whole"), field(dict(vec![])))],
    };
    assert!(anchors_are_dictionaries(&schema.schema, &schema.computed_fields));
    let g = schema.push_down_computed_fields().unwrap();
    assert!(g.computed_fields.is_empty());
    match &attribute_at_path(&g.schema, &path(&["obj", "inner"])).unwrap().type_ {
        Type::Dictionary { prefix, computed_fields, .. } => {
            assert_eq!(prefix, &path(&["obj", "inner"]));
            assert_eq!(computed_fields, &vec![descriptor(false, &["_", "x"])]);
        }
        other => panic!("expected a dictionary, got {:?}", other),
    }
    match &lookup_field(&g.schema, &s("whole")).unwrap().type_ {
        Type::Dictionary { prefix, computed_fields, .. } => {
            assert_eq!(prefix, &path(&["whole"]));
            assert_eq!(computed_fields, &vec![descriptor(false, &[])]);
        }
        other => panic!("expected a dictionary, got {:?}", other),
    }
}

#[test]
fn anchor_on_non_dictionary_is_detected() {
    let schema = vec![(s("a"), field(Type::String))];
    assert!(!anchors_are_dictionaries(&schema, &vec![descriptor(false, &["a", "_", "x"])]));
    assert!(anchors_are_dictionaries(&schema, &vec![descriptor(false, &["b", "_", "x"])]));
}

#[test]
fn push_down_hands_back_unreachable_descriptor() {
    let mut schema = vec![(s("a"), field(dict(vec![])))];
    let d = descriptor(true, &["b", "_"]);
    let back = d.push_down(&mut schema).unwrap();
    assert_eq!(back, Some(descriptor(true, &["b", "_"])));
    assert_eq!(schema, vec![(s("a"), field(dict(vec![])))]);
}
