//! Projection of raw schema attributes and blocks onto the intermediate tree.

use vstd::prelude::*;
use vstd::string::StringExecFns;

use crate::fields::lemma_fields_view_push;
use crate::intermediate::{
    attr_view, fields_view, text_view, type_view, Attribute, AttributeModel, FieldsModel,
    InterpolationStrategy, Type, TypeModel,
};
use crate::resolve::{copy_segments, join_path, joined};
use crate::terraform::{
    TFBlock, TFBlockAttribute, TFBlockNestingMode, TFBlockType, TFType,
};

verus! {

/// The optionality and interpolation that a legal combination of the
/// `required`, `optional` and `computed` flags denotes; `None` for the others.
pub open spec fn flag_projection(required: bool, optional: bool, computed: bool) -> Option<
    (bool, InterpolationStrategy),
> {
    if required && !optional && !computed {
        Some((false, InterpolationStrategy::UserSupplied))
    } else if !required && optional && !computed {
        Some((true, InterpolationStrategy::UserSupplied))
    } else if !required && !optional && computed {
        Some((true, InterpolationStrategy::ProviderComputed { force: true }))
    } else if !required && optional && computed {
        Some((true, InterpolationStrategy::ProviderComputed { force: false }))
    } else {
        None
    }
}

pub open spec fn tf_type_model(t: TFType) -> TypeModel
    decreases t,
{
    match t {
        TFType::Dynamic => TypeModel::Dynamic,
        TFType::String => TypeModel::String,
        TFType::Number => TypeModel::Number,
        TFType::Bool => TypeModel::Bool,
        TFType::List(e) => TypeModel::List { min: None, max: None, content: Box::new(tf_type_model(*e)) },
        TFType::SetOf(e) => TypeModel::List { min: None, max: None, content: Box::new(tf_type_model(*e)) },
        TFType::MapOf(e) => TypeModel::Dictionary {
            inner: Box::new(tf_type_model(*e)),
            prefix: Seq::empty(),
            computed_fields: Seq::empty(),
        },
        TFType::Object(fs) => TypeModel::Object { open: false, content: tf_object_model(fs@) },
        TFType::Tuple(_) => TypeModel::List {
            min: None,
            max: None,
            content: Box::new(TypeModel::Dynamic),
        },
    }
}

/// The fields of an object written inline in a raw type: no flags exist
/// there, so each is optional and supplied by the user.
pub open spec fn tf_object_model(s: Seq<(String, TFType)>) -> FieldsModel
    decreases s,
{
    if s.len() == 0 {
        Map::empty()
    } else {
        tf_object_model(s.drop_last()).insert(
            s.last().0@,
            AttributeModel {
                description: None,
                optional: true,
                interpolation: InterpolationStrategy::UserSupplied,
                type_: tf_type_model(s.last().1),
            },
        )
    }
}

/// The type a nesting mode gives to a repeated object.
pub open spec fn nested_model(
    mode: TFBlockNestingMode,
    min: Option<u32>,
    max: Option<u32>,
    content: FieldsModel,
) -> TypeModel {
    let object = TypeModel::Object { open: false, content };
    match mode {
        TFBlockNestingMode::Single => object,
        TFBlockNestingMode::List => TypeModel::List { min, max, content: Box::new(object) },
        TFBlockNestingMode::SetOf => TypeModel::List { min, max, content: Box::new(object) },
        TFBlockNestingMode::MapOf => TypeModel::Dictionary {
            inner: Box::new(object),
            prefix: Seq::empty(),
            computed_fields: Seq::empty(),
        },
    }
}

/// Why a raw schema cannot be projected: the first offending field, in the
/// order in which attributes, then nested blocks, are visited.
pub enum ProjectionFailure {
    IllegalFlags { path: Seq<Seq<char>>, required: bool, optional: bool, computed: bool },
    MissingType { path: Seq<Seq<char>> },
}

/// The first failure in projecting the attribute found at `path`, if any.
pub open spec fn attribute_failure(a: TFBlockAttribute, path: Seq<Seq<char>>) -> Option<ProjectionFailure>
    decreases a,
{
    if flag_projection(a.required, a.optional, a.computed) is None {
        Some(
            ProjectionFailure::IllegalFlags {
                path,
                required: a.required,
                optional: a.optional,
                computed: a.computed,
            },
        )
    } else {
        match a.type_ {
            Some(_) => None,
            None => match a.nested_type {
                Some(n) => attributes_failure(n.attributes@, path),
                None => Some(ProjectionFailure::MissingType { path }),
            },
        }
    }
}

/// The first failure among the attributes of a block found at `path`.
pub open spec fn attributes_failure(s: Seq<(String, TFBlockAttribute)>, path: Seq<Seq<char>>) -> Option<
    ProjectionFailure,
>
    decreases s,
{
    if s.len() == 0 {
        None
    } else {
        match attributes_failure(s.drop_last(), path) {
            Some(f) => Some(f),
            None => attribute_failure(s.last().1, path.push(s.last().0@)),
        }
    }
}

pub open spec fn attribute_model(a: TFBlockAttribute) -> AttributeModel
    decreases a,
{
    let (optional, interpolation) = flag_projection(a.required, a.optional, a.computed).unwrap();
    AttributeModel {
        description: text_view(a.description),
        optional,
        interpolation,
        type_: match a.type_ {
            Some(t) => tf_type_model(t),
            None => match a.nested_type {
                Some(n) => nested_model(
                    n.nesting_mode,
                    n.min_items,
                    n.max_items,
                    attributes_model(n.attributes@),
                ),
                None => TypeModel::Dynamic,
            },
        },
    }
}

pub open spec fn attributes_model(s: Seq<(String, TFBlockAttribute)>) -> FieldsModel
    decreases s,
{
    if s.len() == 0 {
        Map::empty()
    } else {
        attributes_model(s.drop_last()).insert(s.last().0@, attribute_model(s.last().1))
    }
}

/// The first failure in projecting the block found at `path`.
pub open spec fn block_failure(b: TFBlock, path: Seq<Seq<char>>) -> Option<ProjectionFailure>
    decreases b,
{
    match attributes_failure(b.attributes@, path) {
        Some(f) => Some(f),
        None => block_types_failure(b.block_types@, path),
    }
}

/// The first failure among the nested blocks of a block found at `path`.
pub open spec fn block_types_failure(s: Seq<(String, TFBlockType)>, path: Seq<Seq<char>>) -> Option<
    ProjectionFailure,
>
    decreases s,
{
    if s.len() == 0 {
        None
    } else {
        match block_types_failure(s.drop_last(), path) {
            Some(f) => Some(f),
            None => block_failure(s.last().1.block, path.push(s.last().0@)),
        }
    }
}

/// The fields of a block: its attributes, then its nested blocks.
pub open spec fn block_model(b: TFBlock) -> FieldsModel
    decreases b,
{
    block_types_model(b.block_types@, attributes_model(b.attributes@))
}

pub open spec fn block_types_model(s: Seq<(String, TFBlockType)>, base: FieldsModel) -> FieldsModel
    decreases s,
{
    if s.len() == 0 {
        base
    } else {
        block_types_model(s.drop_last(), base).insert(s.last().0@, block_type_model(s.last().1))
    }
}

/// A nested block: optional unless it asks for at least one item.
pub open spec fn block_type_model(t: TFBlockType) -> AttributeModel
    decreases t,
{
    AttributeModel {
        description: text_view(t.block.description),
        optional: !(t.min_items matches Some(n) && n > 0),
        interpolation: InterpolationStrategy::UserSupplied,
        type_: nested_model(t.nesting_mode, t.min_items, t.max_items, block_model(t.block)),
    }
}


pub open spec fn legal_flags(required: bool, optional: bool, computed: bool) -> bool {
    required != (optional || computed)
}

/// Of the eight flag combinations exactly four are legal: required alone,
/// optional alone, computed alone, and optional with computed.
pub proof fn lemma_legal_flag_combinations(required: bool, optional: bool, computed: bool)
    ensures
        legal_flags(required, optional, computed) <==> (required && !optional && !computed) || (
        !required && optional && !computed) || (!required && !optional && computed) || (!required
            && optional && computed),
        flag_projection(required, optional, computed) is Some <==> legal_flags(required, optional, computed),
{
}

proof fn lemma_attributes_failure_stays(s: Seq<(String, TFBlockAttribute)>, path: Seq<Seq<char>>, k: int)
    requires
        0 <= k <= s.len(),
        attributes_failure(s.take(k), path) is Some,
    ensures
        attributes_failure(s, path) == attributes_failure(s.take(k), path),
    decreases s.len() - k,
{
    if k == s.len() {
        assert(s.take(k) =~= s);
    } else {
        assert(s.take(k + 1).drop_last() =~= s.take(k));
        lemma_attributes_failure_stays(s, path, k + 1);
    }
}

proof fn lemma_block_types_failure_stays(s: Seq<(String, TFBlockType)>, path: Seq<Seq<char>>, k: int)
    requires
        0 <= k <= s.len(),
        block_types_failure(s.take(k), path) is Some,
    ensures
        block_types_failure(s, path) == block_types_failure(s.take(k), path),
    decreases s.len() - k,
{
    if k == s.len() {
        assert(s.take(k) =~= s);
    } else {
        assert(s.take(k + 1).drop_last() =~= s.take(k));
        lemma_block_types_failure_stays(s, path, k + 1);
    }
}

/// Why a raw schema cannot be projected; `path` names the offending field.
#[derive(Debug)]
pub enum ProjectionError {
    IllegalFlags { path: Vec<String>, required: bool, optional: bool, computed: bool },
    MissingType { path: Vec<String> },
}

pub open spec fn failure_view(e: ProjectionError) -> ProjectionFailure {
    match e {
        ProjectionError::IllegalFlags { path, required, optional, computed } =>
            ProjectionFailure::IllegalFlags { path: path.deep_view(), required, optional, computed },
        ProjectionError::MissingType { path } => ProjectionFailure::MissingType { path: path.deep_view() },
    }
}

pub open spec fn projection_error_text(e: ProjectionError) -> Seq<char> {
    match e {
        ProjectionError::IllegalFlags { path, required: _, optional: _, computed: _ } =>
            "illegal flag combination: "@ + joined(path.deep_view()),
        ProjectionError::MissingType { path } => "missing type: "@ + joined(path.deep_view()),
    }
}

impl ProjectionError {
    /// The error as text, naming the offending field.
    pub fn message(&self) -> (r: String)
        ensures
            r@ == projection_error_text(*self),
    {
        match self {
            ProjectionError::IllegalFlags { path, required: _, optional: _, computed: _ } => {
                let at = join_path(path);
                String::from_str("illegal flag combination: ").concat(at.as_str())
            },
            ProjectionError::MissingType { path } => {
                let at = join_path(path);
                String::from_str("missing type: ").concat(at.as_str())
            },
        }
    }
}

/// Projects the `required`, `optional` and `computed` flags of an attribute.
pub fn project_flags(required: bool, optional: bool, computed: bool) -> (r: Option<
    (bool, InterpolationStrategy),
>)
    ensures
        r == flag_projection(required, optional, computed),
        r is Some <==> legal_flags(required, optional, computed),
{
    if required && !optional && !computed {
        Some((false, InterpolationStrategy::UserSupplied))
    } else if !required && optional && !computed {
        Some((true, InterpolationStrategy::UserSupplied))
    } else if !required && !optional && computed {
        Some((true, InterpolationStrategy::ProviderComputed { force: true }))
    } else if !required && optional && computed {
        Some((true, InterpolationStrategy::ProviderComputed { force: false }))
    } else {
        None
    }
}

pub fn clone_text(s: &Option<String>) -> (r: Option<String>)
    ensures
        text_view(r) == text_view(*s),
{
    match s {
        Some(t) => Some(t.clone()),
        None => None,
    }
}

fn child_path(path: &Vec<String>, name: &String) -> (r: Vec<String>)
    ensures
        r.deep_view() == path.deep_view().push(name@),
{
    let mut r = copy_segments(path, 0, path.len());
    let ghost before = r.deep_view();
    r.push(name.clone());
    proof {
        assert(path.deep_view().subrange(0, path@.len() as int) =~= path.deep_view());
        assert(r.deep_view() =~= before.push(name@));
    }
    r
}

/// Projects a raw type; fields of inline object types are optional.
pub fn project_type(t: &TFType) -> (r: Type)
    ensures
        type_view(r) == tf_type_model(*t),
    decreases t,
{
    match t {
        TFType::Dynamic => Type::Dynamic,
        TFType::String => Type::String,
        TFType::Number => Type::Number,
        TFType::Bool => Type::Bool,
        TFType::List(e) => Type::List { min: None, max: None, content: Box::new(project_type(e)) },
        TFType::SetOf(e) => Type::List { min: None, max: None, content: Box::new(project_type(e)) },
        TFType::MapOf(e) => Type::dictionary_of(project_type(e)),
        TFType::Object(fs) => {
            let mut content: Vec<(String, Attribute)> = Vec::new();
            let mut i: usize = 0;
            while i < fs.len()
                invariant
                    i <= fs@.len(),
                    *t == TFType::Object(*fs),
                    fields_view(content@) == tf_object_model(fs@.take(i as int)),
                decreases fs@.len() - i,
            {
                proof {
                    assert(decreases_to!(*t => (*t)->Object_0));
                    assert(decreases_to!(*fs => fs@));
                    assert(decreases_to!(fs@ => fs@[i as int]));
                    assert(decreases_to!(fs@[i as int] => fs@[i as int].1));
                }
                let field = Attribute {
                    description: None,
                    optional: true,
                    interpolation: InterpolationStrategy::UserSupplied,
                    type_: project_type(&fs[i].1),
                };
                let e = (fs[i].0.clone(), field);
                proof {
                    lemma_fields_view_push(content@, e);
                    assert(fs@.take(i + 1).drop_last() =~= fs@.take(i as int));
                }
                content.push(e);
                i = i + 1;
            }
            proof {
                assert(fs@.take(fs@.len() as int) =~= fs@);
            }
            Type::Object { open: false, content }
        },
        TFType::Tuple(_) => {
            assert(type_view(Type::Dynamic) == TypeModel::Dynamic);
            Type::List { min: None, max: None, content: Box::new(Type::Dynamic) }
        },
    }
}

/// The type of a repeated object under a nesting mode.
pub fn nested_type(
    mode: TFBlockNestingMode,
    min: Option<u32>,
    max: Option<u32>,
    content: Vec<(String, Attribute)>,
) -> (r: Type)
    ensures
        type_view(r) == nested_model(mode, min, max, fields_view(content@)),
{
    let object = Type::Object { open: false, content };
    assert(type_view(object) == TypeModel::Object { open: false, content: fields_view(content@) });
    match mode {
        TFBlockNestingMode::Single => object,
        TFBlockNestingMode::List => Type::List { min, max, content: Box::new(object) },
        TFBlockNestingMode::SetOf => Type::List { min, max, content: Box::new(object) },
        TFBlockNestingMode::MapOf => Type::dictionary_of(object),
    }
}

/// Projects an attribute of a block found at `path`.
pub fn project_attribute(a: &TFBlockAttribute, path: &Vec<String>) -> (r: Result<
    Attribute,
    ProjectionError,
>)
    ensures
        match r {
            Ok(x) => attribute_failure(*a, path.deep_view()) is None && attr_view(x) == attribute_model(*a),
            Err(e) => attribute_failure(*a, path.deep_view()) == Some(failure_view(e)),
        },
    decreases a,
{
    let (optional, interpolation) = match project_flags(a.required, a.optional, a.computed) {
        Some(f) => f,
        None => {
            let at = copy_segments(path, 0, path.len());
            proof {
                assert(path.deep_view().subrange(0, path@.len() as int) =~= path.deep_view());
            }
            return Err(
                ProjectionError::IllegalFlags {
                    path: at,
                    required: a.required,
                    optional: a.optional,
                    computed: a.computed,
                },
            );
        },
    };
    let type_ = match &a.type_ {
        Some(t) => project_type(t),
        None => match &a.nested_type {
            Some(n) => {
                let content = match project_attributes(&n.attributes, path) {
                    Ok(c) => c,
                    Err(e) => {
                        return Err(e);
                    },
                };
                nested_type(n.nesting_mode, n.min_items, n.max_items, content)
            },
            None => {
                let at = copy_segments(path, 0, path.len());
                proof {
                    assert(path.deep_view().subrange(0, path@.len() as int) =~= path.deep_view());
                }
                return Err(ProjectionError::MissingType { path: at });
            },
        },
    };
    Ok(Attribute { description: clone_text(&a.description), optional, interpolation, type_ })
}

/// Projects the attributes of a block found at `path`.
pub fn project_attributes(s: &Vec<(String, TFBlockAttribute)>, path: &Vec<String>) -> (r: Result<
    Vec<(String, Attribute)>,
    ProjectionError,
>)
    ensures
        match r {
            Ok(v) => attributes_failure(s@, path.deep_view()) is None && fields_view(v@)
                == attributes_model(s@),
            Err(e) => attributes_failure(s@, path.deep_view()) == Some(failure_view(e)),
        },
    decreases s,
{
    let ghost p = path.deep_view();
    let mut out: Vec<(String, Attribute)> = Vec::new();
    let mut i: usize = 0;
    while i < s.len()
        invariant
            i <= s@.len(),
            p == path.deep_view(),
            attributes_failure(s@.take(i as int), p) is None,
            fields_view(out@) == attributes_model(s@.take(i as int)),
        decreases s@.len() - i,
    {
        let here = child_path(path, &s[i].0);
        proof {
            assert(decreases_to!(*s => s@));
            assert(decreases_to!(s@ => s@[i as int]));
            assert(decreases_to!(s@[i as int] => s@[i as int].1));
            assert(s@.take(i + 1).drop_last() =~= s@.take(i as int));
            assert(s@.take(i + 1).last() == s@[i as int]);
        }
        let field = match project_attribute(&s[i].1, &here) {
            Ok(f) => f,
            Err(e) => {
                proof {
                    lemma_attributes_failure_stays(s@, p, i + 1);
                }
                return Err(e);
            },
        };
        let e = (s[i].0.clone(), field);
        proof {
            lemma_fields_view_push(out@, e);
        }
        out.push(e);
        i = i + 1;
    }
    proof {
        assert(s@.take(s@.len() as int) =~= s@);
    }
    Ok(out)
}

/// Projects the fields of a block found at `path`: its attributes, then its
/// nested blocks.
pub fn project_block(b: &TFBlock, path: &Vec<String>) -> (r: Result<
    Vec<(String, Attribute)>,
    ProjectionError,
>)
    ensures
        match r {
            Ok(v) => block_failure(*b, path.deep_view()) is None && fields_view(v@) == block_model(*b),
            Err(e) => block_failure(*b, path.deep_view()) == Some(failure_view(e)),
        },
    decreases b,
{
    let ghost p = path.deep_view();
    let mut out = match project_attributes(&b.attributes, path) {
        Ok(v) => v,
        Err(e) => {
            return Err(e);
        },
    };
    let ghost base = attributes_model(b.attributes@);
    let s = &b.block_types;
    let mut i: usize = 0;
    while i < s.len()
        invariant
            i <= s@.len(),
            s == &b.block_types,
            p == path.deep_view(),
            attributes_failure(b.attributes@, p) is None,
            block_types_failure(s@.take(i as int), p) is None,
            fields_view(out@) == block_types_model(s@.take(i as int), base),
        decreases s@.len() - i,
    {
        let here = child_path(path, &s[i].0);
        proof {
            assert(decreases_to!(*s => s@));
            assert(decreases_to!(s@ => s@[i as int]));
            assert(decreases_to!(s@[i as int] => s@[i as int].1));
            assert(s@.take(i + 1).drop_last() =~= s@.take(i as int));
            assert(s@.take(i + 1).last() == s@[i as int]);
        }
        let field = match project_block_type(&s[i].1, &here) {
            Ok(f) => f,
            Err(e) => {
                proof {
                    lemma_block_types_failure_stays(s@, p, i + 1);
                }
                return Err(e);
            },
        };
        let e = (s[i].0.clone(), field);
        proof {
            lemma_fields_view_push(out@, e);
        }
        out.push(e);
        i = i + 1;
    }
    proof {
        assert(s@.take(s@.len() as int) =~= s@);
    }
    Ok(out)
}

/// Projects a nested block found at `path`.
pub fn project_block_type(t: &TFBlockType, path: &Vec<String>) -> (r: Result<
    Attribute,
    ProjectionError,
>)
    ensures
        match r {
            Ok(x) => block_failure(t.block, path.deep_view()) is None && attr_view(x)
                == block_type_model(*t),
            Err(e) => block_failure(t.block, path.deep_view()) == Some(failure_view(e)),
        },
    decreases t,
{
    let content = match project_block(&t.block, path) {
        Ok(v) => v,
        Err(e) => {
            return Err(e);
        },
    };
    let optional = match t.min_items {
        Some(n) => n == 0,
        None => true,
    };
    Ok(
        Attribute {
            description: clone_text(&t.block.description),
            optional,
            interpolation: InterpolationStrategy::UserSupplied,
            type_: nested_type(t.nesting_mode, t.min_items, t.max_items, content),
        },
    )
}

} // verus!
