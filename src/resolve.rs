//! Anchoring of computed-field descriptors on the dictionaries they describe.
//!
//! A descriptor's path is split at its first wildcard segment `"_"`. The part
//! before it leads through objects to a dictionary; the descriptor is attached
//! to that dictionary with the rest of the path, and the dictionary records the
//! leading part as its prefix.

use vstd::prelude::*;
use vstd::string::StringExecFns;

use crate::fields::{insert_field, lookup_field, remove_field};
use crate::intermediate::{
    attr_view, descriptors_view, fields_view, Attribute, AttributeModel,
    FieldDescriptor, FieldDescriptorModel, FieldsModel, GoSchema, Type, TypeModel,
};

verus! {

/// The wildcard segment: any key of the dictionary reached so far.
pub open spec fn wildcard() -> Seq<char> {
    "_"@
}

/// Index of the first wildcard segment of `p`, or its length if there is none.
pub open spec fn first_wildcard(p: Seq<Seq<char>>) -> int
    decreases p.len(),
{
    if p.len() == 0 {
        0
    } else if p[0] == wildcard() {
        0
    } else {
        1 + first_wildcard(p.drop_first())
    }
}

pub open spec fn wildcard_prefix(p: Seq<Seq<char>>) -> Seq<Seq<char>> {
    p.take(first_wildcard(p))
}

pub open spec fn wildcard_suffix(p: Seq<Seq<char>>) -> Seq<Seq<char>> {
    p.skip(first_wildcard(p))
}

/// The attribute reached by walking `path` through object contents.
pub open spec fn attr_at(m: FieldsModel, path: Seq<Seq<char>>) -> Option<AttributeModel>
    decreases path.len(),
{
    if path.len() == 0 || !m.contains_key(path[0]) {
        None
    } else if path.len() == 1 {
        Some(m[path[0]])
    } else {
        match m[path[0]].type_ {
            TypeModel::Object { open: _, content } => attr_at(content, path.drop_first()),
            _ => None,
        }
    }
}

/// `m` with the attribute reached by `path` replaced by `new`.
pub open spec fn update_at(m: FieldsModel, path: Seq<Seq<char>>, new: AttributeModel) -> FieldsModel
    decreases path.len(),
{
    if path.len() == 0 || !m.contains_key(path[0]) {
        m
    } else if path.len() == 1 {
        m.insert(path[0], new)
    } else {
        let a = m[path[0]];
        match a.type_ {
            TypeModel::Object { open, content } => m.insert(
                path[0],
                AttributeModel {
                    type_: TypeModel::Object {
                        open,
                        content: update_at(content, path.drop_first(), new),
                    },
                    ..a
                },
            ),
            _ => m,
        }
    }
}

/// A dictionary attribute after `field` is attached to it under `prefix`.
pub open spec fn anchored(a: AttributeModel, prefix: Seq<Seq<char>>, field: FieldDescriptorModel) -> AttributeModel {
    match a.type_ {
        TypeModel::Dictionary { inner, prefix: _, computed_fields } => AttributeModel {
            type_: TypeModel::Dictionary {
                inner,
                prefix,
                computed_fields: computed_fields.push(field),
            },
            ..a
        },
        _ => a,
    }
}

/// What handling one descriptor does to a schema.
pub enum StepModel {
    Attached(FieldsModel),
    Deferred,
    Ambiguous { existing: Seq<Seq<char>>, claimed: Seq<Seq<char>> },
}

pub open spec fn resolve_step(m: FieldsModel, fd: FieldDescriptorModel) -> StepModel {
    let prefix = wildcard_prefix(fd.path);
    match attr_at(m, prefix) {
        Some(a) => match a.type_ {
            TypeModel::Dictionary { inner: _, prefix: existing, computed_fields: _ } => {
                if existing.len() == 0 || existing == prefix {
                    StepModel::Attached(
                        update_at(
                            m,
                            prefix,
                            anchored(
                                a,
                                prefix,
                                FieldDescriptorModel { force: fd.force, path: wildcard_suffix(fd.path) },
                            ),
                        ),
                    )
                } else {
                    StepModel::Ambiguous { existing, claimed: prefix }
                }
            },
            _ => StepModel::Deferred,
        },
        None => StepModel::Deferred,
    }
}

/// Outcome of handling a list of descriptors in order.
pub enum ResolutionModel {
    Resolved { schema: FieldsModel, leftover: Seq<FieldDescriptorModel> },
    Ambiguous { existing: Seq<Seq<char>>, claimed: Seq<Seq<char>> },
}

pub open spec fn resolve_fields(m: FieldsModel, fds: Seq<FieldDescriptorModel>) -> ResolutionModel
    decreases fds.len(),
{
    if fds.len() == 0 {
        ResolutionModel::Resolved { schema: m, leftover: Seq::empty() }
    } else {
        match resolve_fields(m, fds.drop_last()) {
            ResolutionModel::Resolved { schema, leftover } => match resolve_step(schema, fds.last()) {
                StepModel::Attached(next) => ResolutionModel::Resolved { schema: next, leftover },
                StepModel::Deferred => ResolutionModel::Resolved {
                    schema,
                    leftover: leftover.push(fds.last()),
                },
                StepModel::Ambiguous { existing, claimed } => ResolutionModel::Ambiguous {
                    existing,
                    claimed,
                },
            },
            failed => failed,
        }
    }
}

/// Every descriptor whose prefix reaches an attribute reaches a dictionary.
pub open spec fn anchors_on_dictionaries(m: FieldsModel, fds: Seq<FieldDescriptorModel>) -> bool {
    forall|i: int|
        0 <= i < fds.len() ==> match #[trigger] attr_at(m, wildcard_prefix(fds[i].path)) {
            Some(a) => a.type_ is Dictionary,
            None => true,
        }
}

#[derive(Debug)]
pub enum ResolveError {
    /// A dictionary already anchored under `existing` was claimed under `claimed`.
    AmbiguousAnchor { existing: Vec<String>, claimed: Vec<String> },
    /// Descriptors whose prefix reached no attribute.
    LeftoverComputedFields { fields: Vec<FieldDescriptor> },
}


/// A copy of the segments `from..to` of `p`.
pub fn copy_segments(p: &Vec<String>, from: usize, to: usize) -> (r: Vec<String>)
    requires
        from <= to <= p@.len(),
    ensures
        r.deep_view() == p.deep_view().subrange(from as int, to as int),
{
    let mut r: Vec<String> = Vec::new();
    let mut i: usize = from;
    while i < to
        invariant
            from <= i <= to <= p@.len(),
            r.deep_view() == p.deep_view().subrange(from as int, i as int),
        decreases to - i,
    {
        let ghost before = r@;
        let ghost before_dv = r.deep_view();
        let seg = p[i].clone();
        r.push(seg);
        proof {
            let target = p.deep_view().subrange(from as int, i + 1);
            assert(before_dv.len() == before.len());
            assert(before.len() == i - from);
            assert(r@.len() == before.len() + 1);
            assert(target.len() == r@.len());
            assert forall|k: int| 0 <= k < r@.len() implies r.deep_view()[k] == target[k] by {
                if k < before.len() {
                    assert(r@[k] == before[k]);
                    assert(before_dv[k] == before[k]@);
                } else {
                    assert(r@[k] == seg);
                }
            }
            assert(r.deep_view() =~= target);
        }
        i = i + 1;
    }
    r
}

/// Whether two paths hold the same segments.
pub fn same_segments(a: &Vec<String>, b: &Vec<String>) -> (r: bool)
    ensures
        r == (a.deep_view() == b.deep_view()),
{
    if a.len() != b.len() {
        proof {
            assert(a.deep_view().len() != b.deep_view().len());
        }
        return false;
    }
    let mut i: usize = 0;
    while i < a.len()
        invariant
            a@.len() == b@.len(),
            i <= a@.len(),
            forall|j: int| 0 <= j < i ==> a.deep_view()[j] == b.deep_view()[j],
        decreases a@.len() - i,
    {
        if a[i] != b[i] {
            proof {
                assert(a.deep_view()[i as int] != b.deep_view()[i as int]);
            }
            return false;
        }
        i = i + 1;
    }
    assert(a.deep_view() =~= b.deep_view());
    true
}

proof fn lemma_first_wildcard(p: Seq<Seq<char>>, i: int)
    requires
        0 <= i <= p.len(),
        forall|j: int| 0 <= j < i ==> p[j] != wildcard(),
        i == p.len() || p[i] == wildcard(),
    ensures
        first_wildcard(p) == i,
    decreases i,
{
    if i > 0 {
        lemma_first_wildcard(p.drop_first(), i - 1);
    }
}

impl FieldDescriptor {
    /// The path before its first wildcard segment, and the rest from it on.
    pub fn split_at_first_wildcard(&self) -> (r: (Vec<String>, Vec<String>))
        ensures
            r.0.deep_view() == wildcard_prefix(self@.path),
            r.1.deep_view() == wildcard_suffix(self@.path),
    {
        let w = String::from_str("_");
        proof {
            reveal_strlit("_");
        }
        let mut i: usize = 0;
        while i < self.path.len() && self.path[i] != w
            invariant
                i <= self.path@.len(),
                w@ == wildcard(),
                forall|j: int| 0 <= j < i ==> self@.path[j] != wildcard(),
            decreases self.path@.len() - i,
        {
            i = i + 1;
        }
        proof {
            lemma_first_wildcard(self@.path, i as int);
        }
        (copy_segments(&self.path, 0, i), copy_segments(&self.path, i, self.path.len()))
    }
}

/// The attribute reached by walking `path` through object contents of `schema`.
pub fn attribute_at_path<'a>(schema: &'a Vec<(String, Attribute)>, path: &Vec<String>) -> (r: Option<
    &'a Attribute,
>)
    ensures
        match r {
            Some(a) => attr_at(fields_view(schema@), path.deep_view()) == Some(attr_view(*a)),
            None => attr_at(fields_view(schema@), path.deep_view()) is None,
        },
{
    if path.len() == 0 {
        return None;
    }
    let ghost whole = path.deep_view();
    let mut obj: &'a Vec<(String, Attribute)> = schema;
    let mut i: usize = 0;
    assert(whole.skip(0) =~= whole);
    while i < path.len() - 1
        invariant
            i < path@.len(),
            whole == path.deep_view(),
            attr_at(fields_view(schema@), whole) == attr_at(fields_view(obj@), whole.skip(i as int)),
        decreases path@.len() - i,
    {
        let ghost rest = whole.skip(i as int);
        assert(rest[0] == path[i as int]@);
        assert(rest.drop_first() =~= whole.skip(i + 1));
        match lookup_field(obj, &path[i]) {
            Some(a) => match &a.type_ {
                Type::Object { open: _, content } => {
                    obj = content;
                },
                _ => {
                    return None;
                },
            },
            None => {
                return None;
            },
        }
        i = i + 1;
    }
    let ghost rest = whole.skip(i as int);
    assert(rest[0] == path[i as int]@);
    lookup_field(obj, &path[i])
}


/// Attaches `field` to the dictionary reached by `path` from segment `depth`
/// on, recording the whole of `path` as its prefix.
fn anchor_at(entries: &mut Vec<(String, Attribute)>, path: &Vec<String>, depth: usize, field: FieldDescriptor)
    requires
        depth < path@.len(),
        attr_at(fields_view(old(entries)@), path.deep_view().skip(depth as int)) matches Some(a)
            && a.type_ is Dictionary,
    ensures
        fields_view(final(entries)@) == update_at(
            fields_view(old(entries)@),
            path.deep_view().skip(depth as int),
            anchored(
                attr_at(fields_view(old(entries)@), path.deep_view().skip(depth as int)).unwrap(),
                path.deep_view(),
                field@,
            ),
        ),
    decreases path@.len() - depth,
{
    let ghost m = fields_view(entries@);
    let ghost rest = path.deep_view().skip(depth as int);
    assert(rest[0] == path[depth as int]@);
    assert(rest.drop_first() =~= path.deep_view().skip(depth + 1));
    let removed = remove_field(entries, &path[depth]);
    let a = match removed {
        Some(a) => a,
        None => {
            proof {
                assert(false);
            }
            return;
        },
    };
    let ghost av = attr_view(a);
    let Attribute { description, optional, interpolation, type_ } = a;
    let ghost target = anchored(attr_at(m, rest).unwrap(), path.deep_view(), field@);
    if depth == path.len() - 1 {
        match type_ {
            Type::Dictionary { inner, prefix: _, computed_fields } => {
                let mut computed_fields = computed_fields;
                let ghost before = computed_fields@;
                computed_fields.push(field);
                proof {
                    assert(descriptors_view(computed_fields@) =~= descriptors_view(before).push(
                        field@,
                    ));
                }
                let prefix = copy_segments(path, 0, path.len());
                let updated = Attribute {
                    description,
                    optional,
                    interpolation,
                    type_: Type::Dictionary { inner, prefix, computed_fields },
                };
                proof {
                    assert(path.deep_view().subrange(0, path@.len() as int) =~= path.deep_view());
                    assert(attr_view(updated) == target);
                }
                insert_field(entries, path[depth].clone(), updated);
                proof {
                    assert(fields_view(entries@) =~= update_at(m, rest, target));
                }
            },
            _ => {
                proof {
                    assert(false);
                }
            },
        }
    } else {
        match type_ {
            Type::Object { open, content } => {
                let mut content = content;
                anchor_at(&mut content, path, depth + 1, field);
                let updated = Attribute {
                    description,
                    optional,
                    interpolation,
                    type_: Type::Object { open, content },
                };
                insert_field(entries, path[depth].clone(), updated);
                proof {
                    assert(fields_view(entries@) =~= update_at(m, rest, target));
                }
            },
            _ => {
                proof {
                    assert(false);
                }
            },
        }
    }
}


/// Replacing a dictionary by a dictionary keeps every other dictionary where
/// it was, and every path reaches an attribute of the same kind as before.
pub proof fn lemma_update_at_dictionary(
    m: FieldsModel,
    p: Seq<Seq<char>>,
    new: AttributeModel,
    q: Seq<Seq<char>>,
)
    requires
        attr_at(m, p) matches Some(a) && a.type_ is Dictionary,
        new.type_ is Dictionary,
    ensures
        q == p ==> attr_at(update_at(m, p, new), q) == Some(new),
        q != p && (attr_at(m, q) matches Some(b) && b.type_ is Dictionary) ==> attr_at(
            update_at(m, p, new),
            q,
        ) == attr_at(m, q),
        attr_at(update_at(m, p, new), q) matches Some(b2) ==> (attr_at(m, q) matches Some(b) && (
        b2.type_ is Dictionary <==> b.type_ is Dictionary)),
    decreases q.len(),
{
    let m2 = update_at(m, p, new);
    assert(m2.dom() =~= m.dom());
    if q.len() > 0 && q[0] == p[0] && p.len() > 1 && q.len() > 1 {
        let a = m[p[0]];
        match a.type_ {
            TypeModel::Object { open: _, content } => {
                lemma_update_at_dictionary(content, p.drop_first(), new, q.drop_first());
                if q.drop_first() == p.drop_first() {
                    assert forall|i: int| 0 <= i < q.len() implies q[i] == p[i] by {
                        if i > 0 {
                            assert(q[i] == q.drop_first()[i - 1]);
                            assert(p[i] == p.drop_first()[i - 1]);
                        }
                    }
                    assert(q =~= p);
                }
                if q == p {
                    assert(q.drop_first() =~= p.drop_first());
                }
            },
            _ => {},
        }
    }
    if q.len() > 0 && q.len() == p.len() && q.len() == 1 && q[0] == p[0] {
        assert(q =~= p);
    }
}

/// Once a descriptor is ambiguous, handling more descriptors changes nothing.
pub proof fn lemma_ambiguity_is_final(m: FieldsModel, fds: Seq<FieldDescriptorModel>, k: int)
    requires
        0 <= k <= fds.len(),
        resolve_fields(m, fds.take(k)) is Ambiguous,
    ensures
        resolve_fields(m, fds) == resolve_fields(m, fds.take(k)),
    decreases fds.len() - k,
{
    if k == fds.len() {
        assert(fds.take(k) =~= fds);
    } else {
        assert(fds.take(k + 1).drop_last() =~= fds.take(k));
        lemma_ambiguity_is_final(m, fds, k + 1);
    }
}

impl FieldDescriptor {
    /// Attaches this descriptor to the dictionary its prefix reaches; hands it
    /// back when the prefix reaches nothing.
    pub fn push_down(self, schema: &mut Vec<(String, Attribute)>) -> (r: Result<
        Option<FieldDescriptor>,
        ResolveError,
    >)
        requires
            match attr_at(fields_view(old(schema)@), wildcard_prefix(self@.path)) {
                Some(a) => a.type_ is Dictionary,
                None => true,
            },
        ensures
            match resolve_step(fields_view(old(schema)@), self@) {
                StepModel::Attached(next) => r == Ok::<Option<FieldDescriptor>, ResolveError>(None)
                    && fields_view(final(schema)@) == next,
                StepModel::Deferred => r == Ok::<Option<FieldDescriptor>, ResolveError>(Some(self))
                    && final(schema)@ == old(schema)@,
                StepModel::Ambiguous { existing, claimed } => (r matches Err(
                    ResolveError::AmbiguousAnchor { existing: e, claimed: c },
                ) && e.deep_view() == existing && c.deep_view() == claimed) && final(schema)@
                    == old(schema)@,
            },
    {
        let (prefix, rest) = self.split_at_first_wildcard();
        let conflict: Option<Vec<String>> = match attribute_at_path(schema, &prefix) {
            None => {
                return Ok(Some(self));
            },
            Some(a) => match &a.type_ {
                Type::Dictionary { inner: _, prefix: existing, computed_fields: _ } => {
                    if existing.len() == 0 || same_segments(existing, &prefix) {
                        None
                    } else {
                        Some(copy_segments(existing, 0, existing.len()))
                    }
                },
                _ => {
                    return Ok(Some(self));
                },
            },
        };
        proof {
            assert(prefix.deep_view().skip(0) =~= prefix.deep_view());
        }
        match conflict {
            Some(existing) => {
                proof {
                    assert(existing.deep_view() =~= existing.deep_view().subrange(0, existing@.len() as int));
                }
                Err(ResolveError::AmbiguousAnchor { existing, claimed: prefix })
            },
            None => {
                anchor_at(schema, &prefix, 0, FieldDescriptor { force: self.force, path: rest });
                Ok(None)
            },
        }
    }
}


/// Every descriptor's prefix reaches a dictionary that is either not yet
/// anchored or anchored under that very prefix.
pub open spec fn anchors_consistent(m: FieldsModel, fds: Seq<FieldDescriptorModel>) -> bool {
    forall|i: int|
        0 <= i < fds.len() ==> match #[trigger] attr_at(m, wildcard_prefix(fds[i].path)) {
            Some(a) => match a.type_ {
                TypeModel::Dictionary { inner: _, prefix, computed_fields: _ } => prefix.len() == 0
                    || prefix == wildcard_prefix(fds[i].path),
                _ => false,
            },
            None => false,
        }
}

/// When every descriptor's prefix reaches a dictionary and no dictionary is
/// claimed under two prefixes, resolution attaches every descriptor.
pub proof fn lemma_consistent_anchors_leave_nothing(m: FieldsModel, fds: Seq<FieldDescriptorModel>)
    requires
        anchors_consistent(m, fds),
    ensures
        resolve_fields(m, fds) matches ResolutionModel::Resolved { schema: _, leftover }
            && leftover.len() == 0,
{
    lemma_consistent_prefix(m, fds, fds.len() as int);
    assert(fds.take(fds.len() as int) =~= fds);
}

proof fn lemma_consistent_prefix(m: FieldsModel, fds: Seq<FieldDescriptorModel>, k: int)
    requires
        0 <= k <= fds.len(),
        anchors_consistent(m, fds),
    ensures
        resolve_fields(m, fds.take(k)) matches ResolutionModel::Resolved { schema, leftover }
            && leftover.len() == 0 && anchors_consistent(schema, fds),
    decreases k,
{
    if k == 0 {
        assert(fds.take(0).len() == 0);
    } else {
        lemma_consistent_prefix(m, fds, k - 1);
        assert(fds.take(k).drop_last() =~= fds.take(k - 1));
        let schema = resolve_fields(m, fds.take(k - 1))->Resolved_schema;
        let fd = fds[k - 1];
        let p = wildcard_prefix(fd.path);
        assert(attr_at(schema, wildcard_prefix(fds[k - 1].path)) is Some);
        let a = attr_at(schema, p).unwrap();
        let new = anchored(a, p, FieldDescriptorModel { force: fd.force, path: wildcard_suffix(fd.path) });
        let next = update_at(schema, p, new);
        assert forall|i: int| 0 <= i < fds.len() implies match #[trigger] attr_at(
            next,
            wildcard_prefix(fds[i].path),
        ) {
            Some(b) => match b.type_ {
                TypeModel::Dictionary { inner: _, prefix, computed_fields: _ } => prefix.len() == 0
                    || prefix == wildcard_prefix(fds[i].path),
                _ => false,
            },
            None => false,
        } by {
            assert(attr_at(schema, wildcard_prefix(fds[i].path)) is Some);
            lemma_update_at_dictionary(schema, p, new, wildcard_prefix(fds[i].path));
        }
    }
}

/// Whether every descriptor whose prefix reaches an attribute of `schema`
/// reaches a dictionary.
pub fn anchors_are_dictionaries(schema: &Vec<(String, Attribute)>, fds: &Vec<FieldDescriptor>) -> (r: bool)
    ensures
        r == anchors_on_dictionaries(fields_view(schema@), descriptors_view(fds@)),
{
    let ghost m = fields_view(schema@);
    let ghost d = descriptors_view(fds@);
    let mut i: usize = 0;
    while i < fds.len()
        invariant
            i <= fds@.len(),
            m == fields_view(schema@),
            d == descriptors_view(fds@),
            forall|j: int|
                0 <= j < i ==> match #[trigger] attr_at(m, wildcard_prefix(d[j].path)) {
                    Some(a) => a.type_ is Dictionary,
                    None => true,
                },
        decreases fds@.len() - i,
    {
        let (prefix, _) = fds[i].split_at_first_wildcard();
        assert(d[i as int] == fds@[i as int]@);
        match attribute_at_path(schema, &prefix) {
            Some(a) => match &a.type_ {
                Type::Dictionary { .. } => {},
                _ => {
                    return false;
                },
            },
            None => {},
        }
        i = i + 1;
    }
    true
}

impl GoSchema {
    /// Attaches every computed-field descriptor to the dictionary it describes.
    /// Fails on the first dictionary claimed under two prefixes, and when some
    /// descriptors reach no attribute at all.
    pub fn push_down_computed_fields(self) -> (r: Result<GoSchema, ResolveError>)
        requires
            anchors_on_dictionaries(fields_view(self.schema@), descriptors_view(self.computed_fields@)),
        ensures
            match resolve_fields(fields_view(self.schema@), descriptors_view(self.computed_fields@)) {
                ResolutionModel::Resolved { schema, leftover } => if leftover.len() == 0 {
                    r matches Ok(g) && g.computed_fields@.len() == 0 && fields_view(g.schema@) == schema
                } else {
                    r matches Err(ResolveError::LeftoverComputedFields { fields }) && descriptors_view(
                        fields@,
                    ) == leftover
                },
                ResolutionModel::Ambiguous { existing, claimed } => r matches Err(
                    ResolveError::AmbiguousAnchor { existing: e, claimed: c },
                ) && e.deep_view() == existing && c.deep_view() == claimed,
            },
    {
        let GoSchema { computed_fields, schema } = self;
        let mut schema = schema;
        let ghost fds = descriptors_view(computed_fields@);
        let ghost m0 = fields_view(schema@);
        let mut pending = computed_fields;
        let mut leftover: Vec<FieldDescriptor> = Vec::new();
        let ghost mut n: int = 0;
        assert(fds.skip(0) =~= fds);
        assert(descriptors_view(leftover@) =~= Seq::empty());
        while pending.len() > 0
            invariant
                0 <= n <= fds.len(),
                m0 == fields_view(self.schema@),
                fds == descriptors_view(self.computed_fields@),
                descriptors_view(pending@) == fds.skip(n),
                resolve_fields(m0, fds.take(n)) == (ResolutionModel::Resolved {
                    schema: fields_view(schema@),
                    leftover: descriptors_view(leftover@),
                }),
                anchors_on_dictionaries(fields_view(schema@), fds),
            decreases pending@.len(),
        {
            let ghost before = fields_view(schema@);
            let ghost rest = pending@;
            let fd = pending.remove(0);
            proof {
                assert(descriptors_view(rest).len() == rest.len());
                assert(n < fds.len());
                assert(fd@ == descriptors_view(rest)[0]);
                assert forall|i: int| 0 <= i < pending@.len() implies descriptors_view(pending@)[i]
                    == fds.skip(n + 1)[i] by {
                    assert(pending@[i] == rest[i + 1]);
                    assert(descriptors_view(rest)[i + 1] == fds.skip(n)[i + 1]);
                }
                assert(descriptors_view(pending@) =~= fds.skip(n + 1));
                assert(fds.take(n + 1).drop_last() =~= fds.take(n));
                assert(fds.take(n + 1).last() == fds[n]);
            }
            let ghost fdv = fd@;
            match fd.push_down(&mut schema) {
                Ok(None) => {
                    proof {
                        let p = wildcard_prefix(fdv.path);
                        let a = attr_at(before, p).unwrap();
                        let new = anchored(a, p, FieldDescriptorModel { force: fdv.force, path: wildcard_suffix(fdv.path) });
                        assert forall|i: int| 0 <= i < fds.len() implies match #[trigger] attr_at(
                            fields_view(schema@),
                            wildcard_prefix(fds[i].path),
                        ) {
                            Some(b) => b.type_ is Dictionary,
                            None => true,
                        } by {
                            lemma_update_at_dictionary(before, p, new, wildcard_prefix(fds[i].path));
                        }
                    }
                },
                Ok(Some(back)) => {
                    let ghost lv = leftover@;
                    leftover.push(back);
                    proof {
                        assert(descriptors_view(leftover@) =~= descriptors_view(lv).push(fdv));
                    }
                },
                Err(e) => {
                    proof {
                        assert(resolve_fields(m0, fds.take(n + 1)) is Ambiguous);
                        lemma_ambiguity_is_final(m0, fds, n + 1);
                    }
                    return Err(e);
                },
            }
            proof {
                n = n + 1;
            }
        }
        assert(descriptors_view(pending@).len() == pending@.len());
        assert(fds.take(n) =~= fds);
        assert(descriptors_view(leftover@).len() == leftover@.len());
        if leftover.len() == 0 {
            Ok(GoSchema { computed_fields: leftover, schema })
        } else {
            Err(ResolveError::LeftoverComputedFields { fields: leftover })
        }
    }
}


/// The segments of a path separated by dots.
pub open spec fn joined(s: Seq<Seq<char>>) -> Seq<char>
    decreases s.len(),
{
    if s.len() == 0 {
        Seq::empty()
    } else if s.len() == 1 {
        s[0]
    } else {
        joined(s.drop_last()) + "."@ + s.last()
    }
}

/// Writes a path with its segments separated by dots.
pub fn join_path(p: &Vec<String>) -> (r: String)
    ensures
        r@ == joined(p.deep_view()),
{
    let mut r = String::new();
    let mut i: usize = 0;
    while i < p.len()
        invariant
            i <= p@.len(),
            r@ == joined(p.deep_view().take(i as int)),
        decreases p@.len() - i,
    {
        proof {
            assert(p.deep_view().take(i + 1).drop_last() =~= p.deep_view().take(i as int));
            if i == 0 {
                assert(joined(p.deep_view().take(0)) == Seq::<char>::empty());
                assert(Seq::<char>::empty() + p.deep_view()[0] =~= p.deep_view()[0]);
            }
        }
        if i > 0 {
            r = r.concat(".");
        }
        r = r.concat(p[i].as_str());
        i = i + 1;
    }
    proof {
        assert(p.deep_view().take(p@.len() as int) =~= p.deep_view());
    }
    r
}

pub open spec fn resolve_error_text(e: ResolveError) -> Seq<char> {
    match e {
        ResolveError::AmbiguousAnchor { existing, claimed } => "ambiguous computed field anchor: "@
            + joined(existing.deep_view()) + " claimed as "@ + joined(claimed.deep_view()),
        ResolveError::LeftoverComputedFields { fields: _ } => "leftover computed fields"@,
    }
}

impl ResolveError {
    /// The error as text.
    pub fn message(&self) -> (r: String)
        ensures
            r@ == resolve_error_text(*self),
    {
        match self {
            ResolveError::AmbiguousAnchor { existing, claimed } => {
                let existing = join_path(existing);
                let claimed = join_path(claimed);
                String::from_str("ambiguous computed field anchor: ").concat(existing.as_str()).concat(
                    " claimed as ",
                ).concat(claimed.as_str())
            },
            ResolveError::LeftoverComputedFields { fields: _ } => String::from_str(
                "leftover computed fields",
            ),
        }
    }
}

} // verus!
