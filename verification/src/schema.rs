//! Structural schemas and the type descriptors they are derived from.
//!
//! A `SchemaNode` describes the shape of a data type as it appears in the
//! generated document: a primitive, an object with named fields, an
//! open-ended object, an array, or a by-name reference into the schema
//! registry.  A `TypeDescriptor` is the input side: the structural
//! self-description that a request or response type supplies (or does not
//! supply, in which case the open-ended fallback shape is used).

use vstd::prelude::*;

verus! {

broadcast use vstd::std_specs::vec::axiom_vec_index_decreases;

/// The primitive schema kinds.
#[derive(Clone, Copy, PartialEq, Eq, Structural, Debug)]
pub enum PrimitiveKind {
    Text,
    Integer,
    Boolean,
    Number,
}

/// One named field of an object schema; `nullable` records that the field's
/// value may be absent/null without changing the field's schema kind.
pub struct FieldSchema {
    pub name: String,
    pub schema: SchemaNode,
    pub nullable: bool,
}

/// A structural schema node.
pub enum SchemaNode {
    /// A primitive type.
    Primitive(PrimitiveKind),
    /// An object with an ordered list of named fields.
    Object(Vec<FieldSchema>),
    /// An open-ended object: any property names, string-typed values.
    /// This is the shape registered for types without a descriptor.
    OpenObject,
    /// An array of elements of one schema.
    Array(Box<SchemaNode>),
    /// A by-name reference to an entry of the schema registry.
    Reference(String),
}

/// Mathematical model of a field schema.
#[verifier::ext_equal]
pub struct FieldSchemaV {
    pub name: Seq<char>,
    pub schema: SchemaV,
    pub nullable: bool,
}

/// Mathematical model of a schema node.
#[verifier::ext_equal]
pub enum SchemaV {
    Primitive(PrimitiveKind),
    Object(Seq<FieldSchemaV>),
    OpenObject,
    Array(Box<SchemaV>),
    Reference(Seq<char>),
}

pub open spec fn field_schema_view(f: FieldSchema) -> FieldSchemaV
    decreases f, 0int,
{
    FieldSchemaV { name: f.name@, schema: schema_view(f.schema), nullable: f.nullable }
}

/// The views of the first `i` fields, in order.
pub open spec fn fields_schema_view(fields: Vec<FieldSchema>, i: int) -> Seq<FieldSchemaV>
    decreases fields, i,
{
    if 0 < i <= fields.len() {
        fields_schema_view(fields, i - 1).push(field_schema_view(fields[i - 1]))
    } else {
        Seq::empty()
    }
}

pub open spec fn schema_view(s: SchemaNode) -> SchemaV
    decreases s, 0int,
{
    match s {
        SchemaNode::Primitive(k) => SchemaV::Primitive(k),
        SchemaNode::Object(fields) => SchemaV::Object(
            fields_schema_view(fields, fields.len() as int),
        ),
        SchemaNode::OpenObject => SchemaV::OpenObject,
        SchemaNode::Array(elem) => SchemaV::Array(Box::new(schema_view(*elem))),
        SchemaNode::Reference(name) => SchemaV::Reference(name@),
    }
}

/// The view of a field list has one entry per field, the field's view.
pub proof fn lemma_fields_schema_view(fields: Vec<FieldSchema>, i: int)
    requires
        0 <= i <= fields.len(),
    ensures
        fields_schema_view(fields, i).len() == i,
        forall|j: int|
            0 <= j < i ==> fields_schema_view(fields, i)[j] == field_schema_view(fields[j]),
    decreases i,
{
    if 0 < i {
        lemma_fields_schema_view(fields, i - 1);
    }
}

/// One named field of a composite type descriptor.
pub struct FieldDescriptor {
    pub name: String,
    pub ty: TypeDescriptor,
    pub nullable: bool,
}

/// The structural self-description of a request or response type, as supplied
/// by the routing side.  A type that provides no such description is
/// `Opaque`; deriving its schema falls back to the shared open-ended object.
pub enum TypeDescriptor {
    /// A primitive type.
    Primitive(PrimitiveKind),
    /// A named composite (struct-like) type with ordered fields.
    Named { name: String, fields: Vec<FieldDescriptor> },
    /// A sequence of elements of one type.
    ArrayOf(Box<TypeDescriptor>),
    /// No structural self-description available.
    Opaque,
}

/// Mathematical model of a field descriptor.
#[verifier::ext_equal]
pub struct FieldDescriptorV {
    pub name: Seq<char>,
    pub ty: TypeDescriptorV,
    pub nullable: bool,
}

/// Mathematical model of a type descriptor.
#[verifier::ext_equal]
pub enum TypeDescriptorV {
    Primitive(PrimitiveKind),
    Named { name: Seq<char>, fields: Seq<FieldDescriptorV> },
    ArrayOf(Box<TypeDescriptorV>),
    Opaque,
}

pub open spec fn field_descriptor_view(f: FieldDescriptor) -> FieldDescriptorV
    decreases f, 0int,
{
    FieldDescriptorV { name: f.name@, ty: type_descriptor_view(f.ty), nullable: f.nullable }
}

/// The views of the first `i` field descriptors, in order.
pub open spec fn field_descriptors_view(fields: Vec<FieldDescriptor>, i: int) -> Seq<
    FieldDescriptorV,
>
    decreases fields, i,
{
    if 0 < i <= fields.len() {
        field_descriptors_view(fields, i - 1).push(field_descriptor_view(fields[i - 1]))
    } else {
        Seq::empty()
    }
}

pub open spec fn type_descriptor_view(t: TypeDescriptor) -> TypeDescriptorV
    decreases t, 0int,
{
    match t {
        TypeDescriptor::Primitive(k) => TypeDescriptorV::Primitive(k),
        TypeDescriptor::Named { name, fields } => TypeDescriptorV::Named {
            name: name@,
            fields: field_descriptors_view(fields, fields.len() as int),
        },
        TypeDescriptor::ArrayOf(elem) => TypeDescriptorV::ArrayOf(
            Box::new(type_descriptor_view(*elem)),
        ),
        TypeDescriptor::Opaque => TypeDescriptorV::Opaque,
    }
}

impl View for FieldDescriptor {
    type V = FieldDescriptorV;

    open spec fn view(&self) -> FieldDescriptorV {
        field_descriptor_view(*self)
    }
}

impl View for TypeDescriptor {
    type V = TypeDescriptorV;

    open spec fn view(&self) -> TypeDescriptorV {
        type_descriptor_view(*self)
    }
}

/// The view of a descriptor list has one entry per field, the field's view.
pub proof fn lemma_field_descriptors_view(fields: Vec<FieldDescriptor>, i: int)
    requires
        0 <= i <= fields.len(),
    ensures
        field_descriptors_view(fields, i).len() == i,
        forall|j: int|
            0 <= j < i ==> field_descriptors_view(fields, i)[j] == field_descriptor_view(
                fields[j],
            ),
    decreases i,
{
    if 0 < i {
        lemma_field_descriptors_view(fields, i - 1);
    }
}

/// Every reference occurring in `s` names an element of `names`.
pub open spec fn schema_closed(s: SchemaV, names: Set<Seq<char>>) -> bool
    decreases s, 0int,
{
    match s {
        SchemaV::Primitive(_) => true,
        SchemaV::Object(fields) => fields_closed(fields, names),
        SchemaV::OpenObject => true,
        SchemaV::Array(elem) => schema_closed(*elem, names),
        SchemaV::Reference(name) => names.contains(name),
    }
}

pub open spec fn fields_closed(fields: Seq<FieldSchemaV>, names: Set<Seq<char>>) -> bool
    decreases fields, 0int,
{
    if fields.len() == 0 {
        true
    } else {
        schema_closed(fields[0].schema, names) && fields_closed(fields.drop_first(), names)
    }
}

/// A schema closed under a set of names stays closed when the set grows.
pub proof fn lemma_schema_closed_monotone(s: SchemaV, n1: Set<Seq<char>>, n2: Set<Seq<char>>)
    requires
        schema_closed(s, n1),
        n1.subset_of(n2),
    ensures
        schema_closed(s, n2),
    decreases s, 0int,
{
    match s {
        SchemaV::Object(fields) => lemma_fields_closed_monotone(fields, n1, n2),
        SchemaV::Array(elem) => lemma_schema_closed_monotone(*elem, n1, n2),
        _ => (),
    }
}

pub proof fn lemma_fields_closed_monotone(
    fields: Seq<FieldSchemaV>,
    n1: Set<Seq<char>>,
    n2: Set<Seq<char>>,
)
    requires
        fields_closed(fields, n1),
        n1.subset_of(n2),
    ensures
        fields_closed(fields, n2),
    decreases fields, 0int,
{
    if fields.len() > 0 {
        lemma_schema_closed_monotone(fields[0].schema, n1, n2);
        lemma_fields_closed_monotone(fields.drop_first(), n1, n2);
    }
}

/// Structural equality of schema nodes, decided by the structure alone.
pub fn schema_eq(a: &SchemaNode, b: &SchemaNode) -> (r: bool)
    ensures
        r == (a@ == b@),
    decreases a, 0int,
{
    match a {
        SchemaNode::Primitive(ka) => match b {
            SchemaNode::Primitive(kb) => *ka == *kb,
            _ => false,
        },
        SchemaNode::OpenObject => match b {
            SchemaNode::OpenObject => true,
            _ => false,
        },
        SchemaNode::Reference(na) => match b {
            SchemaNode::Reference(nb) => *na == *nb,
            _ => false,
        },
        SchemaNode::Array(ea) => match b {
            SchemaNode::Array(eb) => schema_eq(&**ea, &**eb),
            _ => false,
        },
        SchemaNode::Object(fa) => match b {
            SchemaNode::Object(fb) => fields_eq(fa, fb),
            _ => false,
        },
    }
}

/// Structural equality of two field lists.
pub fn fields_eq(fa: &Vec<FieldSchema>, fb: &Vec<FieldSchema>) -> (r: bool)
    ensures
        r == (fields_schema_view(*fa, fa.len() as int) == fields_schema_view(
            *fb,
            fb.len() as int,
        )),
    decreases fa, 0int,
{
    proof {
        lemma_fields_schema_view(*fa, fa.len() as int);
        lemma_fields_schema_view(*fb, fb.len() as int);
    }
    let ghost va = fields_schema_view(*fa, fa.len() as int);
    let ghost vb = fields_schema_view(*fb, fb.len() as int);
    if fa.len() != fb.len() {
        return false;
    }
    let n = fa.len();
    let mut i: usize = 0;
    while i < n
        invariant
            0 <= i <= n,
            n == fa.len() == fb.len(),
            va == fields_schema_view(*fa, fa.len() as int),
            vb == fields_schema_view(*fb, fb.len() as int),
            va.len() == n,
            vb.len() == n,
            forall|j: int| 0 <= j < i ==> va[j] == vb[j],
            forall|j: int|
                0 <= j < n ==> va[j] == field_schema_view(fa[j]) && vb[j] == field_schema_view(
                    fb[j],
                ),
        decreases n - i,
    {
        if fa[i].name != fb[i].name {
            assert(va[i as int].name != vb[i as int].name);
            return false;
        }
        if fa[i].nullable != fb[i].nullable {
            assert(va[i as int] != vb[i as int]);
            return false;
        }
        if !schema_eq(&fa[i].schema, &fb[i].schema) {
            assert(va[i as int] != vb[i as int]);
            return false;
        }
        assert(va[i as int] =~= vb[i as int]);
        i += 1;
    }
    proof {
        assert(va =~= vb);
    }
    true
}

impl View for FieldSchema {
    type V = FieldSchemaV;

    open spec fn view(&self) -> FieldSchemaV {
        field_schema_view(*self)
    }
}

impl View for SchemaNode {
    type V = SchemaV;

    open spec fn view(&self) -> SchemaV {
        schema_view(*self)
    }
}

} // verus!

