//! The schema deriver: converts a type descriptor into a schema node,
//! registering every named composite (and the shared fallback shape) in the
//! schema registry as a side effect.
//!
//! Derivation is idempotent: deriving the same descriptor again reuses the
//! existing registry entries and leaves the registry unchanged.

use vstd::prelude::*;

use crate::registry::RegistryEntryV;
use crate::registry::SchemaRegistry;
use crate::registry::lemma_reg_extends_trans;
use crate::registry::lemma_spec_register_props;
use crate::registry::lemma_spec_register_stable;
use crate::registry::reg_closed;
use crate::registry::reg_contains;
use crate::registry::reg_extends;
use crate::registry::reg_keys_unique;
use crate::registry::reg_lookup;
use crate::registry::reg_names;
use crate::registry::spec_register;
use crate::schema::FieldDescriptor;
use crate::schema::FieldDescriptorV;
use crate::schema::FieldSchema;
use crate::schema::FieldSchemaV;
use crate::schema::SchemaNode;
use crate::schema::SchemaV;
use crate::schema::TypeDescriptor;
use crate::schema::TypeDescriptorV;
use crate::schema::field_descriptors_view;
use crate::schema::fields_closed;
use crate::schema::fields_schema_view;
use crate::schema::lemma_field_descriptors_view;
use crate::schema::lemma_fields_closed_monotone;
use crate::schema::lemma_fields_schema_view;
use crate::schema::lemma_schema_closed_monotone;
use crate::schema::schema_closed;
use crate::schema::schema_view;

verus! {

broadcast use vstd::std_specs::vec::axiom_vec_index_decreases;

/// The shared name under which the open-ended fallback schema is registered.
pub open spec fn spec_fallback_name() -> Seq<char> {
    "Object"@
}

/// Schema derivation: primitives map one to one, arrays wrap the element's
/// schema, a named composite registers its object schema and yields a
/// reference to the confirmed name, and a descriptorless type yields a
/// reference to the shared open-ended fallback entry.
pub open spec fn spec_derive(t: TypeDescriptorV, reg: Seq<RegistryEntryV>) -> (SchemaV, Seq<
    RegistryEntryV,
>)
    decreases t, 0int,
{
    match t {
        TypeDescriptorV::Primitive(k) => (SchemaV::Primitive(k), reg),
        TypeDescriptorV::ArrayOf(elem) => {
            let (es, reg1) = spec_derive(*elem, reg);
            (SchemaV::Array(Box::new(es)), reg1)
        },
        TypeDescriptorV::Opaque => {
            let (n, reg1) = spec_register(spec_fallback_name(), SchemaV::OpenObject, reg);
            (SchemaV::Reference(n), reg1)
        },
        TypeDescriptorV::Named { name, fields } => {
            let (fvs, reg1) = spec_derive_fields(fields, reg);
            let (n, reg2) = spec_register(name, SchemaV::Object(fvs), reg1);
            (SchemaV::Reference(n), reg2)
        },
    }
}

/// Derivation of a field list, left to right, threading the registry.
pub open spec fn spec_derive_fields(fs: Seq<FieldDescriptorV>, reg: Seq<RegistryEntryV>) -> (Seq<
    FieldSchemaV,
>, Seq<RegistryEntryV>)
    decreases fs, 0int,
{
    if fs.len() == 0 {
        (Seq::empty(), reg)
    } else {
        let (front, reg1) = spec_derive_fields(fs.drop_last(), reg);
        let (sv, reg2) = spec_derive(fs.last().ty, reg1);
        (
            front.push(FieldSchemaV { name: fs.last().name, schema: sv, nullable: fs.last().nullable }),
            reg2,
        )
    }
}

/// What derivation does to the registry: keys stay unique, the registry only
/// grows, the derived schema's references all resolve in the new registry,
/// and closure of the registry's own references is preserved.
pub proof fn lemma_spec_derive_props(t: TypeDescriptorV, reg: Seq<RegistryEntryV>)
    requires
        reg_keys_unique(reg),
    ensures
        ({
            let (sv, reg2) = spec_derive(t, reg);
            &&& reg_keys_unique(reg2)
            &&& reg_extends(reg, reg2)
            &&& schema_closed(sv, reg_names(reg2))
            &&& reg_closed(reg) ==> reg_closed(reg2)
        }),
    decreases t, 0int,
{
    let (sv, reg2) = spec_derive(t, reg);
    match t {
        TypeDescriptorV::Primitive(k) => {},
        TypeDescriptorV::ArrayOf(elem) => {
            lemma_spec_derive_props(*elem, reg);
        },
        TypeDescriptorV::Opaque => {
            lemma_spec_register_props(spec_fallback_name(), SchemaV::OpenObject, reg);
        },
        TypeDescriptorV::Named { name, fields } => {
            lemma_spec_derive_fields_props(fields, reg);
            let (fvs, reg1) = spec_derive_fields(fields, reg);
            lemma_spec_register_props(name, SchemaV::Object(fvs), reg1);
            let (n, regr) = spec_register(name, SchemaV::Object(fvs), reg1);
            lemma_reg_extends_trans(reg, reg1, regr);
            assert(reg_names(reg1).subset_of(reg_names(regr)));
        },
    }
}

pub proof fn lemma_spec_derive_fields_props(fs: Seq<FieldDescriptorV>, reg: Seq<RegistryEntryV>)
    requires
        reg_keys_unique(reg),
    ensures
        ({
            let (fvs, reg2) = spec_derive_fields(fs, reg);
            &&& reg_keys_unique(reg2)
            &&& reg_extends(reg, reg2)
            &&& fvs.len() == fs.len()
            &&& fields_closed(fvs, reg_names(reg2))
            &&& reg_closed(reg) ==> reg_closed(reg2)
        }),
    decreases fs, 0int,
{
    let (fvs, reg2) = spec_derive_fields(fs, reg);
    if fs.len() == 0 {
        assert(reg_extends(reg, reg));
    } else {
        lemma_spec_derive_fields_props(fs.drop_last(), reg);
        let (front, reg1) = spec_derive_fields(fs.drop_last(), reg);
        lemma_spec_derive_props(fs.last().ty, reg1);
        let (sv, regr) = spec_derive(fs.last().ty, reg1);
        lemma_reg_extends_trans(reg, reg1, regr);
        assert(reg_names(reg1).subset_of(reg_names(regr)));
        lemma_fields_closed_monotone(front, reg_names(reg1), reg_names(regr));
        let fv = FieldSchemaV { name: fs.last().name, schema: sv, nullable: fs.last().nullable };
        assert(fields_closed(fvs, reg_names(regr))) by {
            lemma_fields_closed_pointwise(front, fv, reg_names(regr));
        }
    }
}

/// Appending one closed field to a closed field list keeps the list closed.
proof fn lemma_fields_closed_pointwise(
    front: Seq<FieldSchemaV>,
    fv: FieldSchemaV,
    names: Set<Seq<char>>,
)
    requires
        fields_closed(front, names),
        schema_closed(fv.schema, names),
    ensures
        fields_closed(front.push(fv), names),
    decreases front.len(),
{
    assert(fields_closed(Seq::<FieldSchemaV>::empty(), names));
    if front.len() == 0 {
        assert(front.push(fv)[0] == fv);
        assert(front.push(fv).drop_first() =~= Seq::<FieldSchemaV>::empty());
        assert(fields_closed(front.push(fv), names));
    } else {
        lemma_fields_closed_pointwise(front.drop_first(), fv, names);
        assert(front.push(fv).drop_first() =~= front.drop_first().push(fv));
        assert(front.push(fv)[0] == front[0]);
        assert(schema_closed(front[0].schema, names));
        assert(fields_closed(front.push(fv), names));
    }
}

/// Derivation is stable: once a descriptor has been derived, deriving it
/// against any later registry state (one that extends the earlier result)
/// yields the same schema and changes nothing.  In particular deriving the
/// same named type twice reuses the existing entries rather than creating
/// duplicate or divergent ones.
pub proof fn lemma_spec_derive_stable(
    t: TypeDescriptorV,
    reg: Seq<RegistryEntryV>,
    regx: Seq<RegistryEntryV>,
)
    requires
        reg_keys_unique(reg),
        reg_keys_unique(regx),
        reg_extends(spec_derive(t, reg).1, regx),
    ensures
        spec_derive(t, regx) == (spec_derive(t, reg).0, regx),
    decreases t, 0int,
{
    match t {
        TypeDescriptorV::Primitive(k) => {},
        TypeDescriptorV::ArrayOf(elem) => {
            lemma_spec_derive_stable(*elem, reg, regx);
        },
        TypeDescriptorV::Opaque => {
            lemma_spec_register_stable(spec_fallback_name(), SchemaV::OpenObject, reg, regx);
        },
        TypeDescriptorV::Named { name, fields } => {
            let (fvs, reg1) = spec_derive_fields(fields, reg);
            let (n, reg2) = spec_register(name, SchemaV::Object(fvs), reg1);
            lemma_spec_derive_fields_props(fields, reg);
            lemma_spec_register_props(name, SchemaV::Object(fvs), reg1);
            lemma_reg_extends_trans(reg1, reg2, regx);
            lemma_spec_derive_fields_stable(fields, reg, regx);
            lemma_spec_register_stable(name, SchemaV::Object(fvs), reg1, regx);
        },
    }
}

pub proof fn lemma_spec_derive_fields_stable(
    fs: Seq<FieldDescriptorV>,
    reg: Seq<RegistryEntryV>,
    regx: Seq<RegistryEntryV>,
)
    requires
        reg_keys_unique(reg),
        reg_keys_unique(regx),
        reg_extends(spec_derive_fields(fs, reg).1, regx),
    ensures
        spec_derive_fields(fs, regx) == (spec_derive_fields(fs, reg).0, regx),
    decreases fs, 0int,
{
    if fs.len() == 0 {
    } else {
        let (front, reg1) = spec_derive_fields(fs.drop_last(), reg);
        let (sv, reg2) = spec_derive(fs.last().ty, reg1);
        lemma_spec_derive_fields_props(fs.drop_last(), reg);
        lemma_spec_derive_props(fs.last().ty, reg1);
        lemma_reg_extends_trans(reg1, reg2, regx);
        lemma_spec_derive_fields_stable(fs.drop_last(), reg, regx);
        lemma_spec_derive_stable(fs.last().ty, reg1, regx);
    }
}

/// Deriving the same descriptor twice in a row gives the same schema and
/// leaves the registry exactly as the first derivation left it.
pub proof fn lemma_spec_derive_idempotent(t: TypeDescriptorV, reg: Seq<RegistryEntryV>)
    requires
        reg_keys_unique(reg),
    ensures
        spec_derive(t, spec_derive(t, reg).1) == (spec_derive(t, reg).0, spec_derive(t, reg).1),
{
    lemma_spec_derive_props(t, reg);
    let (sv, reg1) = spec_derive(t, reg);
    lemma_reg_extends_trans(reg1, reg1, reg1);
    lemma_spec_derive_stable(t, reg, reg1);
}

/// Fallback coverage: a type without a structural descriptor still derives a
/// reference to a registered schema — the shared open-ended object — never a
/// missing schema.
pub proof fn lemma_fallback_coverage(reg: Seq<RegistryEntryV>)
    requires
        reg_keys_unique(reg),
    ensures
        ({
            let (sv, reg2) = spec_derive(TypeDescriptorV::Opaque, reg);
            &&& sv matches SchemaV::Reference(n) && reg_contains(reg2, n) && reg_lookup(reg2, n)
                == SchemaV::OpenObject
        }),
{
    lemma_spec_register_props(spec_fallback_name(), SchemaV::OpenObject, reg);
}


/// Derive the schema of one type descriptor, registering named composites
/// (and the shared fallback entry) in `reg` as `spec_derive` prescribes.
pub fn derive_schema(ty: &TypeDescriptor, reg: &mut SchemaRegistry) -> (s: SchemaNode)
    requires
        old(reg).wf(),
    ensures
        final(reg).wf(),
        schema_view(s) == spec_derive(ty@, old(reg)@).0,
        final(reg)@ == spec_derive(ty@, old(reg)@).1,
    decreases ty, 1int,
{
    proof {
        lemma_spec_derive_props(ty@, reg@);
    }
    match ty {
        TypeDescriptor::Primitive(k) => SchemaNode::Primitive(*k),
        TypeDescriptor::ArrayOf(elem) => {
            let inner = derive_schema(&**elem, reg);
            SchemaNode::Array(Box::new(inner))
        },
        TypeDescriptor::Opaque => {
            let n = reg.register("Object".to_owned(), SchemaNode::OpenObject);
            SchemaNode::Reference(n)
        },
        TypeDescriptor::Named { name, fields } => {
            let fschemas = derive_fields(fields, reg);
            let ghost fvs = fields_schema_view(fschemas, fschemas.len() as int);
            let n = reg.register(name.clone(), SchemaNode::Object(fschemas));
            SchemaNode::Reference(n)
        },
    }
}

/// Derive the schemas of a field list, left to right.
fn derive_fields(fields: &Vec<FieldDescriptor>, reg: &mut SchemaRegistry) -> (out: Vec<
    FieldSchema,
>)
    requires
        old(reg).wf(),
    ensures
        final(reg).wf(),
        fields_schema_view(out, out.len() as int) == spec_derive_fields(
            field_descriptors_view(*fields, fields.len() as int),
            old(reg)@,
        ).0,
        final(reg)@ == spec_derive_fields(
            field_descriptors_view(*fields, fields.len() as int),
            old(reg)@,
        ).1,
    decreases fields, 0int,
{
    let ghost fsv = field_descriptors_view(*fields, fields.len() as int);
    let ghost reg0 = reg@;
    proof {
        lemma_field_descriptors_view(*fields, fields.len() as int);
    }
    let mut out: Vec<FieldSchema> = Vec::new();
    let n = fields.len();
    let mut i: usize = 0;
    proof {
        assert(fsv.take(0) =~= Seq::<FieldDescriptorV>::empty());
        assert(fields_schema_view(out, 0) =~= Seq::<FieldSchemaV>::empty());
    }
    while i < n
        invariant
            0 <= i <= n,
            n == fields.len(),
            reg.wf(),
            reg0 == old(reg)@,
            fsv == field_descriptors_view(*fields, fields.len() as int),
            fsv.len() == n,
            forall|j: int| 0 <= j < n ==> fsv[j] == fields[j]@,
            out.len() == i,
            fields_schema_view(out, i as int) == spec_derive_fields(fsv.take(i as int), reg0).0,
            reg@ == spec_derive_fields(fsv.take(i as int), reg0).1,
        decreases n - i,
    {
        let ghost taken = fsv.take(i as int);
        let ghost taken1 = fsv.take(i as int + 1);
        proof {
            assert(taken1.drop_last() =~= taken);
            assert(taken1.last() == fsv[i as int]);
        }
        let sch = derive_schema(&fields[i].ty, reg);
        let ghost out_before = out;
        out.push(
            FieldSchema { name: fields[i].name.clone(), schema: sch, nullable: fields[i].nullable },
        );
        proof {
            lemma_fields_schema_view(out_before, i as int);
            lemma_fields_schema_view(out, i as int);
            lemma_fields_schema_view(out, i as int + 1);
            assert(forall|j: int| 0 <= j < i ==> out[j] == out_before[j]);
            assert(fields_schema_view(out, i as int) =~= fields_schema_view(
                out_before,
                i as int,
            ));
            assert(out[i as int] == FieldSchema {
                name: fields[i as int].name,
                schema: sch,
                nullable: fields[i as int].nullable,
            });
            assert(fields_schema_view(out, i as int + 1) == fields_schema_view(
                out,
                i as int,
            ).push(out[i as int]@));
            assert(out[i as int]@ == FieldSchemaV {
                name: fsv[i as int].name,
                schema: schema_view(sch),
                nullable: fsv[i as int].nullable,
            });
        }
        i += 1;
    }
    proof {
        assert(fsv.take(n as int) =~= fsv);
    }
    out
}

} // verus!
