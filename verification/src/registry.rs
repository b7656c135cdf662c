//! The schema registry: an order-stable, deduplicating table mapping schema
//! names to schema definitions.
//!
//! `register` implements the collision policy: a fresh name is inserted as
//! given; a name already holding a structurally identical schema is reused
//! unchanged (deduplication); a name holding a different schema is
//! deterministically disambiguated by suffixing underscores until a name is
//! reached that is free or holds the identical schema.  An entry, once
//! inserted, is never overwritten or removed.

use vstd::prelude::*;

use crate::schema::SchemaNode;
use crate::schema::SchemaV;
use crate::schema::lemma_schema_closed_monotone;
use crate::schema::schema_closed;
use crate::schema::schema_eq;
use crate::schema::schema_view;

verus! {

/// One registry entry: a schema definition under its confirmed name.
pub struct RegistryEntry {
    pub name: String,
    pub schema: SchemaNode,
}

/// Mathematical model of a registry entry.
#[verifier::ext_equal]
pub struct RegistryEntryV {
    pub name: Seq<char>,
    pub schema: SchemaV,
}

impl View for RegistryEntry {
    type V = RegistryEntryV;

    open spec fn view(&self) -> RegistryEntryV {
        RegistryEntryV { name: self.name@, schema: schema_view(self.schema) }
    }
}

/// The schema registry; entries are kept in insertion order.
pub struct SchemaRegistry {
    pub entries: Vec<RegistryEntry>,
}

impl View for SchemaRegistry {
    type V = Seq<RegistryEntryV>;

    open spec fn view(&self) -> Seq<RegistryEntryV> {
        Seq::new(self.entries@.len(), |i: int| self.entries@[i]@)
    }
}

/// Some entry of `reg` is named `name`.
pub open spec fn reg_contains(reg: Seq<RegistryEntryV>, name: Seq<char>) -> bool {
    exists|i: int| 0 <= i < reg.len() && reg[i].name == name
}

/// The set of names registered in `reg`.
pub open spec fn reg_names(reg: Seq<RegistryEntryV>) -> Set<Seq<char>> {
    Set::new(|n: Seq<char>| reg_contains(reg, n))
}

/// The index of the entry named `name` (unique when the keys are unique).
pub open spec fn reg_index_of(reg: Seq<RegistryEntryV>, name: Seq<char>) -> int {
    choose|i: int| 0 <= i < reg.len() && reg[i].name == name
}

/// The schema registered under `name`.
pub open spec fn reg_lookup(reg: Seq<RegistryEntryV>, name: Seq<char>) -> SchemaV {
    reg[reg_index_of(reg, name)].schema
}

/// No two entries share a name.
pub open spec fn reg_keys_unique(reg: Seq<RegistryEntryV>) -> bool {
    forall|i: int, j: int| 0 <= i < j < reg.len() ==> reg[i].name != reg[j].name
}

/// `new` keeps every entry of `old`, at its position, and only appends.
pub open spec fn reg_extends(old: Seq<RegistryEntryV>, new: Seq<RegistryEntryV>) -> bool {
    &&& old.len() <= new.len()
    &&& forall|i: int| 0 <= i < old.len() ==> new[i] == old[i]
}

/// Every reference inside every registered schema resolves within `reg`.
pub open spec fn reg_closed(reg: Seq<RegistryEntryV>) -> bool {
    forall|i: int|
        0 <= i < reg.len() ==> schema_closed(#[trigger] reg[i].schema, reg_names(reg))
}

/// The length of the longest registered name.
pub open spec fn max_name_len(reg: Seq<RegistryEntryV>) -> nat
    decreases reg.len(),
{
    if reg.len() == 0 {
        0
    } else {
        let m = max_name_len(reg.drop_last());
        let l = reg.last().name.len();
        if l > m {
            l
        } else {
            m
        }
    }
}

/// A registered name is no longer than the longest registered name.
pub proof fn lemma_contained_name_le_max(reg: Seq<RegistryEntryV>, name: Seq<char>)
    requires
        reg_contains(reg, name),
    ensures
        name.len() <= max_name_len(reg),
    decreases reg.len(),
{
    let i = choose|i: int| 0 <= i < reg.len() && reg[i].name == name;
    if i < reg.len() - 1 {
        assert(reg.drop_last()[i] == reg[i]);
        assert(reg_contains(reg.drop_last(), name));
        lemma_contained_name_le_max(reg.drop_last(), name);
    }
}

/// Extension of registries is transitive and reflexive.
pub proof fn lemma_reg_extends_trans(
    a: Seq<RegistryEntryV>,
    b: Seq<RegistryEntryV>,
    c: Seq<RegistryEntryV>,
)
    requires
        reg_extends(a, b),
        reg_extends(b, c),
    ensures
        reg_extends(a, c),
        reg_extends(a, a),
{
}

/// The registration algorithm: insert a fresh name; reuse a name that holds
/// the identical schema; otherwise retry under the underscore-suffixed name.
/// Returns the confirmed name and the new registry contents.
pub open spec fn spec_register(
    name: Seq<char>,
    s: SchemaV,
    reg: Seq<RegistryEntryV>,
) -> (Seq<char>, Seq<RegistryEntryV>)
    decreases
            (if name.len() <= max_name_len(reg) {
                max_name_len(reg) + 1 - name.len()
            } else {
                0int
            }),
    via spec_register_decreases
{
    if !reg_contains(reg, name) {
        (name, reg.push(RegistryEntryV { name: name, schema: s }))
    } else if reg_lookup(reg, name) == s {
        (name, reg)
    } else {
        spec_register(name.push('_'), s, reg)
    }
}

#[via_fn]
proof fn spec_register_decreases(name: Seq<char>, s: SchemaV, reg: Seq<RegistryEntryV>) {
    if reg_contains(reg, name) {
        lemma_contained_name_le_max(reg, name);
    }
}

/// With unique keys, the entry found at a matching index is the looked-up one.
pub proof fn lemma_lookup_at(reg: Seq<RegistryEntryV>, i: int)
    requires
        reg_keys_unique(reg),
        0 <= i < reg.len(),
    ensures
        reg_index_of(reg, reg[i].name) == i,
        reg_lookup(reg, reg[i].name) == reg[i].schema,
        reg_contains(reg, reg[i].name),
{
    let name = reg[i].name;
    assert(reg_contains(reg, name));
    let j = reg_index_of(reg, name);
    assert(0 <= j < reg.len() && reg[j].name == name);
    if i < j {
        assert(reg[i].name != reg[j].name);
    } else if j < i {
        assert(reg[j].name != reg[i].name);
    }
}

/// Pushing an entry adds exactly its name to the registered names.
pub proof fn lemma_reg_names_push(reg: Seq<RegistryEntryV>, e: RegistryEntryV)
    ensures
        reg_names(reg.push(e)) =~= reg_names(reg).insert(e.name),
        forall|m: Seq<char>|
            reg_contains(reg.push(e), m) <==> (reg_contains(reg, m) || m == e.name),
{
    let reg2 = reg.push(e);
    assert forall|m: Seq<char>| reg_contains(reg2, m) implies (reg_contains(reg, m) || m
        == e.name) by {
        let i = choose|i: int| 0 <= i < reg2.len() && reg2[i].name == m;
        if i < reg.len() {
            assert(reg[i].name == m);
        }
    }
    assert forall|m: Seq<char>| (reg_contains(reg, m) || m == e.name) implies reg_contains(
        reg2,
        m,
    ) by {
        if reg_contains(reg, m) {
            let i = choose|i: int| 0 <= i < reg.len() && reg[i].name == m;
            assert(reg2[i].name == m);
        } else {
            assert(reg2[reg.len() as int].name == m);
        }
    }
}

/// What `spec_register` does: it either reuses an entry that already holds the
/// identical schema, or appends exactly one new entry under a fresh name.
/// Keys stay unique, the registry only grows, the confirmed name resolves to
/// the registered schema, and closure of references is preserved.
pub proof fn lemma_spec_register_props(
    name: Seq<char>,
    s: SchemaV,
    reg: Seq<RegistryEntryV>,
)
    requires
        reg_keys_unique(reg),
    ensures
        ({
            let (n2, reg2) = spec_register(name, s, reg);
            &&& reg_keys_unique(reg2)
            &&& reg_extends(reg, reg2)
            &&& reg_contains(reg2, n2)
            &&& reg_lookup(reg2, n2) == s
            &&& (reg_contains(reg, name) && reg_lookup(reg, name) == s) ==> (n2 == name
                && reg2 == reg)
            &&& (reg_contains(reg, n2) && reg_lookup(reg, n2) == s && reg2 == reg) || (
            !reg_contains(reg, n2) && reg2 == reg.push(
                RegistryEntryV { name: n2, schema: s },
            ))
            &&& forall|m: Seq<char>|
                reg_contains(reg2, m) <==> (reg_contains(reg, m) || m == n2)
            &&& (reg_closed(reg) && schema_closed(s, reg_names(reg))) ==> reg_closed(reg2)
        }),
    decreases
            (if name.len() <= max_name_len(reg) {
                max_name_len(reg) + 1 - name.len()
            } else {
                0int
            }),
{
    let (n2, reg2) = spec_register(name, s, reg);
    if !reg_contains(reg, name) {
        let e = RegistryEntryV { name: name, schema: s };
        lemma_reg_names_push(reg, e);
        assert(reg_keys_unique(reg2)) by {
            assert forall|i: int, j: int| 0 <= i < j < reg2.len() implies reg2[i].name
                != reg2[j].name by {
                if j < reg.len() {
                    assert(reg[i].name != reg[j].name);
                } else {
                    assert(reg2[j].name == name);
                    assert(reg[i].name != name);
                }
            }
        }
        lemma_lookup_at(reg2, reg.len() as int);
        if reg_closed(reg) && schema_closed(s, reg_names(reg)) {
            assert(reg_names(reg).subset_of(reg_names(reg2)));
            assert forall|i: int| 0 <= i < reg2.len() implies schema_closed(
                #[trigger] reg2[i].schema,
                reg_names(reg2),
            ) by {
                if i < reg.len() {
                    assert(schema_closed(reg[i].schema, reg_names(reg)));
                    lemma_schema_closed_monotone(reg[i].schema, reg_names(reg), reg_names(reg2));
                    assert(reg2[i] == reg[i]);
                } else {
                    lemma_schema_closed_monotone(s, reg_names(reg), reg_names(reg2));
                }
            }
        }
    } else if reg_lookup(reg, name) == s {
        let i = reg_index_of(reg, name);
        lemma_lookup_at(reg, i);
    } else {
        lemma_contained_name_le_max(reg, name);
        lemma_spec_register_props(name.push('_'), s, reg);
        let i = reg_index_of(reg, name);
        lemma_lookup_at(reg, i);
        assert(n2 != name) by {
            if n2 == name {
                assert(reg_lookup(reg, n2) == s || !reg_contains(reg, n2));
            }
        }
    }
}

/// Registration is stable: once a name and schema have been registered, the
/// same registration against any later registry state (one that extends the
/// earlier result) confirms the same name and changes nothing.  Registering
/// the same named schema any number of times therefore produces exactly one
/// entry.
pub proof fn lemma_spec_register_stable(
    name: Seq<char>,
    s: SchemaV,
    reg: Seq<RegistryEntryV>,
    reg2: Seq<RegistryEntryV>,
)
    requires
        reg_keys_unique(reg),
        reg_keys_unique(reg2),
        reg_extends(spec_register(name, s, reg).1, reg2),
    ensures
        spec_register(name, s, reg2) == (spec_register(name, s, reg).0, reg2),
    decreases
            (if name.len() <= max_name_len(reg) {
                max_name_len(reg) + 1 - name.len()
            } else {
                0int
            }),
{
    let (n1, reg1) = spec_register(name, s, reg);
    if !reg_contains(reg, name) {
        let i = reg.len() as int;
        assert(reg1[i].name == name && reg1[i].schema == s);
        assert(reg2[i] == reg1[i]);
        assert(reg_contains(reg2, name));
        lemma_lookup_at(reg2, i);
        assert(reg_lookup(reg2, name) == s);
    } else if reg_lookup(reg, name) == s {
        let i = reg_index_of(reg, name);
        lemma_lookup_at(reg, i);
        assert(reg2[i] == reg[i]);
        lemma_lookup_at(reg2, i);
        assert(reg_lookup(reg2, name) == s);
    } else {
        lemma_contained_name_le_max(reg, name);
        lemma_spec_register_props(name.push('_'), s, reg);
        let i = reg_index_of(reg, name);
        lemma_lookup_at(reg, i);
        assert(reg2[i] == reg[i]);
        lemma_lookup_at(reg2, i);
        assert(reg_contains(reg2, name) && reg_lookup(reg2, name) != s);
        lemma_spec_register_stable(name.push('_'), s, reg, reg2);
    }
}


/// Registering the same name and schema again confirms the same name and
/// leaves the registry unchanged: any number of registrations of one named
/// schema produce exactly one entry.
pub proof fn lemma_register_idempotent(
    name: Seq<char>,
    s: SchemaV,
    reg: Seq<RegistryEntryV>,
)
    requires
        reg_keys_unique(reg),
    ensures
        spec_register(name, s, spec_register(name, s, reg).1) == (
            spec_register(name, s, reg).0,
            spec_register(name, s, reg).1,
        ),
{
    lemma_spec_register_props(name, s, reg);
    let (n1, reg1) = spec_register(name, s, reg);
    assert(reg_extends(reg1, reg1));
    lemma_spec_register_stable(name, s, reg, reg1);
}

/// Registering a structurally different schema under an occupied name
/// confirms a distinct, deterministically disambiguated name; every earlier
/// entry keeps its name and schema — nothing is silently overwritten — and at
/// most one entry is added.
pub proof fn lemma_register_disambiguation(
    name: Seq<char>,
    s: SchemaV,
    reg: Seq<RegistryEntryV>,
)
    requires
        reg_keys_unique(reg),
        reg_contains(reg, name),
        reg_lookup(reg, name) != s,
    ensures
        ({
            let (n2, reg2) = spec_register(name, s, reg);
            &&& n2 != name
            &&& reg_contains(reg2, n2) && reg_lookup(reg2, n2) == s
            &&& reg.len() <= reg2.len() <= reg.len() + 1
            &&& forall|m: Seq<char>|
                reg_contains(reg, m) ==> reg_contains(reg2, m) && reg_lookup(reg2, m)
                    == reg_lookup(reg, m)
        }),
{
    lemma_spec_register_props(name, s, reg);
    let (n2, reg2) = spec_register(name, s, reg);
    assert(n2 != name) by {
        let i = reg_index_of(reg, name);
        lemma_lookup_at(reg, i);
        if n2 == name {
            assert(reg_lookup(reg, n2) == s || !reg_contains(reg, n2));
        }
    }
    assert forall|m: Seq<char>| reg_contains(reg, m) implies reg_contains(reg2, m)
        && reg_lookup(reg2, m) == reg_lookup(reg, m) by {
        let i = reg_index_of(reg, m);
        lemma_lookup_at(reg, i);
        assert(reg2[i] == reg[i]);
        lemma_lookup_at(reg2, i);
    }
}

impl SchemaRegistry {
    /// The registry's internal invariant: registered names are unique.
    pub open spec fn wf(&self) -> bool {
        reg_keys_unique(self@)
    }

    /// An empty registry.
    pub fn new() -> (r: SchemaRegistry)
        ensures
            r@ == Seq::<RegistryEntryV>::empty(),
            r.wf(),
    {
        let r = SchemaRegistry { entries: Vec::new() };
        proof {
            assert(r@ =~= Seq::<RegistryEntryV>::empty());
        }
        r
    }

    /// The number of registered schemas.
    pub fn len(&self) -> (n: usize)
        ensures
            n == self@.len(),
    {
        self.entries.len()
    }

    /// The entry at a position, in insertion order.
    pub fn get(&self, i: usize) -> (e: &RegistryEntry)
        requires
            i < self@.len(),
        ensures
            e@ == self@[i as int],
    {
        &self.entries[i]
    }

    /// The index of the entry named `name`, if one is registered.
    pub fn find(&self, name: &String) -> (r: Option<usize>)
        ensures
            match r {
                Some(i) => 0 <= i < self@.len() && self@[i as int].name == name@,
                None => !reg_contains(self@, name@),
            },
    {
        let mut i: usize = 0;
        while i < self.entries.len()
            invariant
                0 <= i <= self.entries.len(),
                forall|j: int| 0 <= j < i ==> self@[j].name != name@,
            decreases self.entries.len() - i,
        {
            if self.entries[i].name == *name {
                return Some(i);
            }
            i += 1;
        }
        None
    }

    /// The schema registered under `name`, if any.
    pub fn lookup_schema(&self, name: &String) -> (r: Option<&SchemaNode>)
        requires
            self.wf(),
        ensures
            r is Some <==> reg_contains(self@, name@),
            r matches Some(sch) ==> schema_view(*sch) == reg_lookup(self@, name@),
    {
        match self.find(name) {
            Some(i) => {
                proof {
                    lemma_lookup_at(self@, i as int);
                }
                Some(&self.entries[i].schema)
            },
            None => None,
        }
    }

    /// Register a schema under a name, deduplicating and disambiguating as
    /// `spec_register` prescribes; returns the confirmed name, under which the
    /// schema is now registered.
    pub fn register(&mut self, name: String, schema: SchemaNode) -> (confirmed: String)
        requires
            old(self).wf(),
        ensures
            final(self).wf(),
            confirmed@ == spec_register(name@, schema_view(schema), old(self)@).0,
            final(self)@ == spec_register(name@, schema_view(schema), old(self)@).1,
    {
        let ghost orig = name@;
        let ghost s = schema_view(schema);
        let ghost reg0 = self@;
        let mut cur = name;
        loop
            invariant
                self.wf(),
                self@ == reg0,
                reg0 == old(self)@,
                orig == name@,
                schema_view(schema) == s,
                spec_register(orig, s, reg0) == spec_register(cur@, s, self@),
            decreases
                    (if cur@.len() <= max_name_len(self@) {
                        max_name_len(self@) + 1 - cur@.len()
                    } else {
                        0int
                    }),
        {
            match self.find(&cur) {
                None => {
                    let ghost pre = self@;
                    proof {
                        lemma_spec_register_props(cur@, s, pre);
                        assert(!reg_contains(pre, cur@));
                        assert(spec_register(cur@, s, pre) == (
                            cur@,
                            pre.push(RegistryEntryV { name: cur@, schema: s }),
                        ));
                    }
                    self.entries.push(RegistryEntry { name: cur.clone(), schema });
                    proof {
                        assert(self@ =~= pre.push(RegistryEntryV { name: cur@, schema: s }));
                        assert(spec_register(orig, s, reg0).0 == cur@);
                        assert(spec_register(orig, s, reg0).1 == self@);
                    }
                    return cur;
                },
                Some(i) => {
                    proof {
                        lemma_lookup_at(self@, i as int);
                        lemma_contained_name_le_max(self@, cur@);
                    }
                    if schema_eq(&self.entries[i].schema, &schema) {
                        return cur;
                    }
                    let ghost before = cur@;
                    cur = cur.concat("_");
                    proof {
                        reveal_strlit("_");
                        assert(cur@ =~= before.push('_'));
                    }
                },
            }
        }
    }
}

} // verus!
