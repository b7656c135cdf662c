//! The document assembler: a depth-first, pre-order walk of the route tree
//! that accumulates path prefixes, builds one operation per endpoint, and
//! assembles the final document with the populated schema registry as its
//! components section.
//!
//! Two endpoints resolving to the same (method, path) key are a structural
//! conflict in the input tree: assembly fails with an error rather than
//! silently keeping one of them.

use vstd::prelude::*;

use crate::operation::Operation;
use crate::operation::OperationV;
use crate::operation::build_operation;
use crate::operation::lemma_op_closed_monotone;
use crate::operation::lemma_spec_build_operation_props;
use crate::operation::op_closed;
use crate::operation::spec_build_operation;
use crate::registry::RegistryEntryV;
use crate::registry::SchemaRegistry;
use crate::registry::lemma_reg_extends_trans;
use crate::registry::reg_closed;
use crate::registry::reg_extends;
use crate::registry::reg_keys_unique;
use crate::registry::reg_names;
use crate::route::Method;
use crate::route::RouteNode;
use crate::route::RouteNodeV;
use crate::route::lemma_route_nodes_view;
use crate::route::route_nodes_view;

verus! {

broadcast use vstd::std_specs::vec::axiom_vec_index_decreases;

/// Two endpoints of the route tree resolved to the same (method, path) key.
#[derive(Debug)]
pub struct StructuralConflict {
    pub method: Method,
    pub path: String,
}

/// Mathematical model of a structural conflict.
#[verifier::ext_equal]
pub struct ConflictV {
    pub method: Method,
    pub path: Seq<char>,
}

impl View for StructuralConflict {
    type V = ConflictV;

    open spec fn view(&self) -> ConflictV {
        ConflictV { method: self.method, path: self.path@ }
    }
}

/// The complete generated document: metadata, the operations keyed by
/// (path, method), and the finalized schema registry as its components.
/// It is assembled in one pass and immutable afterwards.
pub struct Document {
    pub title: String,
    pub version: String,
    pub operations: Vec<Operation>,
    pub components: SchemaRegistry,
}

/// Mathematical model of a document.
#[verifier::ext_equal]
pub struct DocumentV {
    pub title: Seq<char>,
    pub version: Seq<char>,
    pub operations: Seq<OperationV>,
    pub components: Seq<RegistryEntryV>,
}

impl View for Document {
    type V = DocumentV;

    open spec fn view(&self) -> DocumentV {
        DocumentV {
            title: self.title@,
            version: self.version@,
            operations: ops_view(self.operations),
            components: self.components@,
        }
    }
}

pub open spec fn ops_view(v: Vec<Operation>) -> Seq<OperationV> {
    Seq::new(v@.len(), |i: int| v@[i]@)
}

/// Some operation is already keyed by (path, method).
pub open spec fn ops_contains(ops: Seq<OperationV>, path: Seq<char>, method: Method) -> bool {
    exists|i: int| 0 <= i < ops.len() && ops[i].path == path && ops[i].method == method
}

/// No two operations share a (path, method) key.
pub open spec fn ops_keys_unique(ops: Seq<OperationV>) -> bool {
    forall|i: int, j: int|
        0 <= i < j < ops.len() ==> !(ops[i].path == ops[j].path && ops[i].method
            == ops[j].method)
}

/// Every schema embedded in any operation resolves within `names`.
pub open spec fn ops_all_closed(ops: Seq<OperationV>, names: Set<Seq<char>>) -> bool {
    forall|i: int| 0 <= i < ops.len() ==> op_closed(#[trigger] ops[i], names)
}

/// Inserting an operation fails on a duplicate (path, method) key and
/// appends otherwise.
pub open spec fn spec_insert_op(ops: Seq<OperationV>, op: OperationV) -> Result<
    Seq<OperationV>,
    ConflictV,
> {
    if ops_contains(ops, op.path, op.method) {
        Err(ConflictV { method: op.method, path: op.path })
    } else {
        Ok(ops.push(op))
    }
}

/// The depth-first, pre-order walk: an endpoint contributes one operation at
/// the path obtained by prepending the accumulated prefix; a group walks its
/// children under the extended prefix, in declaration order.
pub open spec fn spec_walk(
    node: RouteNodeV,
    prefix: Seq<char>,
    ops: Seq<OperationV>,
    reg: Seq<RegistryEntryV>,
) -> Result<(Seq<OperationV>, Seq<RegistryEntryV>), ConflictV>
    decreases node, 0int,
{
    match node {
        RouteNodeV::Endpoint(e) => {
            let (op, reg1) = spec_build_operation(e, prefix + e.path, reg);
            match spec_insert_op(ops, op) {
                Ok(ops1) => Ok((ops1, reg1)),
                Err(c) => Err(c),
            }
        },
        RouteNodeV::Group { prefix: seg, children } => spec_walk_children(
            children,
            prefix + seg,
            ops,
            reg,
        ),
    }
}

pub open spec fn spec_walk_children(
    cs: Seq<RouteNodeV>,
    prefix: Seq<char>,
    ops: Seq<OperationV>,
    reg: Seq<RegistryEntryV>,
) -> Result<(Seq<OperationV>, Seq<RegistryEntryV>), ConflictV>
    decreases cs, 1int,
{
    if cs.len() == 0 {
        Ok((ops, reg))
    } else {
        match spec_walk_children(cs.drop_last(), prefix, ops, reg) {
            Ok(state) => spec_walk(cs.last(), prefix, state.0, state.1),
            Err(c) => Err(c),
        }
    }
}

/// Generation: walk the whole tree from an empty accumulator and attach the
/// populated registry as the document's components.
pub open spec fn spec_generate(
    root: RouteNodeV,
    title: Seq<char>,
    version: Seq<char>,
) -> Result<DocumentV, ConflictV> {
    match spec_walk(root, Seq::empty(), Seq::empty(), Seq::empty()) {
        Ok(state) => Ok(
            DocumentV { title, version, operations: state.0, components: state.1 },
        ),
        Err(c) => Err(c),
    }
}

/// Every reference embedded anywhere in the document — in an operation or in
/// a registered schema — resolves to an entry of its components section.
pub open spec fn doc_closed(d: DocumentV) -> bool {
    &&& reg_closed(d.components)
    &&& ops_all_closed(d.operations, reg_names(d.components))
}

/// What a successful walk guarantees: registry keys stay unique, the registry
/// only grows, (path, method) keys stay unique, and every operation's schemas
/// resolve in the final registry.
pub proof fn lemma_spec_walk_props(
    node: RouteNodeV,
    prefix: Seq<char>,
    ops: Seq<OperationV>,
    reg: Seq<RegistryEntryV>,
)
    requires
        reg_keys_unique(reg),
        reg_closed(reg),
        ops_keys_unique(ops),
        ops_all_closed(ops, reg_names(reg)),
    ensures
        ({
            match spec_walk(node, prefix, ops, reg) {
                Ok(state) => {
                    &&& reg_keys_unique(state.1)
                    &&& reg_closed(state.1)
                    &&& reg_extends(reg, state.1)
                    &&& ops_keys_unique(state.0)
                    &&& ops_all_closed(state.0, reg_names(state.1))
                },
                Err(_) => true,
            }
        }),
    decreases node, 0int,
{
    match node {
        RouteNodeV::Endpoint(e) => {
            lemma_spec_build_operation_props(e, prefix + e.path, reg);
            let (op, reg1) = spec_build_operation(e, prefix + e.path, reg);
            if !ops_contains(ops, op.path, op.method) {
                let ops1 = ops.push(op);
                assert(reg_names(reg).subset_of(reg_names(reg1)));
                assert(ops_keys_unique(ops1)) by {
                    assert forall|i: int, j: int| 0 <= i < j < ops1.len() implies !(
                    ops1[i].path == ops1[j].path && ops1[i].method == ops1[j].method) by {
                        if j < ops.len() {
                            assert(ops1[i] == ops[i] && ops1[j] == ops[j]);
                        } else {
                            assert(ops1[j] == op);
                            assert(ops1[i] == ops[i]);
                            assert(!(ops[i].path == op.path && ops[i].method == op.method));
                        }
                    }
                }
                assert(ops_all_closed(ops1, reg_names(reg1))) by {
                    assert forall|i: int| 0 <= i < ops1.len() implies op_closed(
                        #[trigger] ops1[i],
                        reg_names(reg1),
                    ) by {
                        if i < ops.len() {
                            assert(ops1[i] == ops[i]);
                            assert(op_closed(ops[i], reg_names(reg)));
                            lemma_op_closed_monotone(ops[i], reg_names(reg), reg_names(reg1));
                        } else {
                            assert(ops1[i] == op);
                        }
                    }
                }
            }
        },
        RouteNodeV::Group { prefix: seg, children } => {
            lemma_spec_walk_children_props(children, prefix + seg, ops, reg);
        },
    }
}

pub proof fn lemma_spec_walk_children_props(
    cs: Seq<RouteNodeV>,
    prefix: Seq<char>,
    ops: Seq<OperationV>,
    reg: Seq<RegistryEntryV>,
)
    requires
        reg_keys_unique(reg),
        reg_closed(reg),
        ops_keys_unique(ops),
        ops_all_closed(ops, reg_names(reg)),
    ensures
        ({
            match spec_walk_children(cs, prefix, ops, reg) {
                Ok(state) => {
                    &&& reg_keys_unique(state.1)
                    &&& reg_closed(state.1)
                    &&& reg_extends(reg, state.1)
                    &&& ops_keys_unique(state.0)
                    &&& ops_all_closed(state.0, reg_names(state.1))
                },
                Err(_) => true,
            }
        }),
    decreases cs, 1int,
{
    if cs.len() == 0 {
        lemma_reg_extends_trans(reg, reg, reg);
    } else {
        lemma_spec_walk_children_props(cs.drop_last(), prefix, ops, reg);
        match spec_walk_children(cs.drop_last(), prefix, ops, reg) {
            Ok(state) => {
                lemma_spec_walk_props(cs.last(), prefix, state.0, state.1);
                match spec_walk(cs.last(), prefix, state.0, state.1) {
                    Ok(state2) => {
                        lemma_reg_extends_trans(reg, state.1, state2.1);
                    },
                    Err(_) => (),
                }
            },
            Err(_) => (),
        }
    }
}

/// No dangling references: when generation succeeds, every reference embedded
/// anywhere in the document resolves to an entry of its components section,
/// whose names are moreover unique, as are the (path, method) keys.
pub proof fn lemma_no_dangling_references(
    root: RouteNodeV,
    title: Seq<char>,
    version: Seq<char>,
)
    ensures
        spec_generate(root, title, version) matches Ok(d) ==> doc_closed(d) && reg_keys_unique(
            d.components,
        ) && ops_keys_unique(d.operations),
{
    lemma_spec_walk_props(root, Seq::empty(), Seq::empty(), Seq::empty());
}

/// When walking an endpoint fails, and with which conflict: exactly when the
/// accumulator already holds an operation under the endpoint's resolved
/// (method, path) key; the error reports that key.
pub proof fn lemma_conflict_condition(
    e: crate::route::EndpointV,
    prefix: Seq<char>,
    ops: Seq<OperationV>,
    reg: Seq<RegistryEntryV>,
)
    ensures
        spec_walk(RouteNodeV::Endpoint(e), prefix, ops, reg) is Err <==> ops_contains(
            ops,
            prefix + e.path,
            e.method,
        ),
        ops_contains(ops, prefix + e.path, e.method) ==> spec_walk(
            RouteNodeV::Endpoint(e),
            prefix,
            ops,
            reg,
        ) == Err::<(Seq<OperationV>, Seq<RegistryEntryV>), ConflictV>(
            ConflictV { method: e.method, path: prefix + e.path },
        ),
{
    let (op, reg1) = spec_build_operation(e, prefix + e.path, reg);
    assert(op.path == prefix + e.path && op.method == e.method);
}

/// Determinism: generation is a mathematical function of the route tree and
/// the document metadata alone; two generation runs over the same inputs
/// yield the same result, down to every operation and registry entry.
pub proof fn lemma_generation_deterministic(
    root: RouteNodeV,
    title: Seq<char>,
    version: Seq<char>,
    r1: Result<DocumentV, ConflictV>,
    r2: Result<DocumentV, ConflictV>,
)
    requires
        r1 == spec_generate(root, title, version),
        r2 == spec_generate(root, title, version),
    ensures
        r1 == r2,
{
}

/// Path composition: a group with a prefix containing a child group with its
/// own prefix resolves an inner node against the concatenation of both
/// prefixes, in root-to-leaf order.
pub proof fn lemma_path_composition(
    outer: Seq<char>,
    inner: Seq<char>,
    node: RouteNodeV,
    prefix: Seq<char>,
    ops: Seq<OperationV>,
    reg: Seq<RegistryEntryV>,
)
    ensures
        spec_walk(
            RouteNodeV::Group {
                prefix: outer,
                children: seq![RouteNodeV::Group { prefix: inner, children: seq![node] }],
            },
            prefix,
            ops,
            reg,
        ) == spec_walk(node, prefix + outer + inner, ops, reg),
{
    let g2 = RouteNodeV::Group { prefix: inner, children: seq![node] };
    let cs1: Seq<RouteNodeV> = seq![g2];
    let cs2: Seq<RouteNodeV> = seq![node];
    assert(cs1.drop_last() =~= Seq::<RouteNodeV>::empty());
    assert(cs2.drop_last() =~= Seq::<RouteNodeV>::empty());
    assert(cs1.last() == g2);
    assert(cs2.last() == node);
    assert(spec_walk_children(Seq::<RouteNodeV>::empty(), prefix + outer, ops, reg)
        == Ok::<(Seq<OperationV>, Seq<RegistryEntryV>), ConflictV>((ops, reg)));
    assert(spec_walk_children(Seq::<RouteNodeV>::empty(), prefix + outer + inner, ops, reg)
        == Ok::<(Seq<OperationV>, Seq<RegistryEntryV>), ConflictV>((ops, reg)));
    assert(spec_walk_children(cs1, prefix + outer, ops, reg) == spec_walk(
        g2,
        prefix + outer,
        ops,
        reg,
    ));
    assert(spec_walk_children(cs2, prefix + outer + inner, ops, reg) == spec_walk(
        node,
        prefix + outer + inner,
        ops,
        reg,
    ));
    assert((prefix + outer) + inner =~= prefix + outer + inner);
}


/// Once a prefix of the children has failed, the whole child list fails with
/// the same conflict.
pub proof fn lemma_spec_walk_children_err(
    cs: Seq<RouteNodeV>,
    prefix: Seq<char>,
    ops: Seq<OperationV>,
    reg: Seq<RegistryEntryV>,
    j: int,
)
    requires
        0 <= j <= cs.len(),
        spec_walk_children(cs.take(j), prefix, ops, reg) is Err,
    ensures
        spec_walk_children(cs, prefix, ops, reg) == spec_walk_children(
            cs.take(j),
            prefix,
            ops,
            reg,
        ),
    decreases cs.len() - j,
{
    if j == cs.len() {
        assert(cs.take(j) =~= cs);
    } else {
        assert(cs.take(j + 1).drop_last() =~= cs.take(j));
        assert(cs.take(j + 1).last() == cs[j]);
        lemma_spec_walk_children_err(cs, prefix, ops, reg, j + 1);
    }
}

fn concat_strings(a: &String, b: &String) -> (r: String)
    ensures
        r@ == a@ + b@,
{
    a.clone().concat(b.as_str())
}

/// Insert an operation under its (path, method) key; a duplicate key is a
/// structural conflict and is reported, never silently overwritten.
pub fn insert_operation(ops: &mut Vec<Operation>, op: Operation) -> (r: Result<
    (),
    StructuralConflict,
>)
    ensures
        match r {
            Ok(_) => spec_insert_op(ops_view(*old(ops)), op@) == Ok::<_, ConflictV>(
                ops_view(*final(ops)),
            ),
            Err(c) => spec_insert_op(ops_view(*old(ops)), op@) == Err::<Seq<OperationV>, _>(c@)
                && *final(ops) == *old(ops),
        },
{
    let ghost ov = ops_view(*ops);
    let n = ops.len();
    let mut i: usize = 0;
    while i < n
        invariant
            0 <= i <= n,
            n == ops.len(),
            ov == ops_view(*ops),
            forall|j: int|
                0 <= j < i ==> !(ov[j].path == op@.path && ov[j].method == op@.method),
        decreases n - i,
    {
        if ops[i].path == op.path && method_eq(ops[i].method, op.method) {
            assert(ov[i as int].path == op@.path && ov[i as int].method == op@.method);
            assert(ops_contains(ov, op@.path, op@.method));
            return Err(StructuralConflict { method: op.method, path: op.path });
        }
        i += 1;
    }
    assert(!ops_contains(ov, op@.path, op@.method));
    let ghost before = ops_view(*ops);
    ops.push(op);
    proof {
        assert(ops_view(*ops) =~= before.push(op@));
    }
    Ok(())
}

/// Whether two methods are the same.
pub fn method_eq(a: Method, b: Method) -> (r: bool)
    ensures
        r == (a == b),
{
    a == b
}

/// Walk one route node, merging its contributed operations and schemas into
/// the accumulator; fails exactly when two endpoints resolve to the same
/// (method, path) key.
pub fn walk(
    node: &RouteNode,
    prefix: &String,
    ops: &mut Vec<Operation>,
    reg: &mut SchemaRegistry,
) -> (r: Result<(), StructuralConflict>)
    requires
        old(reg).wf(),
    ensures
        final(reg).wf(),
        match r {
            Ok(_) => spec_walk(node@, prefix@, ops_view(*old(ops)), old(reg)@) == Ok::<
                _,
                ConflictV,
            >((ops_view(*final(ops)), final(reg)@)),
            Err(c) => spec_walk(node@, prefix@, ops_view(*old(ops)), old(reg)@) == Err::<
                (Seq<OperationV>, Seq<RegistryEntryV>),
                _,
            >(c@),
        },
    decreases node, 0int,
{
    match node {
        RouteNode::Endpoint(e) => {
            let full = concat_strings(prefix, &e.path);
            let op = build_operation(e, full, reg);
            match insert_operation(ops, op) {
                Ok(_) => Ok(()),
                Err(c) => Err(c),
            }
        },
        RouteNode::Group { prefix: seg, children } => {
            let new_prefix = concat_strings(prefix, seg);
            walk_children(children, &new_prefix, ops, reg)
        },
    }
}

/// Walk a child list in declaration order under the accumulated prefix.
fn walk_children(
    children: &Vec<RouteNode>,
    prefix: &String,
    ops: &mut Vec<Operation>,
    reg: &mut SchemaRegistry,
) -> (r: Result<(), StructuralConflict>)
    requires
        old(reg).wf(),
    ensures
        final(reg).wf(),
        match r {
            Ok(_) => spec_walk_children(
                route_nodes_view(*children, children.len() as int),
                prefix@,
                ops_view(*old(ops)),
                old(reg)@,
            ) == Ok::<_, ConflictV>((ops_view(*final(ops)), final(reg)@)),
            Err(c) => spec_walk_children(
                route_nodes_view(*children, children.len() as int),
                prefix@,
                ops_view(*old(ops)),
                old(reg)@,
            ) == Err::<(Seq<OperationV>, Seq<RegistryEntryV>), _>(c@),
        },
    decreases children, 1int,
{
    let ghost csv = route_nodes_view(*children, children.len() as int);
    let ghost ops0 = ops_view(*ops);
    let ghost reg0 = reg@;
    proof {
        lemma_route_nodes_view(*children, children.len() as int);
        assert(csv.take(0) =~= Seq::<RouteNodeV>::empty());
    }
    let n = children.len();
    let mut i: usize = 0;
    while i < n
        invariant
            0 <= i <= n,
            n == children.len(),
            reg.wf(),
            ops0 == ops_view(*old(ops)),
            reg0 == old(reg)@,
            csv == route_nodes_view(*children, children.len() as int),
            csv.len() == n,
            forall|j: int| 0 <= j < n ==> csv[j] == children[j]@,
            spec_walk_children(csv.take(i as int), prefix@, ops0, reg0) == Ok::<
                _,
                ConflictV,
            >((ops_view(*ops), reg@)),
        decreases n - i,
    {
        proof {
            assert(csv.take(i as int + 1).drop_last() =~= csv.take(i as int));
            assert(csv.take(i as int + 1).last() == csv[i as int]);
        }
        match walk(&children[i], prefix, ops, reg) {
            Ok(_) => (),
            Err(c) => {
                proof {
                    assert(spec_walk_children(csv.take(i as int + 1), prefix@, ops0, reg0)
                        == Err::<(Seq<OperationV>, Seq<RegistryEntryV>), ConflictV>(c@));
                    lemma_spec_walk_children_err(csv, prefix@, ops0, reg0, i as int + 1);
                }
                return Err(c);
            },
        }
        i += 1;
    }
    proof {
        assert(csv.take(n as int) =~= csv);
    }
    Ok(())
}

/// Generate the complete document for a route tree: walk the tree from an
/// empty accumulator, then attach the populated schema registry as the
/// document's components section.  Fails exactly when two endpoints of the
/// tree resolve to the same (method, path) key; the conflicting key is
/// reported.  The result is pinned to `spec_generate`, so generation is
/// deterministic, and on success the document's references are all resolvable
/// (`lemma_no_dangling_references`).
pub fn generate_document(root: &RouteNode, title: String, version: String) -> (r: Result<
    Document,
    StructuralConflict,
>)
    ensures
        match r {
            Ok(d) => spec_generate(root@, title@, version@) == Ok::<_, ConflictV>(d@)
                && d.components.wf() && doc_closed(d@) && ops_keys_unique(d@.operations),
            Err(c) => spec_generate(root@, title@, version@) == Err::<DocumentV, _>(c@),
        },
{
    let mut ops: Vec<Operation> = Vec::new();
    let mut reg = SchemaRegistry::new();
    let empty_prefix = String::new();
    proof {
        assert(ops_view(ops) =~= Seq::<OperationV>::empty());
        lemma_spec_walk_props(root@, Seq::empty(), Seq::empty(), Seq::empty());
    }
    match walk(root, &empty_prefix, &mut ops, &mut reg) {
        Ok(_) => {
            let d = Document { title, version, operations: ops, components: reg };
            Ok(d)
        },
        Err(c) => Err(c),
    }
}

} // verus!
