//! The operation builder: for one endpoint, combines method, resolved path,
//! request schema and response schemas into one operation record, deriving
//! and registering schemas as needed.
//!
//! Building never fails: an endpoint with no declared request or response
//! types still yields a minimal valid operation.

use vstd::prelude::*;

use crate::deriver::derive_schema;
use crate::deriver::lemma_spec_derive_props;
use crate::deriver::spec_derive;
use crate::registry::RegistryEntryV;
use crate::registry::SchemaRegistry;
use crate::registry::lemma_reg_extends_trans;
use crate::registry::reg_closed;
use crate::registry::reg_extends;
use crate::registry::reg_keys_unique;
use crate::registry::reg_names;
use crate::route::Endpoint;
use crate::route::ResponseDecl;
use crate::route::EndpointV;
use crate::route::Method;
use crate::route::ResponseDeclV;
use crate::route::opt_string_view;
use crate::schema::SchemaNode;
use crate::schema::SchemaV;
use crate::schema::lemma_schema_closed_monotone;
use crate::schema::schema_closed;
use crate::schema::schema_view;

verus! {

/// The body schema offered under one media type.
pub struct MediaObject {
    pub media_type: String,
    pub schema: Option<SchemaNode>,
}

/// The response recorded for one status code; `content` is empty when the
/// endpoint declared no response type for that status.
pub struct ResponseObject {
    pub status: u16,
    pub content: Vec<MediaObject>,
}

/// One operation of the final document.  Schemas here are the derived nodes
/// (for composite types, by-name references into the registry).
pub struct Operation {
    pub method: Method,
    pub path: String,
    pub request_body: Option<SchemaNode>,
    pub responses: Vec<ResponseObject>,
    pub summary: Option<String>,
    pub description: Option<String>,
}

/// Mathematical model of a media object.
#[verifier::ext_equal]
pub struct MediaObjectV {
    pub media_type: Seq<char>,
    pub schema: Option<SchemaV>,
}

/// Mathematical model of a response.
#[verifier::ext_equal]
pub struct ResponseObjectV {
    pub status: u16,
    pub content: Seq<MediaObjectV>,
}

/// Mathematical model of an operation.
#[verifier::ext_equal]
pub struct OperationV {
    pub method: Method,
    pub path: Seq<char>,
    pub request_body: Option<SchemaV>,
    pub responses: Seq<ResponseObjectV>,
    pub summary: Option<Seq<char>>,
    pub description: Option<Seq<char>>,
}

pub open spec fn opt_schema_view(o: Option<SchemaNode>) -> Option<SchemaV> {
    match o {
        Some(s) => Some(schema_view(s)),
        None => None,
    }
}

impl View for MediaObject {
    type V = MediaObjectV;

    open spec fn view(&self) -> MediaObjectV {
        MediaObjectV { media_type: self.media_type@, schema: opt_schema_view(self.schema) }
    }
}

impl View for ResponseObject {
    type V = ResponseObjectV;

    open spec fn view(&self) -> ResponseObjectV {
        ResponseObjectV {
            status: self.status,
            content: Seq::new(self.content@.len(), |i: int| self.content@[i]@),
        }
    }
}

impl View for Operation {
    type V = OperationV;

    open spec fn view(&self) -> OperationV {
        OperationV {
            method: self.method,
            path: self.path@,
            request_body: opt_schema_view(self.request_body),
            responses: Seq::new(self.responses@.len(), |i: int| self.responses@[i]@),
            summary: opt_string_view(self.summary),
            description: opt_string_view(self.description),
        }
    }
}

/// The response built for one declared (status, type) pair: the derived
/// schema under the JSON media type, or an empty content list when no
/// response type is declared.
pub open spec fn spec_build_response(rd: ResponseDeclV, reg: Seq<RegistryEntryV>) -> (
    ResponseObjectV,
    Seq<RegistryEntryV>,
) {
    match rd.ty {
        Some(t) => {
            let (s, reg1) = spec_derive(t, reg);
            (
                ResponseObjectV {
                    status: rd.status,
                    content: seq![
                        MediaObjectV { media_type: "application/json"@, schema: Some(s) },
                    ],
                },
                reg1,
            )
        },
        None => (ResponseObjectV { status: rd.status, content: Seq::empty() }, reg),
    }
}

/// The responses built for a list of declarations, left to right.
pub open spec fn spec_build_responses(rds: Seq<ResponseDeclV>, reg: Seq<RegistryEntryV>) -> (Seq<
    ResponseObjectV,
>, Seq<RegistryEntryV>)
    decreases rds.len(),
{
    if rds.len() == 0 {
        (Seq::empty(), reg)
    } else {
        let (front, reg1) = spec_build_responses(rds.drop_last(), reg);
        let (ro, reg2) = spec_build_response(rds.last(), reg1);
        (front.push(ro), reg2)
    }
}

/// The operation built for one endpoint resolved at `full_path`.
pub open spec fn spec_build_operation(
    e: EndpointV,
    full_path: Seq<char>,
    reg: Seq<RegistryEntryV>,
) -> (OperationV, Seq<RegistryEntryV>) {
    let (req, reg1) = match e.request {
        Some(t) => {
            let (s, r) = spec_derive(t, reg);
            (Some(s), r)
        },
        None => (None, reg),
    };
    let (resps, reg2) = spec_build_responses(e.responses, reg1);
    (
        OperationV {
            method: e.method,
            path: full_path,
            request_body: req,
            responses: resps,
            summary: e.summary,
            description: e.description,
        },
        reg2,
    )
}

/// Every schema embedded in the operation resolves within `names`.
pub open spec fn opt_closed(o: Option<SchemaV>, names: Set<Seq<char>>) -> bool {
    match o {
        Some(s) => schema_closed(s, names),
        None => true,
    }
}

pub open spec fn response_closed(r: ResponseObjectV, names: Set<Seq<char>>) -> bool {
    forall|i: int| 0 <= i < r.content.len() ==> opt_closed(#[trigger] r.content[i].schema, names)
}

pub open spec fn op_closed(op: OperationV, names: Set<Seq<char>>) -> bool {
    &&& opt_closed(op.request_body, names)
    &&& forall|i: int|
        0 <= i < op.responses.len() ==> response_closed(#[trigger] op.responses[i], names)
}

/// An operation closed under a set of names stays closed when the set grows.
pub proof fn lemma_op_closed_monotone(op: OperationV, n1: Set<Seq<char>>, n2: Set<Seq<char>>)
    requires
        op_closed(op, n1),
        n1.subset_of(n2),
    ensures
        op_closed(op, n2),
{
    match op.request_body {
        Some(s) => lemma_schema_closed_monotone(s, n1, n2),
        None => (),
    }
    assert forall|i: int| 0 <= i < op.responses.len() implies response_closed(
        #[trigger] op.responses[i],
        n2,
    ) by {
        let r = op.responses[i];
        assert(response_closed(r, n1));
        assert forall|j: int| 0 <= j < r.content.len() implies opt_closed(
            #[trigger] r.content[j].schema,
            n2,
        ) by {
            assert(opt_closed(r.content[j].schema, n1));
            match r.content[j].schema {
                Some(s) => lemma_schema_closed_monotone(s, n1, n2),
                None => (),
            }
        }
    }
}

/// Building an operation keeps registry keys unique, only grows the registry,
/// preserves closure, and yields an operation whose schemas all resolve.
pub proof fn lemma_spec_build_operation_props(
    e: EndpointV,
    full_path: Seq<char>,
    reg: Seq<RegistryEntryV>,
)
    requires
        reg_keys_unique(reg),
    ensures
        ({
            let (op, reg2) = spec_build_operation(e, full_path, reg);
            &&& reg_keys_unique(reg2)
            &&& reg_extends(reg, reg2)
            &&& op_closed(op, reg_names(reg2))
            &&& reg_closed(reg) ==> reg_closed(reg2)
            &&& op.method == e.method && op.path == full_path
        }),
{
    let (req, reg1) = match e.request {
        Some(t) => {
            let (s, r) = spec_derive(t, reg);
            (Some(s), r)
        },
        None => (None, reg),
    };
    match e.request {
        Some(t) => lemma_spec_derive_props(t, reg),
        None => (),
    }
    lemma_reg_extends_trans(reg, reg, reg);
    lemma_spec_build_responses_props(e.responses, reg1);
    let (resps, reg2) = spec_build_responses(e.responses, reg1);
    lemma_reg_extends_trans(reg, reg1, reg2);
    match req {
        Some(s) => {
            assert(reg_names(reg1).subset_of(reg_names(reg2)));
            lemma_schema_closed_monotone(s, reg_names(reg1), reg_names(reg2));
        },
        None => (),
    }
}

pub proof fn lemma_spec_build_responses_props(rds: Seq<ResponseDeclV>, reg: Seq<RegistryEntryV>)
    requires
        reg_keys_unique(reg),
    ensures
        ({
            let (resps, reg2) = spec_build_responses(rds, reg);
            &&& reg_keys_unique(reg2)
            &&& reg_extends(reg, reg2)
            &&& forall|i: int|
                0 <= i < resps.len() ==> response_closed(#[trigger] resps[i], reg_names(reg2))
            &&& reg_closed(reg) ==> reg_closed(reg2)
        }),
    decreases rds.len(),
{
    let (resps, reg2) = spec_build_responses(rds, reg);
    if rds.len() == 0 {
        lemma_reg_extends_trans(reg, reg, reg);
    } else {
        lemma_spec_build_responses_props(rds.drop_last(), reg);
        let (front, reg1) = spec_build_responses(rds.drop_last(), reg);
        match rds.last().ty {
            Some(t) => lemma_spec_derive_props(t, reg1),
            None => (),
        }
        let (ro, regr) = spec_build_response(rds.last(), reg1);
        lemma_reg_extends_trans(reg1, reg1, reg1);
        lemma_reg_extends_trans(reg, reg1, regr);
        assert(reg_names(reg1).subset_of(reg_names(regr)));
        assert forall|i: int| 0 <= i < resps.len() implies response_closed(
            #[trigger] resps[i],
            reg_names(regr),
        ) by {
            if i < front.len() {
                assert(resps[i] == front[i]);
                assert(response_closed(front[i], reg_names(reg1)));
                assert forall|j: int| 0 <= j < front[i].content.len() implies opt_closed(
                    #[trigger] front[i].content[j].schema,
                    reg_names(regr),
                ) by {
                    match front[i].content[j].schema {
                        Some(s) => lemma_schema_closed_monotone(
                            s,
                            reg_names(reg1),
                            reg_names(regr),
                        ),
                        None => (),
                    }
                }
            } else {
                assert(resps[i] == ro);
            }
        }
    }
}


fn clone_opt_string(o: &Option<String>) -> (r: Option<String>)
    ensures
        opt_string_view(r) == opt_string_view(*o),
{
    match o {
        Some(s) => Some(s.clone()),
        None => None,
    }
}

/// Build the response for one declared (status, type) pair, deriving and
/// registering its schema; a declaration without a response type yields a
/// response with an empty content list (still valid).
pub fn build_response(rd: &ResponseDecl, reg: &mut SchemaRegistry) -> (r: ResponseObject)
    requires
        old(reg).wf(),
    ensures
        final(reg).wf(),
        r@ == spec_build_response(rd@, old(reg)@).0,
        final(reg)@ == spec_build_response(rd@, old(reg)@).1,
{
    match &rd.ty {
        Some(t) => {
            let s = derive_schema(t, reg);
            let media = MediaObject {
                media_type: "application/json".to_owned(),
                schema: Some(s),
            };
            let mut content: Vec<MediaObject> = Vec::new();
            content.push(media);
            let r = ResponseObject { status: rd.status, content };
            proof {
                assert(r@.content =~= spec_build_response(rd@, old(reg)@).0.content);
            }
            r
        },
        None => {
            let r = ResponseObject { status: rd.status, content: Vec::new() };
            proof {
                assert(r@.content =~= Seq::<MediaObjectV>::empty());
            }
            r
        },
    }
}

/// Build the responses for all declared (status, type) pairs, left to right.
pub fn build_responses(rds: &Vec<ResponseDecl>, reg: &mut SchemaRegistry) -> (out: Vec<
    ResponseObject,
>)
    requires
        old(reg).wf(),
    ensures
        final(reg).wf(),
        Seq::new(out@.len(), |i: int| out@[i]@) == spec_build_responses(
            Seq::new(rds@.len(), |i: int| rds@[i]@),
            old(reg)@,
        ).0,
        final(reg)@ == spec_build_responses(Seq::new(rds@.len(), |i: int| rds@[i]@), old(reg)@).1,
{
    let ghost rsv = Seq::new(rds@.len(), |i: int| rds@[i]@);
    let ghost reg0 = reg@;
    let mut out: Vec<ResponseObject> = Vec::new();
    let n = rds.len();
    let mut i: usize = 0;
    proof {
        assert(rsv.take(0) =~= Seq::<ResponseDeclV>::empty());
        assert(Seq::new(out@.len(), |j: int| out@[j]@) =~= Seq::<ResponseObjectV>::empty());
    }
    while i < n
        invariant
            0 <= i <= n,
            n == rds.len(),
            reg.wf(),
            reg0 == old(reg)@,
            rsv == Seq::new(rds@.len(), |j: int| rds@[j]@),
            rsv.len() == n,
            out.len() == i,
            Seq::new(out@.len(), |j: int| out@[j]@) == spec_build_responses(
                rsv.take(i as int),
                reg0,
            ).0,
            reg@ == spec_build_responses(rsv.take(i as int), reg0).1,
        decreases n - i,
    {
        let ghost taken = rsv.take(i as int);
        let ghost taken1 = rsv.take(i as int + 1);
        proof {
            assert(taken1.drop_last() =~= taken);
            assert(taken1.last() == rsv[i as int]);
        }
        let ghost out_seq = Seq::new(out@.len(), |j: int| out@[j]@);
        let ro = build_response(&rds[i], reg);
        out.push(ro);
        proof {
            assert(Seq::new(out@.len(), |j: int| out@[j]@) =~= out_seq.push(out@[i as int]@));
        }
        i += 1;
    }
    proof {
        assert(rsv.take(n as int) =~= rsv);
    }
    out
}

/// Build the operation for one endpoint resolved at `full_path`: the derived
/// request-body schema (if a request type is declared), the responses for
/// every declared status, and the documentation text copied verbatim.
/// Building is total: it succeeds for every well-formed endpoint.
pub fn build_operation(e: &Endpoint, full_path: String, reg: &mut SchemaRegistry) -> (op:
    Operation)
    requires
        old(reg).wf(),
    ensures
        final(reg).wf(),
        op@ == spec_build_operation(e@, full_path@, old(reg)@).0,
        final(reg)@ == spec_build_operation(e@, full_path@, old(reg)@).1,
{
    let request_body = match &e.request {
        Some(t) => Some(derive_schema(t, reg)),
        None => None,
    };
    let responses = build_responses(&e.responses, reg);
    let op = Operation {
        method: e.method,
        path: full_path,
        request_body,
        responses,
        summary: clone_opt_string(&e.summary),
        description: clone_opt_string(&e.description),
    };
    proof {
        assert(op@ =~~= spec_build_operation(e@, full_path@, old(reg)@).0);
    }
    op
}

} // verus!
