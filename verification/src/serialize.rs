//! Serialization of the assembled document into a JSON text.
//!
//! The emitted text is a pure function of the document: serializing equal
//! documents yields identical character sequences (and hence identical
//! bytes), with paths, methods and registry entries in their stored order.
//! Strings are embedded verbatim.

use vstd::prelude::*;

use crate::document::Document;
use crate::document::DocumentV;
use crate::document::ops_view;
use crate::document::spec_generate;
use crate::document::ConflictV;
use crate::operation::MediaObject;
use crate::operation::MediaObjectV;
use crate::operation::Operation;
use crate::operation::ResponseObject;
use crate::operation::OperationV;
use crate::operation::ResponseObjectV;
use crate::registry::RegistryEntry;
use crate::registry::RegistryEntryV;
use crate::route::Method;
use crate::route::RouteNodeV;
use crate::schema::FieldSchemaV;
use crate::schema::PrimitiveKind;
use crate::schema::SchemaV;
use crate::schema::SchemaNode;
use crate::schema::FieldSchema;
use crate::schema::field_schema_view;
use crate::schema::fields_schema_view;
use crate::schema::lemma_fields_schema_view;
use crate::schema::schema_view;

verus! {

/// The decimal digit for one value below ten.
pub open spec fn spec_digit(d: nat) -> char {
    if d == 0 {
        '0'
    } else if d == 1 {
        '1'
    } else if d == 2 {
        '2'
    } else if d == 3 {
        '3'
    } else if d == 4 {
        '4'
    } else if d == 5 {
        '5'
    } else if d == 6 {
        '6'
    } else if d == 7 {
        '7'
    } else if d == 8 {
        '8'
    } else {
        '9'
    }
}

/// The decimal numeral of `n`, most significant digit first.
pub open spec fn spec_dec(n: nat) -> Seq<char>
    decreases n,
{
    if n < 10 {
        seq![spec_digit(n)]
    } else {
        spec_dec(n / 10).push(spec_digit(n % 10))
    }
}

fn digit_str(d: u16) -> (r: &'static str)
    requires
        d < 10,
    ensures
        r@ =~= seq![spec_digit(d as nat)],
{
    proof {
        reveal_strlit("0");
        reveal_strlit("1");
        reveal_strlit("2");
        reveal_strlit("3");
        reveal_strlit("4");
        reveal_strlit("5");
        reveal_strlit("6");
        reveal_strlit("7");
        reveal_strlit("8");
        reveal_strlit("9");
    }
    match d {
        0 => "0",
        1 => "1",
        2 => "2",
        3 => "3",
        4 => "4",
        5 => "5",
        6 => "6",
        7 => "7",
        8 => "8",
        _ => "9",
    }
}

/// The decimal numeral of `n` as a string.
pub fn dec_u16(n: u16) -> (r: String)
    ensures
        r@ == spec_dec(n as nat),
    decreases n,
{
    if n < 10 {
        let r = digit_str(n).to_owned();
        r
    } else {
        let mut r = dec_u16(n / 10);
        r.append(digit_str(n % 10));
        proof {
            assert(r@ =~= spec_dec((n / 10) as nat).push(spec_digit((n % 10) as nat)));
        }
        r
    }
}

/// A string embedded in quotes.
pub open spec fn spec_json_string(s: Seq<char>) -> Seq<char> {
    "\""@ + s + "\""@
}

pub open spec fn spec_kind_name(k: PrimitiveKind) -> Seq<char> {
    match k {
        PrimitiveKind::Text => "string"@,
        PrimitiveKind::Integer => "integer"@,
        PrimitiveKind::Boolean => "boolean"@,
        PrimitiveKind::Number => "number"@,
    }
}

pub open spec fn spec_method_name(m: Method) -> Seq<char> {
    match m {
        Method::Get => "get"@,
        Method::Post => "post"@,
        Method::Put => "put"@,
        Method::Delete => "delete"@,
        Method::Patch => "patch"@,
        Method::Head => "head"@,
        Method::Options => "options"@,
    }
}

/// The JSON object for one schema node.
pub open spec fn spec_json_schema(s: SchemaV) -> Seq<char>
    decreases s, 0int,
{
    match s {
        SchemaV::Primitive(k) => "{\"type\":"@ + spec_json_string(spec_kind_name(k)) + "}"@,
        SchemaV::OpenObject =>
            "{\"type\":\"object\",\"additionalProperties\":{\"type\":\"string\"}}"@,
        SchemaV::Reference(n) => "{\"$ref\":\"#/components/schemas/"@ + n + "\"}"@,
        SchemaV::Array(e) => "{\"type\":\"array\",\"items\":"@ + spec_json_schema(*e) + "}"@,
        SchemaV::Object(fields) => "{\"type\":\"object\",\"properties\":{"@ + spec_json_fields(
            fields,
        ) + "}}"@,
    }
}

/// One object property: the field's name, and its schema wrapped with a
/// nullability marker when the field is nullable.
pub open spec fn spec_json_field(f: FieldSchemaV) -> Seq<char>
    decreases f, 1int,
{
    spec_json_string(f.name) + ":"@ + (if f.nullable {
        "{\"allOf\":["@ + spec_json_schema(f.schema) + "],\"nullable\":true}"@
    } else {
        spec_json_schema(f.schema)
    })
}

/// Comma-separated object properties, in field order.
pub open spec fn spec_json_fields(fs: Seq<FieldSchemaV>) -> Seq<char>
    decreases fs, 2int,
{
    if fs.len() == 0 {
        Seq::empty()
    } else if fs.len() == 1 {
        spec_json_field(fs[0])
    } else {
        spec_json_fields(fs.drop_last()) + ","@ + spec_json_field(fs.last())
    }
}

pub open spec fn spec_json_media(m: MediaObjectV) -> Seq<char> {
    spec_json_string(m.media_type) + ":{"@ + (match m.schema {
        Some(s) => "\"schema\":"@ + spec_json_schema(s),
        None => Seq::empty(),
    }) + "}"@
}

pub open spec fn spec_json_medias(ms: Seq<MediaObjectV>) -> Seq<char>
    decreases ms.len(),
{
    if ms.len() == 0 {
        Seq::empty()
    } else if ms.len() == 1 {
        spec_json_media(ms[0])
    } else {
        spec_json_medias(ms.drop_last()) + ","@ + spec_json_media(ms.last())
    }
}

pub open spec fn spec_json_response(r: ResponseObjectV) -> Seq<char> {
    spec_json_string(spec_dec(r.status as nat)) + ":{\"content\":{"@ + spec_json_medias(r.content)
        + "}}"@
}

pub open spec fn spec_json_responses(rs: Seq<ResponseObjectV>) -> Seq<char>
    decreases rs.len(),
{
    if rs.len() == 0 {
        Seq::empty()
    } else if rs.len() == 1 {
        spec_json_response(rs[0])
    } else {
        spec_json_responses(rs.drop_last()) + ","@ + spec_json_response(rs.last())
    }
}

pub open spec fn spec_json_op(op: OperationV) -> Seq<char> {
    "{\"method\":"@ + spec_json_string(spec_method_name(op.method)) + ",\"path\":"@
        + spec_json_string(op.path) + (match op.request_body {
        Some(s) => ",\"requestBody\":"@ + spec_json_schema(s),
        None => Seq::empty(),
    }) + (match op.summary {
        Some(s) => ",\"summary\":"@ + spec_json_string(s),
        None => Seq::empty(),
    }) + (match op.description {
        Some(s) => ",\"description\":"@ + spec_json_string(s),
        None => Seq::empty(),
    }) + ",\"responses\":{"@ + spec_json_responses(op.responses) + "}}"@
}

pub open spec fn spec_json_ops(ops: Seq<OperationV>) -> Seq<char>
    decreases ops.len(),
{
    if ops.len() == 0 {
        Seq::empty()
    } else if ops.len() == 1 {
        spec_json_op(ops[0])
    } else {
        spec_json_ops(ops.drop_last()) + ","@ + spec_json_op(ops.last())
    }
}

pub open spec fn spec_json_entry(e: RegistryEntryV) -> Seq<char> {
    spec_json_string(e.name) + ":"@ + spec_json_schema(e.schema)
}

pub open spec fn spec_json_entries(es: Seq<RegistryEntryV>) -> Seq<char>
    decreases es.len(),
{
    if es.len() == 0 {
        Seq::empty()
    } else if es.len() == 1 {
        spec_json_entry(es[0])
    } else {
        spec_json_entries(es.drop_last()) + ","@ + spec_json_entry(es.last())
    }
}

/// The JSON text of the whole document.
pub open spec fn spec_json_doc(d: DocumentV) -> Seq<char> {
    "{\"title\":"@ + spec_json_string(d.title) + ",\"version\":"@ + spec_json_string(d.version)
        + ",\"paths\":["@ + spec_json_ops(d.operations) + "],\"components\":{\"schemas\":{"@
        + spec_json_entries(d.components) + "}}}"@
}

/// Serializing equal documents yields identical texts: the serialized output
/// is a function of the document's contents alone.
pub proof fn lemma_serialization_deterministic(d1: DocumentV, d2: DocumentV)
    requires
        d1 == d2,
    ensures
        spec_json_doc(d1) == spec_json_doc(d2),
{
}

/// Determinism end to end: two successful generation runs over the same route
/// tree and metadata yield documents that serialize to identical texts (and
/// hence identical bytes).
pub proof fn lemma_generated_text_deterministic(
    root: RouteNodeV,
    title: Seq<char>,
    version: Seq<char>,
    d1: DocumentV,
    d2: DocumentV,
)
    requires
        spec_generate(root, title, version) == Ok::<DocumentV, ConflictV>(d1),
        spec_generate(root, title, version) == Ok::<DocumentV, ConflictV>(d2),
    ensures
        d1 == d2,
        spec_json_doc(d1) == spec_json_doc(d2),
{
}


fn kind_str(k: PrimitiveKind) -> (r: &'static str)
    ensures
        r@ == spec_kind_name(k),
{
    match k {
        PrimitiveKind::Text => "string",
        PrimitiveKind::Integer => "integer",
        PrimitiveKind::Boolean => "boolean",
        PrimitiveKind::Number => "number",
    }
}

fn method_str(m: Method) -> (r: &'static str)
    ensures
        r@ == spec_method_name(m),
{
    match m {
        Method::Get => "get",
        Method::Post => "post",
        Method::Put => "put",
        Method::Delete => "delete",
        Method::Patch => "patch",
        Method::Head => "head",
        Method::Options => "options",
    }
}

/// The JSON object for one schema node.
pub fn schema_to_json(s: &SchemaNode) -> (r: String)
    ensures
        r@ == spec_json_schema(schema_view(*s)),
    decreases s, 2int,
{
    match s {
        SchemaNode::Primitive(k) => {
            let mut out = String::new();
            out.append("{\"type\":");
            out.append("\"");
            out.append(kind_str(*k));
            out.append("\"");
            out.append("}");
            proof {
                assert(out@ =~= spec_json_schema(schema_view(*s)));
            }
            out
        },
        SchemaNode::OpenObject => {
            let out =
                "{\"type\":\"object\",\"additionalProperties\":{\"type\":\"string\"}}".to_owned();
            out
        },
        SchemaNode::Reference(n) => {
            let mut out = String::new();
            out.append("{\"$ref\":\"#/components/schemas/");
            out.append(n.as_str());
            out.append("\"}");
            proof {
                assert(out@ =~= spec_json_schema(schema_view(*s)));
            }
            out
        },
        SchemaNode::Array(elem) => {
            let mut out = String::new();
            out.append("{\"type\":\"array\",\"items\":");
            let inner = schema_to_json(&**elem);
            out.append(inner.as_str());
            out.append("}");
            proof {
                assert(out@ =~= spec_json_schema(schema_view(*s)));
            }
            out
        },
        SchemaNode::Object(fields) => {
            let mut out = String::new();
            out.append("{\"type\":\"object\",\"properties\":{");
            let inner = fields_to_json(fields);
            out.append(inner.as_str());
            out.append("}}");
            proof {
                assert(out@ =~= spec_json_schema(schema_view(*s)));
            }
            out
        },
    }
}

/// One object property.
fn field_to_json(f: &FieldSchema) -> (r: String)
    ensures
        r@ == spec_json_field(field_schema_view(*f)),
    decreases f, 1int,
{
    let mut out = String::new();
    out.append("\"");
    out.append(f.name.as_str());
    out.append("\"");
    out.append(":");
    let inner = schema_to_json(&f.schema);
    if f.nullable {
        out.append("{\"allOf\":[");
        out.append(inner.as_str());
        out.append("],\"nullable\":true}");
    } else {
        out.append(inner.as_str());
    }
    proof {
        assert(out@ =~= spec_json_field(field_schema_view(*f)));
    }
    out
}

/// Comma-separated object properties.
fn fields_to_json(fields: &Vec<FieldSchema>) -> (r: String)
    ensures
        r@ == spec_json_fields(fields_schema_view(*fields, fields.len() as int)),
    decreases fields, 0int,
{
    let ghost fsv = fields_schema_view(*fields, fields.len() as int);
    proof {
        lemma_fields_schema_view(*fields, fields.len() as int);
    }
    let mut out = String::new();
    let n = fields.len();
    let mut i: usize = 0;
    proof {
        assert(fsv.take(0) =~= Seq::<FieldSchemaV>::empty());
    }
    while i < n
        invariant
            0 <= i <= n,
            n == fields.len(),
            fsv == fields_schema_view(*fields, fields.len() as int),
            fsv.len() == n,
            forall|j: int| 0 <= j < n ==> fsv[j] == field_schema_view(fields[j]),
            out@ == spec_json_fields(fsv.take(i as int)),
        decreases n - i,
    {
        proof {
            assert(fsv.take(i as int + 1).drop_last() =~= fsv.take(i as int));
            assert(fsv.take(i as int + 1).last() == fsv[i as int]);
        }
        let item = field_to_json(&fields[i]);
        if i > 0 {
            out.append(",");
        }
        out.append(item.as_str());
        proof {
            if i == 0 {
                assert(out@ =~= spec_json_fields(fsv.take(1int)));
            }
        }
        i += 1;
    }
    proof {
        assert(fsv.take(n as int) =~= fsv);
    }
    out
}

fn media_to_json(m: &MediaObject) -> (r: String)
    ensures
        r@ == spec_json_media(m@),
{
    let mut out = String::new();
    out.append("\"");
    out.append(m.media_type.as_str());
    out.append("\"");
    out.append(":{");
    match &m.schema {
        Some(s) => {
            out.append("\"schema\":");
            let inner = schema_to_json(s);
            out.append(inner.as_str());
        },
        None => (),
    }
    out.append("}");
    proof {
        assert(out@ =~= spec_json_media(m@));
    }
    out
}

fn response_to_json(resp: &ResponseObject) -> (r: String)
    ensures
        r@ == spec_json_response(resp@),
{
    let ghost csv = Seq::new(resp.content@.len(), |i: int| resp.content@[i]@);
    let mut out = String::new();
    out.append("\"");
    let num = dec_u16(resp.status);
    out.append(num.as_str());
    out.append("\"");
    out.append(":{\"content\":{");
    let n = resp.content.len();
    let mut i: usize = 0;
    let ghost head = out@;
    proof {
        assert(csv.take(0) =~= Seq::<MediaObjectV>::empty());
    }
    while i < n
        invariant
            0 <= i <= n,
            n == resp.content.len(),
            csv == Seq::new(resp.content@.len(), |j: int| resp.content@[j]@),
            csv.len() == n,
            out@ == head + spec_json_medias(csv.take(i as int)),
        decreases n - i,
    {
        proof {
            assert(csv.take(i as int + 1).drop_last() =~= csv.take(i as int));
            assert(csv.take(i as int + 1).last() == csv[i as int]);
        }
        let item = media_to_json(&resp.content[i]);
        if i > 0 {
            out.append(",");
        }
        out.append(item.as_str());
        proof {
            if i == 0 {
                assert(out@ =~= head + spec_json_medias(csv.take(1int)));
            } else {
                assert(out@ =~= head + spec_json_medias(csv.take(i as int + 1)));
            }
        }
        i += 1;
    }
    out.append("}}");
    proof {
        assert(csv.take(n as int) =~= csv);
        assert(out@ =~= spec_json_response(resp@));
    }
    out
}

#[verifier::rlimit(60)]
fn op_to_json(op: &Operation) -> (r: String)
    ensures
        r@ == spec_json_op(op@),
{
    let ghost rsv = Seq::new(op.responses@.len(), |i: int| op.responses@[i]@);
    let mut out = String::new();
    out.append("{\"method\":");
    out.append("\"");
    out.append(method_str(op.method));
    out.append("\"");
    out.append(",\"path\":");
    out.append("\"");
    out.append(op.path.as_str());
    out.append("\"");
    match &op.request_body {
        Some(s) => {
            out.append(",\"requestBody\":");
            let inner = schema_to_json(s);
            out.append(inner.as_str());
        },
        None => (),
    }
    match &op.summary {
        Some(s) => {
            out.append(",\"summary\":");
            out.append("\"");
            out.append(s.as_str());
            out.append("\"");
        },
        None => (),
    }
    match &op.description {
        Some(s) => {
            out.append(",\"description\":");
            out.append("\"");
            out.append(s.as_str());
            out.append("\"");
        },
        None => (),
    }
    out.append(",\"responses\":{");
    let n = op.responses.len();
    let mut i: usize = 0;
    let ghost head = out@;
    proof {
        assert(rsv.take(0) =~= Seq::<ResponseObjectV>::empty());
    }
    while i < n
        invariant
            0 <= i <= n,
            n == op.responses.len(),
            rsv == Seq::new(op.responses@.len(), |j: int| op.responses@[j]@),
            rsv.len() == n,
            out@ == head + spec_json_responses(rsv.take(i as int)),
        decreases n - i,
    {
        proof {
            assert(rsv.take(i as int + 1).drop_last() =~= rsv.take(i as int));
            assert(rsv.take(i as int + 1).last() == rsv[i as int]);
        }
        let item = response_to_json(&op.responses[i]);
        if i > 0 {
            out.append(",");
        }
        out.append(item.as_str());
        proof {
            if i == 0 {
                assert(out@ =~= head + spec_json_responses(rsv.take(1int)));
            } else {
                assert(out@ =~= head + spec_json_responses(rsv.take(i as int + 1)));
            }
        }
        i += 1;
    }
    out.append("}}");
    proof {
        assert(rsv.take(n as int) =~= rsv);
        assert(out@ =~= spec_json_op(op@));
    }
    out
}

fn entry_to_json(e: &RegistryEntry) -> (r: String)
    ensures
        r@ == spec_json_entry(e@),
{
    let mut out = String::new();
    out.append("\"");
    out.append(e.name.as_str());
    out.append("\"");
    out.append(":");
    let inner = schema_to_json(&e.schema);
    out.append(inner.as_str());
    proof {
        assert(out@ =~= spec_json_entry(e@));
    }
    out
}

/// Serialize the document: the result is exactly `spec_json_doc` of the
/// document's model, so equal documents always serialize to identical bytes.
#[verifier::rlimit(60)]
pub fn document_to_json(d: &Document) -> (r: String)
    ensures
        r@ == spec_json_doc(d@),
{
    let mut out = String::new();
    out.append("{\"title\":");
    out.append("\"");
    out.append(d.title.as_str());
    out.append("\"");
    out.append(",\"version\":");
    out.append("\"");
    out.append(d.version.as_str());
    out.append("\"");
    out.append(",\"paths\":[");
    let ghost osv = ops_view(d.operations);
    let n = d.operations.len();
    let mut i: usize = 0;
    let ghost head = out@;
    proof {
        assert(osv.take(0) =~= Seq::<OperationV>::empty());
    }
    while i < n
        invariant
            0 <= i <= n,
            n == d.operations.len(),
            osv == ops_view(d.operations),
            osv.len() == n,
            out@ == head + spec_json_ops(osv.take(i as int)),
        decreases n - i,
    {
        proof {
            assert(osv.take(i as int + 1).drop_last() =~= osv.take(i as int));
            assert(osv.take(i as int + 1).last() == osv[i as int]);
        }
        let item = op_to_json(&d.operations[i]);
        if i > 0 {
            out.append(",");
        }
        out.append(item.as_str());
        proof {
            if i == 0 {
                assert(out@ =~= head + spec_json_ops(osv.take(1int)));
            } else {
                assert(out@ =~= head + spec_json_ops(osv.take(i as int + 1)));
            }
        }
        i += 1;
    }
    out.append("],\"components\":{\"schemas\":{");
    let ghost esv = d.components@;
    let m = d.components.len();
    let mut j: usize = 0;
    let ghost head2 = out@;
    proof {
        assert(osv.take(n as int) =~= osv);
        assert(esv.take(0) =~= Seq::<RegistryEntryV>::empty());
    }
    while j < m
        invariant
            0 <= j <= m,
            m == d.components@.len(),
            esv == d.components@,
            esv.len() == m,
            out@ == head2 + spec_json_entries(esv.take(j as int)),
        decreases m - j,
    {
        proof {
            assert(esv.take(j as int + 1).drop_last() =~= esv.take(j as int));
            assert(esv.take(j as int + 1).last() == esv[j as int]);
        }
        let item = entry_to_json(d.components.get(j));
        if j > 0 {
            out.append(",");
        }
        out.append(item.as_str());
        proof {
            if j == 0 {
                assert(out@ =~= head2 + spec_json_entries(esv.take(1int)));
            } else {
                assert(out@ =~= head2 + spec_json_entries(esv.take(j as int + 1)));
            }
        }
        j += 1;
    }
    out.append("}}}");
    proof {
        assert(esv.take(m as int) =~= esv);
        assert(out@ =~= spec_json_doc(d@));
    }
    out
}

} // verus!
