use openapi_gen::deriver::derive_schema;
use openapi_gen::document::generate_document;
use openapi_gen::document::Document;
use openapi_gen::openapi::GenerateOpenapi;
use openapi_gen::openapi::GenerateOpenapiStatic;
use openapi_gen::openapi::Json;
use openapi_gen::operation::Operation;
use openapi_gen::registry::SchemaRegistry;
use openapi_gen::route::Endpoint;
use openapi_gen::route::Method;
use openapi_gen::route::ResponseDecl;
use openapi_gen::route::RouteNode;
use openapi_gen::schema::FieldDescriptor;
use openapi_gen::schema::FieldSchema;
use openapi_gen::schema::PrimitiveKind;
use openapi_gen::schema::SchemaNode;
use openapi_gen::schema::TypeDescriptor;
use openapi_gen::serialize::dec_u16;
use openapi_gen::serialize::document_to_json;

fn pet_descriptor() -> TypeDescriptor {
    TypeDescriptor::Named {
        name: "Pet".to_string(),
        fields: vec![
            FieldDescriptor {
                name: "id".to_string(),
                ty: TypeDescriptor::Primitive(PrimitiveKind::Integer),
                nullable: true,
            },
            FieldDescriptor {
                name: "name".to_string(),
                ty: TypeDescriptor::Primitive(PrimitiveKind::Text),
                nullable: false,
            },
            FieldDescriptor {
                name: "photoUrls".to_string(),
                ty: TypeDescriptor::ArrayOf(Box::new(TypeDescriptor::Primitive(
                    PrimitiveKind::Text,
                ))),
                nullable: false,
            },
        ],
    }
}

fn get_pet_endpoint() -> RouteNode {
    RouteNode::Endpoint(Endpoint {
        method: Method::Get,
        path: "/pet/{petId}".to_string(),
        request: None,
        responses: vec![ResponseDecl { status: 200, ty: Some(pet_descriptor()) }],
        summary: None,
        description: None,
    })
}

#[test]
fn test_default_json_response() {
    let mut reg = SchemaRegistry::new();
    let json = Json { ty: TypeDescriptor::Opaque };
    if let Some((status_code, response)) = json.generate_response(&mut reg) {
        assert_eq!(status_code, 200);
        let content = &response.content;
        assert!(!content.is_empty(), "missing content");
        let media = &content[0];
        assert_eq!(media.media_type, "application/json", "missing application/json");
        match &media.schema {
            Some(SchemaNode::Reference(ref_path)) => {
                assert!(ref_path.ends_with("Object"))
            }
            _ => panic!("expect some object reference"),
        }
    } else {
        panic!("unexpected None");
    }
}

#[test]
fn test_json_with_schema_response() {
    let mut reg = SchemaRegistry::new();
    let json = Json {
        ty: TypeDescriptor::Named {
            name: "WithOpenapiSchema".to_string(),
            fields: vec![FieldDescriptor {
                name: "field".to_string(),
                ty: TypeDescriptor::Primitive(PrimitiveKind::Text),
                nullable: false,
            }],
        },
    };
    if let Some((status_code, response)) = json.generate_response(&mut reg) {
        assert_eq!(status_code, 200);
        let content = &response.content;
        assert!(!content.is_empty(), "missing content");
        let media = &content[0];
        assert_eq!(media.media_type, "application/json", "missing application/json");
        match &media.schema {
            Some(SchemaNode::Reference(ref_path)) => {
                assert!(ref_path.ends_with("WithOpenapiSchema"))
            }
            _ => panic!("expect some object reference"),
        }
    } else {
        panic!("unexpected None");
    }

    assert!(reg.len() > 0, "missing components");
    assert!(
        reg.find(&"WithOpenapiSchema".to_string()).is_some(),
        "missing schemas"
    );
}

/// A nested group with prefix `/pet`, a child group with no prefix, and an
/// endpoint at `/{petId}` resolve to the exact path `/pet/{petId}`.
#[test]
fn test_path_composition() {
    let tree = RouteNode::Group {
        prefix: "/pet".to_string(),
        children: vec![RouteNode::Group {
            prefix: "".to_string(),
            children: vec![RouteNode::Endpoint(Endpoint {
                method: Method::Get,
                path: "/{petId}".to_string(),
                request: None,
                responses: vec![],
                summary: None,
                description: None,
            })],
        }],
    };
    let doc = generate_document(&tree, "t".to_string(), "1".to_string()).unwrap();
    assert_eq!(doc.operations.len(), 1);
    assert_eq!(doc.operations[0].path, "/pet/{petId}");
}

/// `GET /pet/{petId}` with response type `Pet` yields an operation whose 200
/// response references "Pet", and a registry entry "Pet" with the expected
/// object shape.
#[test]
fn test_pet_endpoint_schema() {
    let doc = generate_document(&get_pet_endpoint(), "t".to_string(), "1".to_string()).unwrap();
    assert_eq!(doc.operations.len(), 1);
    let op: &Operation = &doc.operations[0];
    assert!(matches!(op.method, Method::Get));
    assert_eq!(op.path, "/pet/{petId}");
    assert_eq!(op.responses.len(), 1);
    assert_eq!(op.responses[0].status, 200);
    let media = &op.responses[0].content[0];
    assert_eq!(media.media_type, "application/json");
    match &media.schema {
        Some(SchemaNode::Reference(name)) => assert_eq!(name, "Pet"),
        _ => panic!("expected a reference to Pet"),
    }

    let pet = doc.components.lookup_schema(&"Pet".to_string()).expect("Pet not registered");
    match pet {
        SchemaNode::Object(fields) => {
            assert_eq!(fields.len(), 3);
            let id: &FieldSchema = &fields[0];
            assert_eq!(id.name, "id");
            assert!(id.nullable);
            assert!(matches!(id.schema, SchemaNode::Primitive(PrimitiveKind::Integer)));
            let name: &FieldSchema = &fields[1];
            assert_eq!(name.name, "name");
            assert!(!name.nullable);
            assert!(matches!(name.schema, SchemaNode::Primitive(PrimitiveKind::Text)));
            let urls: &FieldSchema = &fields[2];
            assert_eq!(urls.name, "photoUrls");
            assert!(!urls.nullable);
            match &urls.schema {
                SchemaNode::Array(elem) => {
                    assert!(matches!(**elem, SchemaNode::Primitive(PrimitiveKind::Text)))
                }
                _ => panic!("expected an array of string"),
            }
        }
        _ => panic!("expected an object schema"),
    }
}

/// An endpoint with no declared response type still generates: the operation
/// carries an empty response-content list for its status code.
#[test]
fn test_no_response_type() {
    let tree = RouteNode::Endpoint(Endpoint {
        method: Method::Delete,
        path: "/pet/{petId}".to_string(),
        request: None,
        responses: vec![ResponseDecl { status: 200, ty: None }],
        summary: None,
        description: None,
    });
    let doc = generate_document(&tree, "t".to_string(), "1".to_string()).unwrap();
    let op = &doc.operations[0];
    assert!(matches!(op.method, Method::Delete));
    assert_eq!(op.path, "/pet/{petId}");
    assert_eq!(op.responses.len(), 1);
    assert_eq!(op.responses[0].status, 200);
    assert!(op.responses[0].content.is_empty());
}

/// Two sibling endpoints resolving to the same `GET /user/{username}` key are
/// a structural conflict: generation fails rather than silently keeping one.
#[test]
fn test_duplicate_key_conflict() {
    let mk = || {
        RouteNode::Endpoint(Endpoint {
            method: Method::Get,
            path: "/user/{username}".to_string(),
            request: None,
            responses: vec![],
            summary: None,
            description: None,
        })
    };
    let tree = RouteNode::Group { prefix: "".to_string(), children: vec![mk(), mk()] };
    match generate_document(&tree, "t".to_string(), "1".to_string()) {
        Ok(_) => panic!("expected a structural conflict"),
        Err(c) => {
            assert!(matches!(c.method, Method::Get));
            assert_eq!(c.path, "/user/{username}");
        }
    }
}

/// Registering the same named composite repeatedly keeps exactly one entry;
/// structurally distinct schemas sharing a name get distinct, deterministic
/// disambiguated names, never overwriting each other.
#[test]
fn test_registry_dedup_and_disambiguation() {
    let mut reg = SchemaRegistry::new();
    let obj_a = || SchemaNode::Object(vec![FieldSchema {
        name: "a".to_string(),
        schema: SchemaNode::Primitive(PrimitiveKind::Text),
        nullable: false,
    }]);
    let obj_b = || SchemaNode::Object(vec![FieldSchema {
        name: "b".to_string(),
        schema: SchemaNode::Primitive(PrimitiveKind::Integer),
        nullable: false,
    }]);
    let obj_c = || SchemaNode::Primitive(PrimitiveKind::Boolean);

    let n1 = reg.register("Pet".to_string(), obj_a());
    assert_eq!(n1, "Pet");
    assert_eq!(reg.len(), 1);
    let n2 = reg.register("Pet".to_string(), obj_a());
    assert_eq!(n2, "Pet");
    assert_eq!(reg.len(), 1, "dedup must not add an entry");

    let n3 = reg.register("Pet".to_string(), obj_b());
    assert_eq!(n3, "Pet_");
    assert_eq!(reg.len(), 2);
    let n4 = reg.register("Pet".to_string(), obj_c());
    assert_eq!(n4, "Pet__");
    assert_eq!(reg.len(), 3);

    // registering the conflicting schemas again reuses their suffixed entries
    let n5 = reg.register("Pet".to_string(), obj_b());
    assert_eq!(n5, "Pet_");
    let n6 = reg.register("Pet".to_string(), obj_c());
    assert_eq!(n6, "Pet__");
    assert_eq!(reg.len(), 3);

    // insertion order is kept
    assert_eq!(reg.get(0).name, "Pet");
    assert_eq!(reg.get(1).name, "Pet_");
    assert_eq!(reg.get(2).name, "Pet__");
}

/// Types without a structural descriptor share one fallback entry: deriving
/// twice registers "Object" exactly once, and both derivations reference it.
#[test]
fn test_fallback_shared() {
    let mut reg = SchemaRegistry::new();
    let s1 = derive_schema(&TypeDescriptor::Opaque, &mut reg);
    let s2 = derive_schema(&TypeDescriptor::Opaque, &mut reg);
    assert_eq!(reg.len(), 1);
    assert_eq!(reg.get(0).name, "Object");
    assert!(matches!(reg.get(0).schema, SchemaNode::OpenObject));
    for s in [&s1, &s2] {
        match s {
            SchemaNode::Reference(n) => assert_eq!(n, "Object"),
            _ => panic!("expected a reference to the fallback entry"),
        }
    }
}

/// Deriving the same named type twice creates no duplicate or divergent
/// registry entries.
#[test]
fn test_derive_idempotent() {
    let mut reg = SchemaRegistry::new();
    let d = pet_descriptor();
    let s1 = derive_schema(&d, &mut reg);
    let len1 = reg.len();
    let s2 = derive_schema(&d, &mut reg);
    assert_eq!(reg.len(), len1);
    match (&s1, &s2) {
        (SchemaNode::Reference(a), SchemaNode::Reference(b)) => assert_eq!(a, b),
        _ => panic!("expected references"),
    }
}

/// A request type is derived and attached as the request-body schema.
#[test]
fn test_request_body() {
    let tree = RouteNode::Endpoint(Endpoint {
        method: Method::Post,
        path: "/pet".to_string(),
        request: Some(pet_descriptor()),
        responses: vec![],
        summary: Some("Add a pet".to_string()),
        description: None,
    });
    let doc = generate_document(&tree, "t".to_string(), "1".to_string()).unwrap();
    let op = &doc.operations[0];
    assert_eq!(op.summary.as_deref(), Some("Add a pet"));
    match &op.request_body {
        Some(SchemaNode::Reference(n)) => assert_eq!(n, "Pet"),
        _ => panic!("expected a request-body reference"),
    }
    assert!(doc.components.find(&"Pet".to_string()).is_some());
}

fn same_document(a: &Document, b: &Document) -> bool {
    if a.title != b.title || a.version != b.version {
        return false;
    }
    if a.operations.len() != b.operations.len() || a.components.len() != b.components.len() {
        return false;
    }
    for i in 0..a.operations.len() {
        if a.operations[i].path != b.operations[i].path {
            return false;
        }
        if a.operations[i].responses.len() != b.operations[i].responses.len() {
            return false;
        }
    }
    for i in 0..a.components.len() {
        if a.components.get(i).name != b.components.get(i).name {
            return false;
        }
    }
    true
}

/// Generating twice from the same route tree yields the same document, entry
/// for entry and in the same order.
#[test]
fn test_determinism() {
    let tree = || RouteNode::Group {
        prefix: "/pet".to_string(),
        children: vec![get_pet_endpoint()],
    };
    let d1 = generate_document(&tree(), "t".to_string(), "1".to_string()).unwrap();
    let d2 = generate_document(&tree(), "t".to_string(), "1".to_string()).unwrap();
    assert!(same_document(&d1, &d2));
}

/// The trait entry point contributes a node's operations to an accumulator.
#[test]
fn test_generate_openapi_trait() {
    let tree = get_pet_endpoint();
    let mut ops: Vec<Operation> = Vec::new();
    let mut reg = SchemaRegistry::new();
    let r = tree.generate_openapi(&"".to_string(), &mut ops, &mut reg);
    assert!(r.is_ok());
    assert_eq!(ops.len(), 1);
    assert_eq!(ops[0].path, "/pet/{petId}");
    assert!(reg.find(&"Pet".to_string()).is_some());
}

/// Serializing the generated document twice from the same route tree yields
/// byte-identical output.
#[test]
fn test_serialized_determinism() {
    let tree = || RouteNode::Group {
        prefix: "/pet".to_string(),
        children: vec![get_pet_endpoint()],
    };
    let d1 = generate_document(&tree(), "t".to_string(), "1".to_string()).unwrap();
    let d2 = generate_document(&tree(), "t".to_string(), "1".to_string()).unwrap();
    let s1 = document_to_json(&d1);
    let s2 = document_to_json(&d2);
    assert_eq!(s1, s2);
    assert_eq!(s1.as_bytes(), s2.as_bytes());
}

/// The exact serialized text of a small document.
#[test]
fn test_serialized_exact() {
    let tree = RouteNode::Endpoint(Endpoint {
        method: Method::Delete,
        path: "/pet/{petId}".to_string(),
        request: None,
        responses: vec![ResponseDecl { status: 200, ty: None }],
        summary: None,
        description: None,
    });
    let doc = generate_document(&tree, "t".to_string(), "1".to_string()).unwrap();
    let json = document_to_json(&doc);
    assert_eq!(
        json,
        "{\"title\":\"t\",\"version\":\"1\",\"paths\":[{\"method\":\"delete\",\"path\":\"/pet/{petId}\",\"responses\":{\"200\":{\"content\":{}}}}],\"components\":{\"schemas\":{}}}"
    );
}

/// Decimal rendering of status codes.
#[test]
fn test_decimal_rendering() {
    assert_eq!(dec_u16(0), "0");
    assert_eq!(dec_u16(7), "7");
    assert_eq!(dec_u16(200), "200");
    assert_eq!(dec_u16(404), "404");
    assert_eq!(dec_u16(65535), "65535");
}
