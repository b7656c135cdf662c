//! The capability interfaces of the generator: route-tree nodes contribute
//! operations and schemas to a document under construction, and typed JSON
//! payloads state the response they document for their status code.

use vstd::prelude::*;

use crate::document::ConflictV;
use crate::document::StructuralConflict;
use crate::document::ops_view;
use crate::document::spec_walk;
use crate::document::walk;
use crate::operation::MediaObject;
use crate::operation::Operation;
use crate::operation::OperationV;
use crate::operation::ResponseObject;
use crate::operation::ResponseObjectV;
use crate::operation::spec_build_response;
use crate::registry::RegistryEntryV;
use crate::registry::SchemaRegistry;
use crate::deriver::derive_schema;
use crate::route::ResponseDeclV;
use crate::schema::TypeDescriptor;

verus! {

/// A route-tree node that can contribute to the document under construction.
pub trait GenerateOpenapi {
    /// What the node contributes: the accumulator state after merging this
    /// node's operations and schemas, or the structural conflict found.
    spec fn openapi_result(
        &self,
        prefix: Seq<char>,
        ops: Seq<OperationV>,
        reg: Seq<RegistryEntryV>,
    ) -> Result<(Seq<OperationV>, Seq<RegistryEntryV>), ConflictV>;

    /// Merge this node's operations and schemas into the accumulator.
    fn generate_openapi(
        &self,
        prefix: &String,
        ops: &mut Vec<Operation>,
        reg: &mut SchemaRegistry,
    ) -> (r: Result<(), StructuralConflict>)
        requires
            old(reg).wf(),
        ensures
            final(reg).wf(),
            match r {
                Ok(_) => self.openapi_result(prefix@, ops_view(*old(ops)), old(reg)@) == Ok::<
                    _,
                    ConflictV,
                >((ops_view(*final(ops)), final(reg)@)),
                Err(c) => self.openapi_result(prefix@, ops_view(*old(ops)), old(reg)@) == Err::<
                    (Seq<OperationV>, Seq<RegistryEntryV>),
                    _,
                >(c@),
            },
    ;
}

impl GenerateOpenapi for crate::route::RouteNode {
    open spec fn openapi_result(
        &self,
        prefix: Seq<char>,
        ops: Seq<OperationV>,
        reg: Seq<RegistryEntryV>,
    ) -> Result<(Seq<OperationV>, Seq<RegistryEntryV>), ConflictV> {
        spec_walk(self@, prefix, ops, reg)
    }

    fn generate_openapi(
        &self,
        prefix: &String,
        ops: &mut Vec<Operation>,
        reg: &mut SchemaRegistry,
    ) -> (r: Result<(), StructuralConflict>) {
        walk(self, prefix, ops, reg)
    }
}

/// A JSON-encoded payload of the type described by `ty`.
pub struct Json {
    pub ty: TypeDescriptor,
}

/// A payload that can state the response it documents, registering schemas as
/// a side effect.
pub trait GenerateOpenapiStatic {
    /// The response stated (with its status code), and the registry after the
    /// schemas it needs have been registered.
    spec fn response_result(&self, reg: Seq<RegistryEntryV>) -> (
        Option<(u16, ResponseObjectV)>,
        Seq<RegistryEntryV>,
    );

    /// State the documented response, deriving and registering its schema.
    fn generate_response(&self, reg: &mut SchemaRegistry) -> (r: Option<(u16, ResponseObject)>)
        requires
            old(reg).wf(),
        ensures
            final(reg).wf(),
            final(reg)@ == self.response_result(old(reg)@).1,
            match r {
                Some(p) => self.response_result(old(reg)@).0 == Some((p.0, p.1@)),
                None => self.response_result(old(reg)@).0 is None,
            },
    ;
}

impl GenerateOpenapiStatic for Json {
    /// A JSON payload always documents a response: status 200 with the
    /// derived schema of its type under the JSON media type.  A type without
    /// a structural descriptor yields a reference to the shared open-ended
    /// fallback schema.
    open spec fn response_result(&self, reg: Seq<RegistryEntryV>) -> (
        Option<(u16, ResponseObjectV)>,
        Seq<RegistryEntryV>,
    ) {
        let (ro, reg1) = spec_build_response(
            ResponseDeclV { status: 200, ty: Some(self.ty@) },
            reg,
        );
        (Some((200u16, ro)), reg1)
    }

    fn generate_response(&self, reg: &mut SchemaRegistry) -> (r: Option<(u16, ResponseObject)>) {
        let s = derive_schema(&self.ty, reg);
        let mut content: Vec<MediaObject> = Vec::new();
        content.push(MediaObject { media_type: "application/json".to_owned(), schema: Some(s) });
        let ro = ResponseObject { status: 200, content };
        proof {
            let (rov, _) = spec_build_response(
                ResponseDeclV { status: 200, ty: Some(self.ty@) },
                old(reg)@,
            );
            assert(ro@.content =~= rov.content);
        }
        Some((200, ro))
    }
}

} // verus!
