//! The route tree: nested groups of path-prefixed children with endpoint
//! leaves carrying per-route metadata (method, path template, declared
//! request and response types, and documentation text).

use vstd::prelude::*;

use crate::schema::TypeDescriptor;
use crate::schema::TypeDescriptorV;
use crate::schema::type_descriptor_view;

verus! {

broadcast use vstd::std_specs::vec::axiom_vec_index_decreases;

/// An HTTP method.
#[derive(Clone, Copy, PartialEq, Eq, Structural, Debug)]
pub enum Method {
    Get,
    Post,
    Put,
    Delete,
    Patch,
    Head,
    Options,
}

/// One declared response: a status code and the declared response type, if
/// any.  An endpoint may declare no response type for a status (a delete
/// endpoint with an empty body, for instance); that is still valid.
pub struct ResponseDecl {
    pub status: u16,
    pub ty: Option<TypeDescriptor>,
}

/// One endpoint: a (method, path template) handler with its declared request
/// and response types and its documentation text.
pub struct Endpoint {
    pub method: Method,
    pub path: String,
    pub request: Option<TypeDescriptor>,
    pub responses: Vec<ResponseDecl>,
    pub summary: Option<String>,
    pub description: Option<String>,
}

/// A node of the route tree: a group of children sharing a path prefix, or an
/// endpoint leaf.  Path templates compose by concatenating the prefixes from
/// the root down to the leaf.
pub enum RouteNode {
    Group { prefix: String, children: Vec<RouteNode> },
    Endpoint(Endpoint),
}

/// Mathematical model of a declared response.
#[verifier::ext_equal]
pub struct ResponseDeclV {
    pub status: u16,
    pub ty: Option<TypeDescriptorV>,
}

/// Mathematical model of an endpoint.
#[verifier::ext_equal]
pub struct EndpointV {
    pub method: Method,
    pub path: Seq<char>,
    pub request: Option<TypeDescriptorV>,
    pub responses: Seq<ResponseDeclV>,
    pub summary: Option<Seq<char>>,
    pub description: Option<Seq<char>>,
}

/// Mathematical model of a route node.
#[verifier::ext_equal]
pub enum RouteNodeV {
    Group { prefix: Seq<char>, children: Seq<RouteNodeV> },
    Endpoint(EndpointV),
}

pub open spec fn opt_type_descriptor_view(o: Option<TypeDescriptor>) -> Option<TypeDescriptorV> {
    match o {
        Some(t) => Some(type_descriptor_view(t)),
        None => None,
    }
}

pub open spec fn opt_string_view(o: Option<String>) -> Option<Seq<char>> {
    match o {
        Some(s) => Some(s@),
        None => None,
    }
}

impl View for ResponseDecl {
    type V = ResponseDeclV;

    open spec fn view(&self) -> ResponseDeclV {
        ResponseDeclV { status: self.status, ty: opt_type_descriptor_view(self.ty) }
    }
}

impl View for Endpoint {
    type V = EndpointV;

    open spec fn view(&self) -> EndpointV {
        EndpointV {
            method: self.method,
            path: self.path@,
            request: opt_type_descriptor_view(self.request),
            responses: Seq::new(self.responses@.len(), |i: int| self.responses@[i]@),
            summary: opt_string_view(self.summary),
            description: opt_string_view(self.description),
        }
    }
}

/// The views of the first `i` children, in order.
pub open spec fn route_nodes_view(nodes: Vec<RouteNode>, i: int) -> Seq<RouteNodeV>
    decreases nodes, i,
{
    if 0 < i <= nodes.len() {
        route_nodes_view(nodes, i - 1).push(route_node_view(nodes[i - 1]))
    } else {
        Seq::empty()
    }
}

pub open spec fn route_node_view(n: RouteNode) -> RouteNodeV
    decreases n, 0int,
{
    match n {
        RouteNode::Group { prefix, children } => RouteNodeV::Group {
            prefix: prefix@,
            children: route_nodes_view(children, children.len() as int),
        },
        RouteNode::Endpoint(e) => RouteNodeV::Endpoint(e@),
    }
}

impl View for RouteNode {
    type V = RouteNodeV;

    open spec fn view(&self) -> RouteNodeV {
        route_node_view(*self)
    }
}

/// The view of a child list has one entry per child, the child's view.
pub proof fn lemma_route_nodes_view(nodes: Vec<RouteNode>, i: int)
    requires
        0 <= i <= nodes.len(),
    ensures
        route_nodes_view(nodes, i).len() == i,
        forall|j: int|
            0 <= j < i ==> route_nodes_view(nodes, i)[j] == route_node_view(nodes[j]),
    decreases i,
{
    if 0 < i {
        lemma_route_nodes_view(nodes, i - 1);
    }
}

} // verus!
