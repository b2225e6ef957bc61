//! The fixed field catalogues of connection and edge objects, and the
//! dispatch from a requested field name to a field.
use vstd::prelude::*;

use crate::ident::str_eq;

verus! {

/// A field of a connection object.
#[derive(Debug, Clone, Copy, PartialEq, Eq, Structural)]
pub enum ConnectionField {
    Edges,
    PageInfo,
}

/// A field of an edge object.
#[derive(Debug, Clone, Copy, PartialEq, Eq, Structural)]
pub enum EdgeField {
    Node,
    Cursor,
}

impl ConnectionField {
    pub open spec fn spec_name(self) -> Seq<char> {
        match self {
            ConnectionField::Edges => "edges"@,
            ConnectionField::PageInfo => "pageInfo"@,
        }
    }

    /// The field's name in the schema.
    pub fn name(&self) -> (r: &'static str)
        ensures
            r@ == self.spec_name(),
    {
        match self {
            ConnectionField::Edges => "edges",
            ConnectionField::PageInfo => "pageInfo",
        }
    }

    /// The field with the given name, if the catalogue has one.
    pub fn from_name(name: &str) -> (r: Option<ConnectionField>)
        ensures
            r matches Some(f) ==> f.spec_name() == name@,
            r is None ==> forall|f: ConnectionField| f.spec_name() != name@,
    {
        if str_eq(name, "edges") {
            Some(ConnectionField::Edges)
        } else if str_eq(name, "pageInfo") {
            Some(ConnectionField::PageInfo)
        } else {
            None
        }
    }

    /// The catalogue, in schema order.
    pub fn all() -> (r: Vec<ConnectionField>)
        ensures
            r@ == seq![ConnectionField::Edges, ConnectionField::PageInfo],
    {
        vec![ConnectionField::Edges, ConnectionField::PageInfo]
    }
}

impl EdgeField {
    pub open spec fn spec_name(self) -> Seq<char> {
        match self {
            EdgeField::Node => "node"@,
            EdgeField::Cursor => "cursor"@,
        }
    }

    /// The field's name in the schema.
    pub fn name(&self) -> (r: &'static str)
        ensures
            r@ == self.spec_name(),
    {
        match self {
            EdgeField::Node => "node",
            EdgeField::Cursor => "cursor",
        }
    }

    /// The field with the given name, if the catalogue has one.
    pub fn from_name(name: &str) -> (r: Option<EdgeField>)
        ensures
            r matches Some(f) ==> f.spec_name() == name@,
            r is None ==> forall|f: EdgeField| f.spec_name() != name@,
    {
        if str_eq(name, "node") {
            Some(EdgeField::Node)
        } else if str_eq(name, "cursor") {
            Some(EdgeField::Cursor)
        } else {
            None
        }
    }

    /// The catalogue, in schema order.
    pub fn all() -> (r: Vec<EdgeField>)
        ensures
            r@ == seq![EdgeField::Node, EdgeField::Cursor],
    {
        vec![EdgeField::Node, EdgeField::Cursor]
    }
}

} // verus!
