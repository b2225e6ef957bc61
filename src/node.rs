//! Node records, the read-only store that holds them, and the lookups and
//! relationship fields that the query root resolves.
use vstd::prelude::*;

use crate::connection::views;

verus! {

/// A node type that can be addressed by its identifier.
pub trait Node {
    fn id(&self) -> &String;
}

/// A node type that appears in connections, with the schema names of its
/// connection and edge types.
pub trait ConnectionEdge {
    spec fn connection_name() -> Seq<char>;

    spec fn edge_name() -> Seq<char>;

    fn connection_type_name() -> (r: &'static str)
        ensures
            r@ == Self::connection_name(),
    ;

    fn edge_type_name() -> (r: &'static str)
        ensures
            r@ == Self::edge_name(),
    ;
}

#[derive(Debug, Clone)]
pub struct Film {
    pub id: String,
    pub title: String,
    pub characters: Vec<String>,
}

#[derive(Debug, Clone)]
pub struct Person {
    pub id: String,
    pub name: String,
    pub films: Vec<String>,
}

/// The mathematical value of a `Film`.
pub struct FilmModel {
    pub id: Seq<char>,
    pub title: Seq<char>,
    pub characters: Seq<Seq<char>>,
}

/// The mathematical value of a `Person`.
pub struct PersonModel {
    pub id: Seq<char>,
    pub name: Seq<char>,
    pub films: Seq<Seq<char>>,
}

impl View for Film {
    type V = FilmModel;

    open spec fn view(&self) -> FilmModel {
        FilmModel { id: self.id@, title: self.title@, characters: views(self.characters@) }
    }
}

impl View for Person {
    type V = PersonModel;

    open spec fn view(&self) -> PersonModel {
        PersonModel { id: self.id@, name: self.name@, films: views(self.films@) }
    }
}

/// A record of the store, by category. Only films and people are nodes.
#[derive(Debug, Clone)]
pub enum NodeRecord {
    Person(Person),
    Film(Film),
    Planet,
    Species,
    Starship,
    Vehicle,
}

/// A node of the graph.
#[derive(Debug, Clone)]
pub enum NodeValue {
    Film(Film),
    Person(Person),
}

/// The mathematical value of a `NodeValue`.
pub enum NodeValueModel {
    Film(FilmModel),
    Person(PersonModel),
}

impl View for NodeValue {
    type V = NodeValueModel;

    open spec fn view(&self) -> NodeValueModel {
        match self {
            NodeValue::Film(f) => NodeValueModel::Film(f@),
            NodeValue::Person(p) => NodeValueModel::Person(p@),
        }
    }
}

/// A record whose category is not a node type.
#[derive(Debug, Clone, Copy, PartialEq, Eq, Structural)]
pub enum NodeError {
    UnsupportedCategory,
}

fn copy_strings(v: &Vec<String>) -> (r: Vec<String>)
    ensures
        r@ == v@,
{
    let mut r: Vec<String> = Vec::new();
    let mut i: usize = 0;
    while i < v.len()
        invariant
            0 <= i <= v@.len(),
            r@ == v@.take(i as int),
        decreases v@.len() - i,
    {
        r.push(v[i].clone());
        assert(r@ == v@.take(i + 1));
        i = i + 1;
    }
    assert(v@.take(i as int) == v@);
    r
}

impl Film {
    pub fn new(id: String, title: String, characters: Vec<String>) -> (r: Film)
        ensures
            r == (Film { id, title, characters }),
    {
        Film { id, title, characters }
    }

    /// A field-by-field copy.
    pub fn copied(&self) -> (r: Film)
        ensures
            r@ == self@,
    {
        Film {
            id: self.id.clone(),
            title: self.title.clone(),
            characters: copy_strings(&self.characters),
        }
    }

    pub fn id(&self) -> (r: &String)
        ensures
            r == &self.id,
    {
        &self.id
    }

    pub fn title(&self) -> (r: &String)
        ensures
            r == &self.title,
    {
        &self.title
    }
}

impl Person {
    pub fn new(id: String, name: String, films: Vec<String>) -> (r: Person)
        ensures
            r == (Person { id, name, films }),
    {
        Person { id, name, films }
    }

    /// A field-by-field copy.
    pub fn copied(&self) -> (r: Person)
        ensures
            r@ == self@,
    {
        Person { id: self.id.clone(), name: self.name.clone(), films: copy_strings(&self.films) }
    }

    pub fn id(&self) -> (r: &String)
        ensures
            r == &self.id,
    {
        &self.id
    }

    pub fn name(&self) -> (r: &String)
        ensures
            r == &self.name,
    {
        &self.name
    }
}

impl Node for Film {
    fn id(&self) -> &String {
        &self.id
    }
}

impl Node for Person {
    fn id(&self) -> &String {
        &self.id
    }
}

impl ConnectionEdge for Film {
    open spec fn connection_name() -> Seq<char> {
        "FilmConnection"@
    }

    open spec fn edge_name() -> Seq<char> {
        "FilmEdge"@
    }

    fn connection_type_name() -> (r: &'static str) {
        "FilmConnection"
    }

    fn edge_type_name() -> (r: &'static str) {
        "FilmEdge"
    }
}

impl ConnectionEdge for Person {
    open spec fn connection_name() -> Seq<char> {
        "PersonConnection"@
    }

    open spec fn edge_name() -> Seq<char> {
        "PersonEdge"@
    }

    fn connection_type_name() -> (r: &'static str) {
        "PersonConnection"
    }

    fn edge_type_name() -> (r: &'static str) {
        "PersonEdge"
    }
}

/// The node that a record stands for, if its category is a node type.
pub open spec fn node_value_of(rec: NodeRecord) -> Result<NodeValue, NodeError> {
    match rec {
        NodeRecord::Film(f) => Ok(NodeValue::Film(f)),
        NodeRecord::Person(p) => Ok(NodeValue::Person(p)),
        _ => Err(NodeError::UnsupportedCategory),
    }
}

impl NodeValue {
    /// Converts a record into a node, refusing the categories that are not
    /// node types.
    pub fn from_record(rec: NodeRecord) -> (r: Result<NodeValue, NodeError>)
        ensures
            r == node_value_of(rec),
    {
        match rec {
            NodeRecord::Film(f) => Ok(NodeValue::Film(f)),
            NodeRecord::Person(p) => Ok(NodeValue::Person(p)),
            NodeRecord::Planet => Err(NodeError::UnsupportedCategory),
            NodeRecord::Species => Err(NodeError::UnsupportedCategory),
            NodeRecord::Starship => Err(NodeError::UnsupportedCategory),
            NodeRecord::Vehicle => Err(NodeError::UnsupportedCategory),
        }
    }
}

} // verus!
