//! The read-only record store, the query root's lookups against it, and the
//! relationship fields of films and people.
use vstd::prelude::*;

use crate::connection::{lemma_loaded_by_lookup, opt_view, resolved_post, views, Connection, PageError};
use crate::ident::str_eq;
use crate::node::{
    node_value_of, Film, FilmModel, NodeError, NodeRecord, NodeValue, NodeValueModel, Person,
    PersonModel,
};

verus! {

/// The record that the last entry for `id` holds.
pub open spec fn find_entry(entries: Seq<(String, NodeRecord)>, id: Seq<char>) -> Option<
    NodeRecord,
>
    decreases entries.len(),
{
    if entries.len() == 0 {
        None
    } else if entries.last().0@ == id {
        Some(entries.last().1)
    } else {
        find_entry(entries.drop_last(), id)
    }
}

/// Records keyed by identifier, filled once and then only read.
pub struct Store {
    entries: Vec<(String, NodeRecord)>,
}

pub open spec fn film_record(rec: Option<NodeRecord>) -> Option<FilmModel> {
    match rec {
        Some(NodeRecord::Film(f)) => Some(f@),
        _ => None,
    }
}

pub open spec fn person_record(rec: Option<NodeRecord>) -> Option<PersonModel> {
    match rec {
        Some(NodeRecord::Person(p)) => Some(p@),
        _ => None,
    }
}

pub open spec fn opt_film_view(o: Option<Film>) -> Option<FilmModel> {
    match o {
        Some(f) => Some(f@),
        None => None,
    }
}

pub open spec fn opt_person_view(o: Option<Person>) -> Option<PersonModel> {
    match o {
        Some(p) => Some(p@),
        None => None,
    }
}

impl Store {
    /// The record stored under `id`.
    pub closed spec fn lookup(&self, id: Seq<char>) -> Option<NodeRecord> {
        find_entry(self.entries@, id)
    }

    pub fn new() -> (r: Store)
        ensures
            forall|id: Seq<char>| r.lookup(id) is None,
    {
        Store { entries: Vec::new() }
    }

    /// Stores `rec` under `id`, replacing what was there.
    pub fn insert(&mut self, id: String, rec: NodeRecord)
        ensures
            forall|k: Seq<char>|
                #[trigger] final(self).lookup(k) == if k == id@ {
                    Some(rec)
                } else {
                    old(self).lookup(k)
                },
    {
        self.entries.push((id, rec));
        assert(self.entries@.drop_last() == old(self).entries@);
    }

    /// The record stored under `id`, if any.
    pub fn get(&self, id: &str) -> (r: Option<&NodeRecord>)
        ensures
            r is Some <==> self.lookup(id@) is Some,
            r is Some ==> *r->Some_0 == self.lookup(id@)->Some_0,
    {
        let mut i: usize = self.entries.len();
        assert(self.entries@.take(i as int) == self.entries@);
        while i > 0
            invariant
                0 <= i <= self.entries@.len(),
                find_entry(self.entries@, id@) == find_entry(self.entries@.take(i as int), id@),
            decreases i,
        {
            let ghost t = self.entries@.take(i as int);
            assert(t.last() == self.entries@[i - 1]);
            assert(t.drop_last() == self.entries@.take(i - 1));
            if str_eq(self.entries[i - 1].0.as_str(), id) {
                return Some(&self.entries[i - 1].1);
            }
            i = i - 1;
        }
        None
    }

    /// The person stored under `id`; `None` when there is none or the record
    /// is of another category.
    pub fn person(&self, id: &str) -> (r: Option<Person>)
        ensures
            opt_person_view(r) == person_record(self.lookup(id@)),
    {
        match self.get(id) {
            Some(NodeRecord::Person(p)) => Some(p.copied()),
            _ => None,
        }
    }

    /// The film stored under `id`; `None` when there is none or the record is
    /// of another category.
    pub fn film(&self, id: &str) -> (r: Option<Film>)
        ensures
            opt_film_view(r) == film_record(self.lookup(id@)),
    {
        match self.get(id) {
            Some(NodeRecord::Film(f)) => Some(f.copied()),
            _ => None,
        }
    }
}

impl Film {
    /// The page of this film's characters that the Relay arguments describe.
    pub fn characters(
        &self,
        store: &Store,
        after: Option<String>,
        first: Option<i32>,
        before: Option<String>,
        last: Option<i32>,
    ) -> (r: Result<Connection<Person>, PageError>)
        ensures
            resolved_post(
                views(self.characters@),
                opt_view(after),
                first,
                opt_view(before),
                last,
                |id: Seq<char>| person_record(store.lookup(id)),
                r,
            ),
    {
        let load = |id: &String| -> (p: Option<Person>)
            ensures
                opt_person_view(p) == person_record(store.lookup(id@)),
            { store.person(id.as_str()) };
        let ghost a = opt_view(after);
        let ghost b = opt_view(before);
        let r = Connection::new(self.characters.as_slice(), load, after, first, before, last);
        proof {
            lemma_loaded_by_lookup(
                views(self.characters@),
                a,
                first,
                b,
                last,
                load,
                |id: Seq<char>| person_record(store.lookup(id)),
                r,
            );
        }
        r
    }
}

impl Person {
    /// The page of this person's films that the Relay arguments describe.
    pub fn films(
        &self,
        store: &Store,
        after: Option<String>,
        first: Option<i32>,
        before: Option<String>,
        last: Option<i32>,
    ) -> (r: Result<Connection<Film>, PageError>)
        ensures
            resolved_post(
                views(self.films@),
                opt_view(after),
                first,
                opt_view(before),
                last,
                |id: Seq<char>| film_record(store.lookup(id)),
                r,
            ),
    {
        let load = |id: &String| -> (f: Option<Film>)
            ensures
                opt_film_view(f) == film_record(store.lookup(id@)),
            { store.film(id.as_str()) };
        let ghost a = opt_view(after);
        let ghost b = opt_view(before);
        let r = Connection::new(self.films.as_slice(), load, after, first, before, last);
        proof {
            lemma_loaded_by_lookup(
                views(self.films@),
                a,
                first,
                b,
                last,
                load,
                |id: Seq<char>| film_record(store.lookup(id)),
                r,
            );
        }
        r
    }
}

/// The node that the record under an identifier stands for: `Ok(None)` when
/// there is no record, an error when the record is not of a node category.
pub open spec fn node_at(store: Store, id: Seq<char>) -> Result<Option<NodeValueModel>, NodeError> {
    match store.lookup(id) {
        None => Ok(None),
        Some(rec) => match node_value_of(rec) {
            Ok(v) => Ok(Some(v@)),
            Err(e) => Err(e),
        },
    }
}

pub open spec fn node_result_view(r: Result<Option<NodeValue>, NodeError>) -> Result<
    Option<NodeValueModel>,
    NodeError,
> {
    match r {
        Ok(Some(v)) => Ok(Some(v@)),
        Ok(None) => Ok(None),
        Err(e) => Err(e),
    }
}

/// The top-level lookups of the schema.
pub struct Query;

impl Query {
    /// The node with identifier `id`.
    pub fn node(store: &Store, id: &str) -> (r: Result<Option<NodeValue>, NodeError>)
        ensures
            node_result_view(r) == node_at(*store, id@),
    {
        match store.get(id) {
            None => Ok(None),
            Some(NodeRecord::Film(f)) => Ok(Some(NodeValue::Film(f.copied()))),
            Some(NodeRecord::Person(p)) => Ok(Some(NodeValue::Person(p.copied()))),
            Some(NodeRecord::Planet) => Err(NodeError::UnsupportedCategory),
            Some(NodeRecord::Species) => Err(NodeError::UnsupportedCategory),
            Some(NodeRecord::Starship) => Err(NodeError::UnsupportedCategory),
            Some(NodeRecord::Vehicle) => Err(NodeError::UnsupportedCategory),
        }
    }

    /// The film with identifier `id`; `None` when there is none or `id` names
    /// a node of another type.
    pub fn film(store: &Store, id: &str) -> (r: Option<Film>)
        ensures
            opt_film_view(r) == film_record(store.lookup(id@)),
    {
        store.film(id)
    }

    /// The person with identifier `id`; `None` when there is none or `id`
    /// names a node of another type.
    pub fn person(store: &Store, id: &str) -> (r: Option<Person>)
        ensures
            opt_person_view(r) == person_record(store.lookup(id@)),
    {
        store.person(id)
    }
}

} // verus!
