//! Generic node and relation projections.
//!
//! A `Node<T>` is an entity read from the store under a typed
//! attribute payload `T`, together with its type labels; a
//! `Relation<T>` is a typed edge with its own identity and space.
//! Both wrap their identity and space in [`Attributes`], the common
//! envelope of a projected record.

use vstd::prelude::*;

verus! {

/// The envelope of a projected record: identity, space and the typed
/// payload.
#[derive(Debug)]
pub struct Attributes<T> {
    pub id: String,
    pub space_id: String,
    pub attributes: T,
}

/// A projected entity: type labels plus the enveloped payload.
#[derive(Debug)]
pub struct Node<T> {
    pub types: Vec<String>,
    pub attributes: Attributes<T>,
}

impl<T> Node<T> {
    /// A node without type labels.
    pub fn new(id: &str, space_id: &str, data: T) -> (r: Self)
        ensures
            r.types@.len() == 0,
            r.attributes.id@ == id@,
            r.attributes.space_id@ == space_id@,
            r.attributes.attributes == data,
    {
        Node {
            types: Vec::new(),
            attributes: Attributes {
                id: id.to_owned(),
                space_id: space_id.to_owned(),
                attributes: data,
            },
        }
    }

    /// The node's identifier.
    pub fn id(&self) -> (r: &str)
        ensures
            r@ == self.attributes.id@,
    {
        self.attributes.id.as_str()
    }

    /// The node's space.
    pub fn space_id(&self) -> (r: &str)
        ensures
            r@ == self.attributes.space_id@,
    {
        self.attributes.space_id.as_str()
    }

    /// The typed payload.
    pub fn attributes(&self) -> (r: &T)
        ensures
            r == &self.attributes.attributes,
    {
        &self.attributes.attributes
    }

    /// The typed payload, mutably.
    pub fn attributes_mut(&mut self) -> (r: &mut T)
        ensures
            *r == old(self).attributes.attributes,
            final (self).attributes.id == old(self).attributes.id,
            final (self).attributes.space_id == old(self).attributes.space_id,
            final (self).types == old(self).types,
            final (self).attributes.attributes == *final (r),
    {
        &mut self.attributes.attributes
    }

    /// Add a type label.
    pub fn with_type(self, type_id: &str) -> (r: Self)
        ensures
            r.types@.len() == self.types@.len() + 1,
            (r.types@.last())@ == type_id@,
            forall|i: int| 0 <= i < self.types@.len() ==> r.types@[i] == self.types@[i],
            r.attributes == self.attributes,
    {
        let mut s = self;
        s.types.push(type_id.to_owned());
        s
    }
}

/// A projected relation: endpoints, type and the enveloped payload.
#[derive(Debug)]
pub struct Relation<T> {
    pub relation_type: String,
    pub from: String,
    pub to: String,
    pub attributes: Attributes<T>,
}

impl<T> Relation<T> {
    /// A relation from its parts.
    pub fn new(id: &str, space_id: &str, from: &str, to: &str, relation_type: &str, data: T) -> (r:
        Self)
        ensures
            r.from@ == from@,
            r.to@ == to@,
            r.relation_type@ == relation_type@,
            r.attributes.id@ == id@,
            r.attributes.space_id@ == space_id@,
            r.attributes.attributes == data,
    {
        Relation {
            from: from.to_owned(),
            to: to.to_owned(),
            relation_type: relation_type.to_owned(),
            attributes: Attributes {
                id: id.to_owned(),
                space_id: space_id.to_owned(),
                attributes: data,
            },
        }
    }

    /// The relation's identifier.
    pub fn id(&self) -> (r: &str)
        ensures
            r@ == self.attributes.id@,
    {
        self.attributes.id.as_str()
    }

    /// The relation's space.
    pub fn space_id(&self) -> (r: &str)
        ensures
            r@ == self.attributes.space_id@,
    {
        self.attributes.space_id.as_str()
    }

    /// The typed payload.
    pub fn attributes(&self) -> (r: &T)
        ensures
            r == &self.attributes.attributes,
    {
        &self.attributes.attributes
    }

    /// The typed payload, mutably.
    pub fn attributes_mut(&mut self) -> (r: &mut T)
        ensures
            *r == old(self).attributes.attributes,
            final (self).attributes.id == old(self).attributes.id,
            final (self).attributes.space_id == old(self).attributes.space_id,
            final (self).from == old(self).from,
            final (self).to == old(self).to,
            final (self).relation_type == old(self).relation_type,
            final (self).attributes.attributes == *final (r),
    {
        &mut self.attributes.attributes
    }
}

/// An optional display name, the common projection of named records.
#[derive(Debug)]
pub struct Named {
    pub name: Option<String>,
}

impl Node<Named> {
    /// The node's name, if any.
    pub fn name(&self) -> (r: Option<&String>)
        ensures
            match (r, &self.attributes.attributes.name) {
                (Some(a), Some(b)) => a == b,
                (None, None) => true,
                _ => false,
            },
    {
        match &self.attributes.attributes.name {
            Some(n) => Some(n),
            None => None,
        }
    }

    /// The node's name, or its identifier where it has none.
    pub fn name_or_id(&self) -> (r: String)
        ensures
            match &self.attributes.attributes.name {
                Some(n) => r@ == n@,
                None => r@ == self.attributes.id@,
            },
    {
        match &self.attributes.attributes.name {
            Some(n) => n.clone(),
            None => self.attributes.id.clone(),
        }
    }
}

} // verus!
