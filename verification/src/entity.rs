//! Typed entity projections.
//!
//! An `Entity<T>` pairs an entity identifier with a typed attribute
//! schema `T` and the entity's types — the targets of its outgoing
//! TYPES relations. Reading one performs an attribute fetch plus a
//! types fetch; writing performs an attribute bulk-write plus a
//! relation write per added type.

use vstd::prelude::*;

use crate::ids::derived_id;

verus! {

/// An entity under a typed attribute schema.
#[derive(Debug)]
pub struct Entity<T> {
    pub id: String,
    pub attributes: T,
    pub types: Vec<String>,
}

impl<T> Entity<T> {
    /// An entity with no types.
    pub fn new(id: String, attributes: T) -> (r: Self)
        ensures
            r.id@ == id@,
            r.attributes == attributes,
            r.types@.len() == 0,
    {
        Entity { id, attributes, types: Vec::new() }
    }

    /// Add one type.
    pub fn with_type(self, type_id: String) -> (r: Self)
        ensures
            r.id == self.id,
            r.attributes == self.attributes,
            r.types@ == self.types@.push(type_id),
    {
        let mut s = self;
        s.types.push(type_id);
        s
    }

    /// Add several types.
    pub fn with_types(self, types: Vec<String>) -> (r: Self)
        ensures
            r.id == self.id,
            r.attributes == self.attributes,
            r.types@ == self.types@ + types@,
    {
        let mut s = self;
        let mut types = types;
        s.types.append(&mut types);
        s
    }
}

/// The derived identifier of one TYPES relation: stable in the
/// `(space, entity, relation type, target)` tuple.
pub open spec fn types_relation_id(
    space: Seq<char>,
    entity: Seq<char>,
    target: Seq<char>,
) -> Seq<char> {
    derived_id(
        space + ":"@ + entity + ":"@ + crate::system_ids::TYPES_ATTRIBUTE@ + ":"@ + target,
    )
}

/// Build the identifier of the TYPES relation from an entity to a
/// type in a space.
pub fn make_types_relation_id(space: &str, entity: &str, target: &str) -> (r: String)
    ensures
        r@ == types_relation_id(space@, entity@, target@),
{
    let key = String::from_str(space).concat(":").concat(entity).concat(":").concat(
        crate::system_ids::TYPES_ATTRIBUTE,
    ).concat(":").concat(target);
    crate::ids::derive_id(key.as_str())
}

} // verus!
