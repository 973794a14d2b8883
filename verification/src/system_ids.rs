//! Identifiers of the core schema: attribute and type identifiers
//! that the engine itself reads and writes.

use vstd::prelude::*;

verus! {

/// Relation edge label: the relation's source entity.
pub const RELATION_FROM_ATTRIBUTE: &'static str = "RELATION_FROM";

/// Relation edge label: the relation's target entity.
pub const RELATION_TO_ATTRIBUTE: &'static str = "RELATION_TO";

/// Relation edge label: the relation's type entity.
pub const RELATION_TYPE_ATTRIBUTE: &'static str = "RELATION_TYPE";

/// Attribute holding a relation's sibling-ordering index.
pub const RELATION_INDEX: &'static str = "RELATION_INDEX";

/// Relation type linking an entity to its types.
pub const TYPES_ATTRIBUTE: &'static str = "TYPES";

/// Attribute holding an entity's name.
pub const NAME_ATTRIBUTE: &'static str = "name";

/// Attribute holding an entity's description.
pub const DESCRIPTION_ATTRIBUTE: &'static str = "description";

/// Attribute holding an entity's cover.
pub const COVER_ATTRIBUTE: &'static str = "cover";

/// Attribute holding a space's network tag.
pub const NETWORK_ATTRIBUTE: &'static str = "NETWORK";

/// Attribute holding an account's address.
pub const ADDRESS_ATTRIBUTE: &'static str = "ADDRESS";

/// Type of space entities.
pub const SPACE_TYPE: &'static str = "SPACE";

/// Type of account entities.
pub const ACCOUNT_TYPE: &'static str = "ACCOUNT";

} // verus!
