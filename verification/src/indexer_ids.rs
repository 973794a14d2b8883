//! Identifiers reserved for the indexer's bookkeeping: the indexer
//! space and the attributes and relation types it maintains there.

use vstd::prelude::*;

verus! {

/// The reserved space holding spaces, accounts, proposals and the
/// cursor.
pub const INDEXER_SPACE_ID: &'static str = "INDEXER_SPACE";

/// Entity system property: creation timestamp.
pub const CREATED_AT_TIMESTAMP: &'static str = "82nP7aFmHJLbaPFszj2nbx";

/// Entity system property: creation block.
pub const CREATED_AT_BLOCK: &'static str = "59HTYnd2e4gBx2aA98JfNx";

/// Entity system property: last-update timestamp.
pub const UPDATED_AT_TIMESTAMP: &'static str = "5Ms1pYq8v8G1RXC3wWb9ix";

/// Entity system property: last-update block.
pub const UPDATED_AT_BLOCK: &'static str = "7pXCVQDV9C7ozrXkpVg8RJ";

/// Attribute mapping a version entity to its comparable ordinal.
pub const EDIT_INDEX_ATTRIBUTE: &'static str = "EDIT_INDEX";

/// Attribute holding a space's governance kind.
pub const SPACE_GOVERNANCE_TYPE: &'static str = "SPACE_GOVERNANCE_TYPE";

/// Attribute holding a space's DAO contract address.
pub const SPACE_DAO_ADDRESS: &'static str = "SPACE_DAO_ADDRESS";

/// Attribute holding a space's space plugin address.
pub const SPACE_PLUGIN_ADDRESS: &'static str = "SPACE_PLUGIN_ADDRESS";

/// Attribute holding a space's voting plugin address.
pub const SPACE_VOTING_PLUGIN_ADDRESS: &'static str = "SPACE_VOTING_PLUGIN_ADDRESS";

/// Attribute holding a space's member-access plugin address.
pub const SPACE_MEMBER_PLUGIN_ADDRESS: &'static str = "SPACE_MEMBER_PLUGIN_ADDRESS";

/// Attribute holding a personal space's admin plugin address.
pub const SPACE_PERSONAL_PLUGIN_ADDRESS: &'static str = "SPACE_PERSONAL_PLUGIN_ADDRESS";

/// Relation type from a space to a parent space.
pub const PARENT_SPACE: &'static str = "PARENT_SPACE";

/// Relation type from an account to a space it is a member of.
pub const MEMBER_RELATION: &'static str = "SPACE_MEMBER";

/// Relation type from an account to a space it is an editor of.
pub const EDITOR_RELATION: &'static str = "SPACE_EDITOR";

/// Relation type from an account to a proposal it voted on.
pub const VOTE_CAST: &'static str = "VOTE_CAST";

/// Attribute of a vote-cast relation holding the vote kind.
pub const VOTE_TYPE_ATTRIBUTE: &'static str = "VOTE_TYPE";

/// Entity holding the ingestion cursor.
pub const CURSOR_ID: &'static str = "CURSOR";

/// Attribute of the cursor entity holding the last cursor string.
pub const CURSOR_ATTRIBUTE: &'static str = "CURSOR_VALUE";

/// Attribute of the cursor entity holding the last block number.
pub const BLOCK_NUMBER_ATTRIBUTE: &'static str = "CURSOR_BLOCK_NUMBER";

} // verus!
