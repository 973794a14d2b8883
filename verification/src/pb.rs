//! Wire form of the on-chain edit payloads.
//!
//! Edits travel as length-delimited binary messages; decoded, they are
//! the plain records below. Enumerations travel as integer tags; an
//! unknown tag is preserved by the record and rejected only where it
//! matters, so that decoding never fails on new tags.

use vstd::prelude::*;

use crate::ids::str_eq;
use crate::value;

verus! {

/// Envelope describing a published payload before full decoding.
#[derive(Clone, Debug)]
pub struct IpfsMetadata {
    pub version: String,
    pub action_type: i32,
    pub id: String,
    pub name: String,
}

/// A named, authored batch of operations.
#[derive(Clone, Debug)]
pub struct Edit {
    pub version: String,
    pub action_type: i32,
    pub id: String,
    pub name: String,
    pub ops: Vec<Op>,
    pub authors: Vec<String>,
}

/// An edit as referenced from a space import, with provenance fields.
#[derive(Clone, Debug)]
pub struct ImportEdit {
    pub version: String,
    pub action_type: i32,
    pub id: String,
    pub name: String,
    pub ops: Vec<Op>,
    pub authors: Vec<String>,
    pub created_by: String,
    pub created_at: String,
    pub block_hash: String,
    pub block_number: String,
    pub transaction_hash: String,
}

/// A single mutation.
#[derive(Clone, Debug)]
pub struct Op {
    pub op_type: i32,
    pub triple: Option<Triple>,
    pub relation: Option<Relation>,
}

/// The wire form of a triple: entity, attribute and optional value.
#[derive(Clone, Debug)]
pub struct Triple {
    pub entity: String,
    pub attribute: String,
    pub value: Option<Value>,
}

/// The wire form of a value: a type tag and a raw string.
#[derive(Clone, Debug)]
pub struct Value {
    pub value_type: i32,
    pub value: String,
}

/// The wire form of a relation.
#[derive(Clone, Debug)]
pub struct Relation {
    pub id: String,
    pub relation_type: String,
    pub from_entity: String,
    pub to_entity: String,
    pub index: String,
}

/// A membership change (member or editor).
#[derive(Clone, Debug)]
pub struct Membership {
    pub action_type: i32,
    pub name: String,
    pub version: String,
    pub id: String,
    pub user: String,
}

/// A subspace change.
#[derive(Clone, Debug)]
pub struct Subspace {
    pub action_type: i32,
    pub name: String,
    pub version: String,
    pub id: String,
    pub subspace: String,
}

/// A space import: references to the edits of the imported space.
#[derive(Clone, Debug)]
pub struct Import {
    pub version: String,
    pub action_type: i32,
    pub previous_network: String,
    pub previous_contract_address: String,
    pub edits: Vec<String>,
}

/// Wire value presentation options.
#[derive(Clone, Debug)]
pub struct Options {
    pub format: String,
    pub crop: String,
}

/// Kind of a single mutation.
#[derive(Clone, Copy, Debug, PartialEq, Eq, Structural)]
pub enum OpType {
    Unspecified,
    SetTriple,
    DeleteTriple,
    CreateRelation,
    DeleteRelation,
}

/// Scalar type tag as it travels on the wire.
#[derive(Clone, Copy, Debug, PartialEq, Eq, Structural)]
pub enum ValueType {
    Unknown,
    Text,
    Number,
    Checkbox,
    Url,
    Time,
    Point,
}

/// Kind of a published payload.
#[derive(Clone, Copy, Debug, PartialEq, Eq, Structural)]
pub enum ActionType {
    Empty,
    AddEdit,
    AddSubspace,
    RemoveSubspace,
    ImportSpace,
    ArchiveSpace,
    AddEditor,
    RemoveEditor,
    AddMember,
    RemoveMember,
}

/// Integer tag of an [`OpType`].
pub open spec fn op_type_tag(t: OpType) -> i32 {
    match t {
        OpType::Unspecified => 0,
        OpType::SetTriple => 1,
        OpType::DeleteTriple => 2,
        OpType::CreateRelation => 3,
        OpType::DeleteRelation => 4,
    }
}

/// The [`OpType`] of an integer tag, if any.
pub open spec fn op_type_of_tag(tag: i32) -> Option<OpType> {
    if tag == 0 {
        Some(OpType::Unspecified)
    } else if tag == 1 {
        Some(OpType::SetTriple)
    } else if tag == 2 {
        Some(OpType::DeleteTriple)
    } else if tag == 3 {
        Some(OpType::CreateRelation)
    } else if tag == 4 {
        Some(OpType::DeleteRelation)
    } else {
        None
    }
}

impl OpType {
    /// The integer tag of this kind.
    pub fn tag(&self) -> (r: i32)
        ensures
            r == op_type_tag(*self),
    {
        match self {
            OpType::Unspecified => 0,
            OpType::SetTriple => 1,
            OpType::DeleteTriple => 2,
            OpType::CreateRelation => 3,
            OpType::DeleteRelation => 4,
        }
    }

    /// The kind of an integer tag, if the tag is known.
    pub fn of_tag(tag: i32) -> (r: Option<OpType>)
        ensures
            r == op_type_of_tag(tag),
    {
        if tag == 0 {
            Some(OpType::Unspecified)
        } else if tag == 1 {
            Some(OpType::SetTriple)
        } else if tag == 2 {
            Some(OpType::DeleteTriple)
        } else if tag == 3 {
            Some(OpType::CreateRelation)
        } else if tag == 4 {
            Some(OpType::DeleteRelation)
        } else {
            None
        }
    }

    /// Field name of the kind in the wire schema.
    pub fn as_str_name(&self) -> (r: &'static str)
        ensures
            r@ == op_type_name(*self),
    {
        match self {
            OpType::Unspecified => "NONE",
            OpType::SetTriple => "SET_TRIPLE",
            OpType::DeleteTriple => "DELETE_TRIPLE",
            OpType::CreateRelation => "CREATE_RELATION",
            OpType::DeleteRelation => "DELETE_RELATION",
        }
    }

    /// The kind named by a wire schema field name, if any.
    pub fn from_str_name(value: &str) -> (r: Option<Self>)
        ensures
            r == op_type_of_name(value@),
    {
        if str_eq(value, "NONE") {
            Some(OpType::Unspecified)
        } else if str_eq(value, "SET_TRIPLE") {
            Some(OpType::SetTriple)
        } else if str_eq(value, "DELETE_TRIPLE") {
            Some(OpType::DeleteTriple)
        } else if str_eq(value, "CREATE_RELATION") {
            Some(OpType::CreateRelation)
        } else if str_eq(value, "DELETE_RELATION") {
            Some(OpType::DeleteRelation)
        } else {
            None
        }
    }
}

/// Wire schema field name of an [`OpType`].
pub open spec fn op_type_name(t: OpType) -> Seq<char> {
    match t {
        OpType::Unspecified => "NONE"@,
        OpType::SetTriple => "SET_TRIPLE"@,
        OpType::DeleteTriple => "DELETE_TRIPLE"@,
        OpType::CreateRelation => "CREATE_RELATION"@,
        OpType::DeleteRelation => "DELETE_RELATION"@,
    }
}

/// The [`OpType`] named by a wire schema field name.
pub open spec fn op_type_of_name(s: Seq<char>) -> Option<OpType> {
    if s == "NONE"@ {
        Some(OpType::Unspecified)
    } else if s == "SET_TRIPLE"@ {
        Some(OpType::SetTriple)
    } else if s == "DELETE_TRIPLE"@ {
        Some(OpType::DeleteTriple)
    } else if s == "CREATE_RELATION"@ {
        Some(OpType::CreateRelation)
    } else if s == "DELETE_RELATION"@ {
        Some(OpType::DeleteRelation)
    } else {
        None
    }
}

/// Integer tag of a wire [`ValueType`].
pub open spec fn wire_value_type_tag(t: ValueType) -> i32 {
    match t {
        ValueType::Unknown => 0,
        ValueType::Text => 1,
        ValueType::Number => 2,
        ValueType::Checkbox => 3,
        ValueType::Url => 4,
        ValueType::Time => 5,
        ValueType::Point => 6,
    }
}

/// The wire [`ValueType`] of an integer tag, if any.
pub open spec fn wire_value_type_of_tag(tag: i32) -> Option<ValueType> {
    if tag == 0 {
        Some(ValueType::Unknown)
    } else if tag == 1 {
        Some(ValueType::Text)
    } else if tag == 2 {
        Some(ValueType::Number)
    } else if tag == 3 {
        Some(ValueType::Checkbox)
    } else if tag == 4 {
        Some(ValueType::Url)
    } else if tag == 5 {
        Some(ValueType::Time)
    } else if tag == 6 {
        Some(ValueType::Point)
    } else {
        None
    }
}

/// Integer tag of a scalar type of the value model.
pub open spec fn value_type_tag(t: value::ValueType) -> i32 {
    match t {
        value::ValueType::Text => 1,
        value::ValueType::Number => 2,
        value::ValueType::Checkbox => 3,
        value::ValueType::Url => 4,
        value::ValueType::Time => 5,
        value::ValueType::Point => 6,
    }
}

/// The scalar type of the value model named by an integer tag.
/// The `UNKNOWN` tag and unassigned tags name none.
pub open spec fn value_type_of_tag(tag: i32) -> Option<value::ValueType> {
    if tag == 1 {
        Some(value::ValueType::Text)
    } else if tag == 2 {
        Some(value::ValueType::Number)
    } else if tag == 3 {
        Some(value::ValueType::Checkbox)
    } else if tag == 4 {
        Some(value::ValueType::Url)
    } else if tag == 5 {
        Some(value::ValueType::Time)
    } else if tag == 6 {
        Some(value::ValueType::Point)
    } else {
        None
    }
}

/// Exec rendering of [`value_type_tag`].
pub fn value_type_tag_exec(t: value::ValueType) -> (r: i32)
    ensures
        r == value_type_tag(t),
{
    match t {
        value::ValueType::Text => 1,
        value::ValueType::Number => 2,
        value::ValueType::Checkbox => 3,
        value::ValueType::Url => 4,
        value::ValueType::Time => 5,
        value::ValueType::Point => 6,
    }
}

/// Decoding a tag written by [`value_type_tag`] names the type it was
/// written from.
pub proof fn lemma_value_type_tag_round_trip(t: value::ValueType)
    ensures
        value_type_of_tag(value_type_tag(t)) == Some(t),
{
}

impl ValueType {
    /// The integer tag of this wire type.
    pub fn tag(&self) -> (r: i32)
        ensures
            r == wire_value_type_tag(*self),
    {
        match self {
            ValueType::Unknown => 0,
            ValueType::Text => 1,
            ValueType::Number => 2,
            ValueType::Checkbox => 3,
            ValueType::Url => 4,
            ValueType::Time => 5,
            ValueType::Point => 6,
        }
    }

    /// The wire type of an integer tag, if the tag is known.
    pub fn of_tag(tag: i32) -> (r: Option<ValueType>)
        ensures
            r == wire_value_type_of_tag(tag),
    {
        if tag == 0 {
            Some(ValueType::Unknown)
        } else if tag == 1 {
            Some(ValueType::Text)
        } else if tag == 2 {
            Some(ValueType::Number)
        } else if tag == 3 {
            Some(ValueType::Checkbox)
        } else if tag == 4 {
            Some(ValueType::Url)
        } else if tag == 5 {
            Some(ValueType::Time)
        } else if tag == 6 {
            Some(ValueType::Point)
        } else {
            None
        }
    }

    /// Field name of the wire type in the wire schema.
    pub fn as_str_name(&self) -> (r: &'static str)
        ensures
            r@ == wire_value_type_name(*self),
    {
        match self {
            ValueType::Unknown => "UNKNOWN",
            ValueType::Text => "TEXT",
            ValueType::Number => "NUMBER",
            ValueType::Checkbox => "CHECKBOX",
            ValueType::Url => "URL",
            ValueType::Time => "TIME",
            ValueType::Point => "POINT",
        }
    }

    /// The wire type named by a wire schema field name, if any.
    pub fn from_str_name(value: &str) -> (r: Option<Self>)
        ensures
            r == wire_value_type_of_name(value@),
    {
        if str_eq(value, "UNKNOWN") {
            Some(ValueType::Unknown)
        } else if str_eq(value, "TEXT") {
            Some(ValueType::Text)
        } else if str_eq(value, "NUMBER") {
            Some(ValueType::Number)
        } else if str_eq(value, "CHECKBOX") {
            Some(ValueType::Checkbox)
        } else if str_eq(value, "URL") {
            Some(ValueType::Url)
        } else if str_eq(value, "TIME") {
            Some(ValueType::Time)
        } else if str_eq(value, "POINT") {
            Some(ValueType::Point)
        } else {
            None
        }
    }
}

/// Wire schema field name of a wire [`ValueType`].
pub open spec fn wire_value_type_name(t: ValueType) -> Seq<char> {
    match t {
        ValueType::Unknown => "UNKNOWN"@,
        ValueType::Text => "TEXT"@,
        ValueType::Number => "NUMBER"@,
        ValueType::Checkbox => "CHECKBOX"@,
        ValueType::Url => "URL"@,
        ValueType::Time => "TIME"@,
        ValueType::Point => "POINT"@,
    }
}

/// The wire [`ValueType`] named by a wire schema field name.
pub open spec fn wire_value_type_of_name(s: Seq<char>) -> Option<ValueType> {
    if s == "UNKNOWN"@ {
        Some(ValueType::Unknown)
    } else if s == "TEXT"@ {
        Some(ValueType::Text)
    } else if s == "NUMBER"@ {
        Some(ValueType::Number)
    } else if s == "CHECKBOX"@ {
        Some(ValueType::Checkbox)
    } else if s == "URL"@ {
        Some(ValueType::Url)
    } else if s == "TIME"@ {
        Some(ValueType::Time)
    } else if s == "POINT"@ {
        Some(ValueType::Point)
    } else {
        None
    }
}

/// Integer tag of an [`ActionType`].
pub open spec fn action_type_tag(t: ActionType) -> i32 {
    match t {
        ActionType::Empty => 0,
        ActionType::AddEdit => 1,
        ActionType::AddSubspace => 2,
        ActionType::RemoveSubspace => 3,
        ActionType::ImportSpace => 4,
        ActionType::ArchiveSpace => 5,
        ActionType::AddEditor => 6,
        ActionType::RemoveEditor => 7,
        ActionType::AddMember => 8,
        ActionType::RemoveMember => 9,
    }
}

/// The [`ActionType`] of an integer tag, if any.
pub open spec fn action_type_of_tag(tag: i32) -> Option<ActionType> {
    if tag == 0 {
        Some(ActionType::Empty)
    } else if tag == 1 {
        Some(ActionType::AddEdit)
    } else if tag == 2 {
        Some(ActionType::AddSubspace)
    } else if tag == 3 {
        Some(ActionType::RemoveSubspace)
    } else if tag == 4 {
        Some(ActionType::ImportSpace)
    } else if tag == 5 {
        Some(ActionType::ArchiveSpace)
    } else if tag == 6 {
        Some(ActionType::AddEditor)
    } else if tag == 7 {
        Some(ActionType::RemoveEditor)
    } else if tag == 8 {
        Some(ActionType::AddMember)
    } else if tag == 9 {
        Some(ActionType::RemoveMember)
    } else {
        None
    }
}

impl ActionType {
    /// The integer tag of this action.
    pub fn tag(&self) -> (r: i32)
        ensures
            r == action_type_tag(*self),
    {
        match self {
            ActionType::Empty => 0,
            ActionType::AddEdit => 1,
            ActionType::AddSubspace => 2,
            ActionType::RemoveSubspace => 3,
            ActionType::ImportSpace => 4,
            ActionType::ArchiveSpace => 5,
            ActionType::AddEditor => 6,
            ActionType::RemoveEditor => 7,
            ActionType::AddMember => 8,
            ActionType::RemoveMember => 9,
        }
    }

    /// The action of an integer tag, if the tag is known.
    pub fn of_tag(tag: i32) -> (r: Option<ActionType>)
        ensures
            r == action_type_of_tag(tag),
    {
        if tag == 0 {
            Some(ActionType::Empty)
        } else if tag == 1 {
            Some(ActionType::AddEdit)
        } else if tag == 2 {
            Some(ActionType::AddSubspace)
        } else if tag == 3 {
            Some(ActionType::RemoveSubspace)
        } else if tag == 4 {
            Some(ActionType::ImportSpace)
        } else if tag == 5 {
            Some(ActionType::ArchiveSpace)
        } else if tag == 6 {
            Some(ActionType::AddEditor)
        } else if tag == 7 {
            Some(ActionType::RemoveEditor)
        } else if tag == 8 {
            Some(ActionType::AddMember)
        } else if tag == 9 {
            Some(ActionType::RemoveMember)
        } else {
            None
        }
    }

    /// Field name of the action in the wire schema.
    pub fn as_str_name(&self) -> (r: &'static str)
        ensures
            r@ == action_type_name(*self),
    {
        match self {
            ActionType::Empty => "EMPTY",
            ActionType::AddEdit => "ADD_EDIT",
            ActionType::AddSubspace => "ADD_SUBSPACE",
            ActionType::RemoveSubspace => "REMOVE_SUBSPACE",
            ActionType::ImportSpace => "IMPORT_SPACE",
            ActionType::ArchiveSpace => "ARCHIVE_SPACE",
            ActionType::AddEditor => "ADD_EDITOR",
            ActionType::RemoveEditor => "REMOVE_EDITOR",
            ActionType::AddMember => "ADD_MEMBER",
            ActionType::RemoveMember => "REMOVE_MEMBER",
        }
    }

    /// The action named by a wire schema field name, if any.
    pub fn from_str_name(value: &str) -> (r: Option<Self>)
        ensures
            r == action_type_of_name(value@),
    {
        if str_eq(value, "EMPTY") {
            Some(ActionType::Empty)
        } else if str_eq(value, "ADD_EDIT") {
            Some(ActionType::AddEdit)
        } else if str_eq(value, "ADD_SUBSPACE") {
            Some(ActionType::AddSubspace)
        } else if str_eq(value, "REMOVE_SUBSPACE") {
            Some(ActionType::RemoveSubspace)
        } else if str_eq(value, "IMPORT_SPACE") {
            Some(ActionType::ImportSpace)
        } else if str_eq(value, "ARCHIVE_SPACE") {
            Some(ActionType::ArchiveSpace)
        } else if str_eq(value, "ADD_EDITOR") {
            Some(ActionType::AddEditor)
        } else if str_eq(value, "REMOVE_EDITOR") {
            Some(ActionType::RemoveEditor)
        } else if str_eq(value, "ADD_MEMBER") {
            Some(ActionType::AddMember)
        } else if str_eq(value, "REMOVE_MEMBER") {
            Some(ActionType::RemoveMember)
        } else {
            None
        }
    }
}

/// Wire schema field name of an [`ActionType`].
pub open spec fn action_type_name(t: ActionType) -> Seq<char> {
    match t {
        ActionType::Empty => "EMPTY"@,
        ActionType::AddEdit => "ADD_EDIT"@,
        ActionType::AddSubspace => "ADD_SUBSPACE"@,
        ActionType::RemoveSubspace => "REMOVE_SUBSPACE"@,
        ActionType::ImportSpace => "IMPORT_SPACE"@,
        ActionType::ArchiveSpace => "ARCHIVE_SPACE"@,
        ActionType::AddEditor => "ADD_EDITOR"@,
        ActionType::RemoveEditor => "REMOVE_EDITOR"@,
        ActionType::AddMember => "ADD_MEMBER"@,
        ActionType::RemoveMember => "REMOVE_MEMBER"@,
    }
}

/// The [`ActionType`] named by a wire schema field name.
pub open spec fn action_type_of_name(s: Seq<char>) -> Option<ActionType> {
    if s == "EMPTY"@ {
        Some(ActionType::Empty)
    } else if s == "ADD_EDIT"@ {
        Some(ActionType::AddEdit)
    } else if s == "ADD_SUBSPACE"@ {
        Some(ActionType::AddSubspace)
    } else if s == "REMOVE_SUBSPACE"@ {
        Some(ActionType::RemoveSubspace)
    } else if s == "IMPORT_SPACE"@ {
        Some(ActionType::ImportSpace)
    } else if s == "ARCHIVE_SPACE"@ {
        Some(ActionType::ArchiveSpace)
    } else if s == "ADD_EDITOR"@ {
        Some(ActionType::AddEditor)
    } else if s == "REMOVE_EDITOR"@ {
        Some(ActionType::RemoveEditor)
    } else if s == "ADD_MEMBER"@ {
        Some(ActionType::AddMember)
    } else if s == "REMOVE_MEMBER"@ {
        Some(ActionType::RemoveMember)
    } else {
        None
    }
}

impl Op {
    /// The kind of this operation; an unknown tag reads as
    /// `Unspecified` and is skipped by the pipeline.
    pub fn kind(&self) -> (r: OpType)
        ensures
            r == match op_type_of_tag(self.op_type) {
                Some(t) => t,
                None => OpType::Unspecified,
            },
    {
        match OpType::of_tag(self.op_type) {
            Some(t) => t,
            None => OpType::Unspecified,
        }
    }
}

impl IpfsMetadata {
    /// The action of this envelope; an unknown tag reads as `Empty`
    /// and the payload is skipped.
    pub fn kind(&self) -> (r: ActionType)
        ensures
            r == match action_type_of_tag(self.action_type) {
                Some(t) => t,
                None => ActionType::Empty,
            },
    {
        match ActionType::of_tag(self.action_type) {
            Some(t) => t,
            None => ActionType::Empty,
        }
    }
}

} // verus!
