//! Attribute bags.
//!
//! A group of attributes belonging to one entity, read and written in
//! bulk. Identifiers within a bag are unique: adding an attribute with
//! an identifier already present replaces it. User schemas convert to
//! and from bags through [`IntoAttributes`] and [`FromAttributes`].

use vstd::prelude::*;

use crate::ids::str_eq;
use crate::value::{Value, ValueView};

verus! {

/// An attribute: an identifier and its typed value.
#[derive(Debug)]
pub struct AttributeNode {
    pub id: String,
    pub value: Value,
}

/// Mathematical image of an [`AttributeNode`].
pub ghost struct AttributeNodeView {
    pub id: Seq<char>,
    pub value: ValueView,
}

impl View for AttributeNode {
    type V = AttributeNodeView;

    open spec fn view(&self) -> AttributeNodeView {
        AttributeNodeView { id: self.id@, value: self.value@ }
    }
}

impl AttributeNode {
    /// An attribute from its identifier and value.
    pub fn new(id: &str, value: Value) -> (r: Self)
        ensures
            r@.id == id@,
            r@.value == value@,
    {
        AttributeNode { id: id.to_owned(), value }
    }
}

impl Clone for AttributeNode {
    fn clone(&self) -> (r: Self)
        ensures
            r@ == self@,
    {
        AttributeNode { id: self.id.clone(), value: self.value.clone() }
    }
}

/// Failure of a typed conversion to or from an attribute bag.
#[derive(Debug)]
pub enum TriplesConversionError {
    /// A required attribute is absent; carries its identifier.
    MissingAttribute(String),
    /// A value's raw string or type does not fit the target field;
    /// carries a description.
    InvalidValue(String),
}

/// Whether a bag holds an attribute with this identifier.
pub open spec fn attrs_has(s: Seq<AttributeNodeView>, id: Seq<char>) -> bool {
    exists|i: int| 0 <= i < s.len() && (#[trigger] s[i]).id == id
}

/// The index of an identifier in a bag.
pub open spec fn attrs_index_of(s: Seq<AttributeNodeView>, id: Seq<char>) -> int {
    choose|i: int| 0 <= i < s.len() && (#[trigger] s[i]).id == id
}

/// The value held under an identifier, if any.
pub open spec fn attrs_value_of(s: Seq<AttributeNodeView>, id: Seq<char>) -> Option<ValueView> {
    if attrs_has(s, id) {
        Some(s[attrs_index_of(s, id)].value)
    } else {
        None
    }
}

/// Identifiers within a bag are unique.
pub open spec fn wf_attributes(s: Seq<AttributeNodeView>) -> bool {
    forall|i: int, j: int| 0 <= i < j < s.len() ==> s[i].id != s[j].id
}

/// Adding an attribute: the entry under its identifier is replaced,
/// or a new entry is appended.
pub open spec fn attrs_put(
    s: Seq<AttributeNodeView>,
    attr: AttributeNodeView,
) -> Seq<AttributeNodeView> {
    if attrs_has(s, attr.id) {
        s.update(attrs_index_of(s, attr.id), attr)
    } else {
        s.push(attr)
    }
}

/// Group of attributes belonging to the same entity, read and written
/// in bulk.
#[derive(Debug)]
pub struct Attributes(pub Vec<AttributeNode>);

impl View for Attributes {
    type V = Seq<AttributeNodeView>;

    open spec fn view(&self) -> Seq<AttributeNodeView> {
        self.0@.map_values(|a: AttributeNode| a@)
    }
}

impl Clone for Attributes {
    fn clone(&self) -> (r: Self)
        ensures
            r@ == self@,
    {
        let mut out: Vec<AttributeNode> = Vec::new();
        let n = self.0.len();
        let mut i: usize = 0;
        while i < n
            invariant
                n == self.0@.len(),
                0 <= i <= n,
                out@.len() == i,
                forall|t: int| 0 <= t < i ==> out@[t]@ == self.0@[t]@,
            decreases n - i,
        {
            out.push(self.0[i].clone());
            i = i + 1;
        }
        let r = Attributes(out);
        proof {
            assert(r@ =~= self@);
        }
        r
    }
}

impl Default for Attributes {
    fn default() -> (r: Self)
        ensures
            r@ == Seq::<AttributeNodeView>::empty(),
            wf_attributes(r@),
    {
        let r = Attributes(Vec::new());
        proof {
            assert(r@ =~= Seq::<AttributeNodeView>::empty());
        }
        r
    }
}

impl Attributes {
    /// Locate an identifier.
    fn index_of(&self, attribute_id: &str) -> (r: Option<usize>)
        ensures
            match r {
                Some(i) => i < self@.len() && self@[i as int].id == attribute_id@,
                None => !attrs_has(self@, attribute_id@),
            },
    {
        let n = self.0.len();
        let mut i: usize = 0;
        while i < n
            invariant
                n == self.0@.len(),
                0 <= i <= n,
                forall|t: int| 0 <= t < i ==> (#[trigger] self@[t]).id != attribute_id@,
            decreases n - i,
        {
            if str_eq(self.0[i].id.as_str(), attribute_id) {
                proof {
                    assert(self@[i as int].id == attribute_id@);
                }
                return Some(i);
            }
            i = i + 1;
        }
        None
    }

    /// Add an attribute, replacing any attribute of the same
    /// identifier.
    pub fn attribute(self, attribute: AttributeNode) -> (r: Self)
        requires
            wf_attributes(self@),
        ensures
            r@ == attrs_put(self@, attribute@),
            wf_attributes(r@),
    {
        let mut s = self;
        s.attribute_mut(attribute);
        s
    }

    /// In-place form of [`Attributes::attribute`].
    pub fn attribute_mut(&mut self, attribute: AttributeNode)
        requires
            wf_attributes(old(self)@),
        ensures
            final (self)@ == attrs_put(old(self)@, attribute@),
            wf_attributes(final (self)@),
    {
        let ghost pre = self@;
        match self.index_of(attribute.id.as_str()) {
            Some(i) => {
                proof {
                    lemma_attrs_key_index(pre, attribute@.id, i as int);
                }
                let _ = self.0.remove(i);
                self.0.insert(i, attribute);
                proof {
                    assert(self@ =~= pre.update(i as int, attribute@));
                    lemma_attrs_put_wf(pre, attribute@);
                }
            },
            None => {
                self.0.push(attribute);
                proof {
                    assert(self@ =~= pre.push(attribute@));
                    lemma_attrs_put_wf(pre, attribute@);
                }
            },
        }
    }

    /// Remove and return the value under an identifier; absence is an
    /// error naming the identifier.
    pub fn pop(&mut self, attribute_id: &str) -> (r: Result<Value, TriplesConversionError>)
        requires
            wf_attributes(old(self)@),
        ensures
            attrs_has(old(self)@, attribute_id@) <==> r is Ok,
            wf_attributes(final (self)@),
            r is Ok ==> Some(r->Ok_0@) == attrs_value_of(old(self)@, attribute_id@)
                && final (self)@ == old(self)@.remove(attrs_index_of(old(self)@, attribute_id@)),
            r is Err ==> final (self)@ == old(self)@ && (r->Err_0 matches
            TriplesConversionError::MissingAttribute(id) && id@ == attribute_id@),
    {
        let ghost pre = self@;
        match self.index_of(attribute_id) {
            Some(i) => {
                proof {
                    lemma_attrs_key_index(pre, attribute_id@, i as int);
                }
                let node = self.0.remove(i);
                proof {
                    assert(self@ =~= pre.remove(i as int));
                    assert(wf_attributes(self@)) by {
                        assert(forall|t: int|
                            0 <= t < self@.len() ==> (#[trigger] self@[t]) == if t < i {
                                pre[t]
                            } else {
                                pre[t + 1]
                            });
                    }
                }
                Ok(node.value)
            },
            None => Err(TriplesConversionError::MissingAttribute(attribute_id.to_owned())),
        }
    }

    /// Remove and return the value under an identifier, if present.
    pub fn pop_opt(&mut self, attribute_id: &str) -> (r: Option<Value>)
        requires
            wf_attributes(old(self)@),
        ensures
            match r {
                Some(v) => Some(v@) == attrs_value_of(old(self)@, attribute_id@) && final (self)@
                    == old(self)@.remove(attrs_index_of(old(self)@, attribute_id@)),
                None => !attrs_has(old(self)@, attribute_id@) && final (self)@ == old(self)@,
            },
    {
        match self.pop(attribute_id) {
            Ok(v) => Some(v),
            Err(_) => None,
        }
    }

    /// The value under an identifier; absence is an error naming the
    /// identifier.
    pub fn get(&self, attribute_id: &str) -> (r: Result<&Value, TriplesConversionError>)
        requires
            wf_attributes(self@),
        ensures
            attrs_has(self@, attribute_id@) <==> r is Ok,
            r is Ok ==> Some(r->Ok_0@) == attrs_value_of(self@, attribute_id@),
            r is Err ==> (r->Err_0 matches TriplesConversionError::MissingAttribute(id) && id@
                == attribute_id@),
    {
        match self.index_of(attribute_id) {
            Some(i) => {
                proof {
                    lemma_attrs_key_index(self@, attribute_id@, i as int);
                }
                Ok(&self.0[i].value)
            },
            None => Err(TriplesConversionError::MissingAttribute(attribute_id.to_owned())),
        }
    }

    /// The value under an identifier, if present.
    pub fn get_opt(&self, attribute_id: &str) -> (r: Option<&Value>)
        requires
            wf_attributes(self@),
        ensures
            match r {
                Some(v) => Some(v@) == attrs_value_of(self@, attribute_id@),
                None => !attrs_has(self@, attribute_id@),
            },
    {
        match self.get(attribute_id) {
            Ok(v) => Some(v),
            Err(_) => None,
        }
    }

    /// The number of attributes in the bag.
    pub fn len(&self) -> (r: usize)
        ensures
            r == self@.len(),
    {
        self.0.len()
    }
}

/// Replacing or appending under an identifier keeps identifiers
/// unique.
pub proof fn lemma_attrs_put_wf(s: Seq<AttributeNodeView>, attr: AttributeNodeView)
    requires
        wf_attributes(s),
    ensures
        wf_attributes(attrs_put(s, attr)),
{
    if attrs_has(s, attr.id) {
        let i = attrs_index_of(s, attr.id);
        let s2 = s.update(i, attr);
        assert forall|a: int, b: int| 0 <= a < b < s2.len() implies s2[a].id != s2[b].id by {
            assert(s[i].id == attr.id);
            if a != i && b != i {
                assert(s2[a] == s[a] && s2[b] == s[b]);
            } else if a == i {
                assert(s2[b] == s[b]);
                assert(s[a].id != s[b].id);
            } else {
                assert(s2[a] == s[a]);
                assert(s[a].id != s[b].id);
            }
        }
    } else {
        let s2 = s.push(attr);
        assert forall|a: int, b: int| 0 <= a < b < s2.len() implies s2[a].id != s2[b].id by {
            if b == s.len() {
                assert(s2[a] == s[a]);
                assert(attrs_has(s, attr.id) == false);
                assert(s[a].id != attr.id);
            } else {
                assert(s2[a] == s[a] && s2[b] == s[b]);
            }
        }
    }
}

/// An identifier found at an index is its unique index in a
/// well-formed bag.
pub proof fn lemma_attrs_key_index(s: Seq<AttributeNodeView>, id: Seq<char>, i: int)
    requires
        wf_attributes(s),
        0 <= i < s.len(),
        s[i].id == id,
    ensures
        attrs_has(s, id),
        attrs_index_of(s, id) == i,
        attrs_value_of(s, id) == Some(s[i].value),
{
    assert(attrs_has(s, id));
    let j = attrs_index_of(s, id);
    if i != j {
        assert(s[i].id != s[j].id);
    }
}

/// Convert a typed record into an attribute bag.
pub trait IntoAttributes {
    fn into_attributes(self) -> Result<Attributes, TriplesConversionError>;
}

/// Convert an attribute bag into a typed record.
pub trait FromAttributes: Sized {
    fn from_attributes(attributes: Attributes) -> Result<Self, TriplesConversionError>;
}

impl IntoAttributes for Attributes {
    fn into_attributes(self) -> Result<Attributes, TriplesConversionError> {
        Ok(self)
    }
}

impl FromAttributes for Attributes {
    fn from_attributes(attributes: Attributes) -> Result<Self, TriplesConversionError> {
        Ok(attributes)
    }
}

} // verus!
