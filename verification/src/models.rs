//! Domain models kept by the indexer: spaces, accounts, membership
//! and editorship relations, parent-space links and votes.
//!
//! Space records live as entities in the reserved indexer space, one
//! attribute per field; the conversions to and from attribute bags
//! are exact, and converting a space to its bag and back returns the
//! space unchanged.

use vstd::prelude::*;

use crate::attributes::{
    attrs_has,
    attrs_value_of,
    wf_attributes,
    AttributeNode,
    AttributeNodeView,
    Attributes,
    FromAttributes,
    IntoAttributes,
    TriplesConversionError,
};
use crate::entity::Entity;
use crate::graph::{entities_has, entities_index_of, EntityRow, KnowledgeGraph};
use crate::ids::{checksum_address, derive_id, derived_id, normal_address, str_eq};
use crate::indexer_ids;
use crate::network_ids;
use crate::node::Relation;
use crate::system_ids;
use crate::value::{plain_value, Value, ValueType, ValueView};

verus! {

/// Governance kind of a space.
#[derive(Clone, Copy, Debug, PartialEq, Eq, Structural)]
pub enum SpaceGovernanceType {
    Public,
    Personal,
}

impl Default for SpaceGovernanceType {
    fn default() -> (r: Self)
        ensures
            r == SpaceGovernanceType::Public,
    {
        SpaceGovernanceType::Public
    }
}

/// The raw string a governance kind is stored as.
pub open spec fn governance_str(g: SpaceGovernanceType) -> Seq<char> {
    match g {
        SpaceGovernanceType::Public => "Public"@,
        SpaceGovernanceType::Personal => "Personal"@,
    }
}

/// The governance kind a raw string parses to, if any.
pub open spec fn governance_of_str(s: Seq<char>) -> Option<SpaceGovernanceType> {
    if s == "Public"@ {
        Some(SpaceGovernanceType::Public)
    } else if s == "Personal"@ {
        Some(SpaceGovernanceType::Personal)
    } else {
        None
    }
}

impl SpaceGovernanceType {
    /// Store form: a TEXT value holding the kind's name.
    pub fn to_value(&self) -> (r: Value)
        ensures
            r@ == plain_value(governance_str(*self), ValueType::Text),
    {
        match self {
            SpaceGovernanceType::Public => Value::text("Public".to_owned()),
            SpaceGovernanceType::Personal => Value::text("Personal".to_owned()),
        }
    }

    /// Parse the store form; a value holding any other string is
    /// rejected.
    pub fn from_value(value: &Value) -> (r: Result<Self, TriplesConversionError>)
        ensures
            match governance_of_str(value@.value) {
                Some(g) => r == Ok::<SpaceGovernanceType, TriplesConversionError>(g),
                None => r is Err,
            },
    {
        if str_eq(value.value.as_str(), "Public") {
            Ok(SpaceGovernanceType::Public)
        } else if str_eq(value.value.as_str(), "Personal") {
            Ok(SpaceGovernanceType::Personal)
        } else {
            Err(TriplesConversionError::InvalidValue("governance type".to_owned()))
        }
    }
}

/// Parsing the stored name of a governance kind gives the kind back.
pub proof fn lemma_governance_round_trip(g: SpaceGovernanceType)
    ensures
        governance_of_str(governance_str(g)) == Some(g),
{
    reveal_strlit("Public");
    reveal_strlit("Personal");
    assert("Public"@.len() != "Personal"@.len());
}

/// A space: tenant metadata kept under the indexer space.
#[derive(Debug)]
pub struct Space {
    pub network: String,
    pub governance_type: SpaceGovernanceType,
    /// The address of the space's DAO contract.
    pub dao_contract_address: String,
    /// The address of the space plugin contract.
    pub space_plugin_address: Option<String>,
    /// The address of the voting plugin contract.
    pub voting_plugin_address: Option<String>,
    /// The address of the member access plugin contract.
    pub member_access_plugin: Option<String>,
    /// The address of the personal space admin plugin contract.
    pub personal_space_admin_plugin: Option<String>,
}

/// Mathematical image of a [`Space`].
pub ghost struct SpaceView {
    pub network: Seq<char>,
    pub governance_type: SpaceGovernanceType,
    pub dao_contract_address: Seq<char>,
    pub space_plugin_address: Option<Seq<char>>,
    pub voting_plugin_address: Option<Seq<char>>,
    pub member_access_plugin: Option<Seq<char>>,
    pub personal_space_admin_plugin: Option<Seq<char>>,
}

impl View for Space {
    type V = SpaceView;

    open spec fn view(&self) -> SpaceView {
        SpaceView {
            network: self.network@,
            governance_type: self.governance_type,
            dao_contract_address: self.dao_contract_address@,
            space_plugin_address: crate::filters::view_opt_string(self.space_plugin_address),
            voting_plugin_address: crate::filters::view_opt_string(self.voting_plugin_address),
            member_access_plugin: crate::filters::view_opt_string(self.member_access_plugin),
            personal_space_admin_plugin: crate::filters::view_opt_string(
                self.personal_space_admin_plugin,
            ),
        }
    }
}

/// A text attribute of a space's bag.
pub open spec fn space_attr(id: Seq<char>, value: Seq<char>) -> AttributeNodeView {
    AttributeNodeView { id: id, value: plain_value(value, ValueType::Text) }
}

/// An optional trailing attribute.
pub open spec fn opt_attr(id: Seq<char>, value: Option<Seq<char>>) -> Seq<AttributeNodeView> {
    match value {
        Some(v) => seq![space_attr(id, v)],
        None => Seq::empty(),
    }
}

/// The attribute bag of a space: the three required fields, then any
/// plugin addresses that are set.
pub open spec fn space_attrs(s: SpaceView) -> Seq<AttributeNodeView> {
    seq![
        space_attr(system_ids::NETWORK_ATTRIBUTE@, s.network),
        space_attr(indexer_ids::SPACE_GOVERNANCE_TYPE@, governance_str(s.governance_type)),
        space_attr(indexer_ids::SPACE_DAO_ADDRESS@, s.dao_contract_address),
    ] + opt_attr(indexer_ids::SPACE_PLUGIN_ADDRESS@, s.space_plugin_address) + opt_attr(
        indexer_ids::SPACE_VOTING_PLUGIN_ADDRESS@,
        s.voting_plugin_address,
    ) + opt_attr(indexer_ids::SPACE_MEMBER_PLUGIN_ADDRESS@, s.member_access_plugin) + opt_attr(
        indexer_ids::SPACE_PERSONAL_PLUGIN_ADDRESS@,
        s.personal_space_admin_plugin,
    )
}

/// The space a bag decodes to: each field read from its attribute,
/// the governance string parsed; absent required fields or an
/// unparsable governance string decode to nothing.
pub open spec fn space_of_attrs(b: Seq<AttributeNodeView>) -> Option<SpaceView> {
    if attrs_has(b, system_ids::NETWORK_ATTRIBUTE@) && attrs_has(
        b,
        indexer_ids::SPACE_GOVERNANCE_TYPE@,
    ) && attrs_has(b, indexer_ids::SPACE_DAO_ADDRESS@) {
        match governance_of_str(
            attrs_value_of(b, indexer_ids::SPACE_GOVERNANCE_TYPE@)->Some_0.value,
        ) {
            Some(g) => Some(
                SpaceView {
                    network: attrs_value_of(b, system_ids::NETWORK_ATTRIBUTE@)->Some_0.value,
                    governance_type: g,
                    dao_contract_address: attrs_value_of(
                        b,
                        indexer_ids::SPACE_DAO_ADDRESS@,
                    )->Some_0.value,
                    space_plugin_address: opt_attr_value(b, indexer_ids::SPACE_PLUGIN_ADDRESS@),
                    voting_plugin_address: opt_attr_value(
                        b,
                        indexer_ids::SPACE_VOTING_PLUGIN_ADDRESS@,
                    ),
                    member_access_plugin: opt_attr_value(
                        b,
                        indexer_ids::SPACE_MEMBER_PLUGIN_ADDRESS@,
                    ),
                    personal_space_admin_plugin: opt_attr_value(
                        b,
                        indexer_ids::SPACE_PERSONAL_PLUGIN_ADDRESS@,
                    ),
                },
            ),
            None => None,
        }
    } else {
        None
    }
}

/// The raw string under an identifier, if present.
pub open spec fn opt_attr_value(b: Seq<AttributeNodeView>, id: Seq<char>) -> Option<Seq<char>> {
    match attrs_value_of(b, id) {
        Some(v) => Some(v.value),
        None => None,
    }
}

impl Space {
    /// The identifier of a space: derived from its network and its
    /// normalized DAO address, so two spellings of the address give
    /// one space.
    pub fn gen_id(network: &str, address: &str) -> (r: String)
        ensures
            r@ == derived_id(network@ + ":"@ + normal_address(address@)),
    {
        let normalized = checksum_address(address);
        let key = String::from_str(network).concat(":").concat(normalized.as_str());
        derive_id(key.as_str())
    }

    /// A builder for the space with this identifier and DAO address.
    pub fn builder(id: &str, dao_contract_address: &str) -> (r: SpaceBuilder)
        ensures
            r.id@ == id@,
            r.network@ == network_ids::GEO@,
            r.governance_type == SpaceGovernanceType::Public,
            r.dao_contract_address@ == normal_address(dao_contract_address@),
            r.space_plugin_address is None,
            r.voting_plugin_address is None,
            r.member_access_plugin is None,
            r.personal_space_admin_plugin is None,
    {
        SpaceBuilder::new(id, dao_contract_address)
    }

    /// Encode to the attribute bag.
    pub fn to_attributes(self) -> (r: Attributes)
        ensures
            r@ == space_attrs(self@),
            wf_attributes(r@),
    {
        let ghost sv = self@;
        let mut out: Vec<AttributeNode> = Vec::new();
        out.push(AttributeNode::new(system_ids::NETWORK_ATTRIBUTE, Value::text(self.network)));
        out.push(
            AttributeNode::new(indexer_ids::SPACE_GOVERNANCE_TYPE, self.governance_type.to_value()),
        );
        out.push(
            AttributeNode::new(
                indexer_ids::SPACE_DAO_ADDRESS,
                Value::text(self.dao_contract_address),
            ),
        );
        if let Some(v) = self.space_plugin_address {
            out.push(AttributeNode::new(indexer_ids::SPACE_PLUGIN_ADDRESS, Value::text(v)));
        }
        if let Some(v) = self.voting_plugin_address {
            out.push(AttributeNode::new(indexer_ids::SPACE_VOTING_PLUGIN_ADDRESS, Value::text(v)));
        }
        if let Some(v) = self.member_access_plugin {
            out.push(AttributeNode::new(indexer_ids::SPACE_MEMBER_PLUGIN_ADDRESS, Value::text(v)));
        }
        if let Some(v) = self.personal_space_admin_plugin {
            out.push(
                AttributeNode::new(indexer_ids::SPACE_PERSONAL_PLUGIN_ADDRESS, Value::text(v)),
            );
        }
        let r = Attributes(out);
        proof {
            assert(r@ =~~= space_attrs(sv));
            lemma_space_attrs_wf(sv);
        }
        r
    }

    /// Decode from an attribute bag: rejected where a required field
    /// is absent, the governance string is unknown, or the bag holds
    /// duplicate identifiers.
    pub fn of_attributes(attributes: Attributes) -> (r: Result<Self, TriplesConversionError>)
        ensures
            wf_attributes(attributes@) ==> match space_of_attrs(attributes@) {
                Some(sv) => r is Ok && r->Ok_0@ == sv,
                None => r is Err,
            },
    {
        if !attributes_wf_check(&attributes) {
            return Err(TriplesConversionError::InvalidValue("duplicate attribute".to_owned()));
        }
        let network = match attributes.get(system_ids::NETWORK_ATTRIBUTE) {
            Ok(v) => v.value.clone(),
            Err(e) => {
                return Err(e);
            },
        };
        let governance_type = match attributes.get(indexer_ids::SPACE_GOVERNANCE_TYPE) {
            Ok(v) => match SpaceGovernanceType::from_value(v) {
                Ok(g) => g,
                Err(e) => {
                    return Err(e);
                },
            },
            Err(e) => {
                return Err(e);
            },
        };
        let dao_contract_address = match attributes.get(indexer_ids::SPACE_DAO_ADDRESS) {
            Ok(v) => v.value.clone(),
            Err(e) => {
                return Err(e);
            },
        };
        let space_plugin_address = match attributes.get_opt(indexer_ids::SPACE_PLUGIN_ADDRESS) {
            Some(v) => Some(v.value.clone()),
            None => None,
        };
        let voting_plugin_address = match attributes.get_opt(
            indexer_ids::SPACE_VOTING_PLUGIN_ADDRESS,
        ) {
            Some(v) => Some(v.value.clone()),
            None => None,
        };
        let member_access_plugin = match attributes.get_opt(
            indexer_ids::SPACE_MEMBER_PLUGIN_ADDRESS,
        ) {
            Some(v) => Some(v.value.clone()),
            None => None,
        };
        let personal_space_admin_plugin = match attributes.get_opt(
            indexer_ids::SPACE_PERSONAL_PLUGIN_ADDRESS,
        ) {
            Some(v) => Some(v.value.clone()),
            None => None,
        };
        Ok(
            Space {
                network,
                governance_type,
                dao_contract_address,
                space_plugin_address,
                voting_plugin_address,
                member_access_plugin,
                personal_space_admin_plugin,
            },
        )
    }
}

/// Exec check of bag well-formedness.
fn attributes_wf_check(attributes: &Attributes) -> (r: bool)
    ensures
        r == wf_attributes(attributes@),
{
    let n = attributes.0.len();
    let mut i: usize = 0;
    while i < n
        invariant
            n == attributes.0@.len(),
            0 <= i <= n,
            forall|a: int, b: int|
                0 <= a < b < attributes@.len() && a < i ==> attributes@[a].id != attributes@[b].id,
        decreases n - i,
    {
        let mut j = i + 1;
        while j < n
            invariant
                n == attributes.0@.len(),
                0 <= i < j <= n,
                forall|a: int, b: int|
                    0 <= a < b < attributes@.len() && a < i ==> attributes@[a].id
                        != attributes@[b].id,
                forall|b: int| i < b < j ==> attributes@[i as int].id != attributes@[b].id,
            decreases n - j,
        {
            if str_eq(attributes.0[i].id.as_str(), attributes.0[j].id.as_str()) {
                proof {
                    assert(attributes@[i as int].id == attributes@[j as int].id);
                }
                return false;
            }
            j = j + 1;
        }
        i = i + 1;
    }
    true
}

impl IntoAttributes for Space {
    fn into_attributes(self) -> Result<Attributes, TriplesConversionError> {
        Ok(self.to_attributes())
    }
}

impl FromAttributes for Space {
    fn from_attributes(attributes: Attributes) -> Result<Self, TriplesConversionError> {
        Space::of_attributes(attributes)
    }
}

/// The identifiers of a space's bag are pairwise distinct, so the bag
/// is well-formed whatever fields are set.
pub proof fn lemma_space_attrs_wf(s: SpaceView)
    ensures
        wf_attributes(space_attrs(s)),
{
    reveal_strlit("NETWORK");
    reveal_strlit("SPACE_GOVERNANCE_TYPE");
    reveal_strlit("SPACE_DAO_ADDRESS");
    reveal_strlit("SPACE_PLUGIN_ADDRESS");
    reveal_strlit("SPACE_VOTING_PLUGIN_ADDRESS");
    reveal_strlit("SPACE_MEMBER_PLUGIN_ADDRESS");
    reveal_strlit("SPACE_PERSONAL_PLUGIN_ADDRESS");
    lemma_space_attr_ids_distinct();
    let b = space_attrs(s);
    assert forall|i: int, j: int| 0 <= i < j < b.len() implies b[i].id != b[j].id by {
        assert(b[i].id == space_attr_id_at(s, i));
        assert(b[j].id == space_attr_id_at(s, j));
    }
}

/// Alias for the identifier at a bag position.
pub open spec fn space_attr_id_at(s: SpaceView, i: int) -> Seq<char> {
    space_attrs(s)[i].id
}

/// The seven space attribute identifiers are pairwise distinct.
pub proof fn lemma_space_attr_ids_distinct()
    ensures
        system_ids::NETWORK_ATTRIBUTE@ != indexer_ids::SPACE_GOVERNANCE_TYPE@,
        system_ids::NETWORK_ATTRIBUTE@ != indexer_ids::SPACE_DAO_ADDRESS@,
        system_ids::NETWORK_ATTRIBUTE@ != indexer_ids::SPACE_PLUGIN_ADDRESS@,
        system_ids::NETWORK_ATTRIBUTE@ != indexer_ids::SPACE_VOTING_PLUGIN_ADDRESS@,
        system_ids::NETWORK_ATTRIBUTE@ != indexer_ids::SPACE_MEMBER_PLUGIN_ADDRESS@,
        system_ids::NETWORK_ATTRIBUTE@ != indexer_ids::SPACE_PERSONAL_PLUGIN_ADDRESS@,
        indexer_ids::SPACE_GOVERNANCE_TYPE@ != indexer_ids::SPACE_DAO_ADDRESS@,
        indexer_ids::SPACE_GOVERNANCE_TYPE@ != indexer_ids::SPACE_PLUGIN_ADDRESS@,
        indexer_ids::SPACE_GOVERNANCE_TYPE@ != indexer_ids::SPACE_VOTING_PLUGIN_ADDRESS@,
        indexer_ids::SPACE_GOVERNANCE_TYPE@ != indexer_ids::SPACE_MEMBER_PLUGIN_ADDRESS@,
        indexer_ids::SPACE_GOVERNANCE_TYPE@ != indexer_ids::SPACE_PERSONAL_PLUGIN_ADDRESS@,
        indexer_ids::SPACE_DAO_ADDRESS@ != indexer_ids::SPACE_PLUGIN_ADDRESS@,
        indexer_ids::SPACE_DAO_ADDRESS@ != indexer_ids::SPACE_VOTING_PLUGIN_ADDRESS@,
        indexer_ids::SPACE_DAO_ADDRESS@ != indexer_ids::SPACE_MEMBER_PLUGIN_ADDRESS@,
        indexer_ids::SPACE_DAO_ADDRESS@ != indexer_ids::SPACE_PERSONAL_PLUGIN_ADDRESS@,
        indexer_ids::SPACE_PLUGIN_ADDRESS@ != indexer_ids::SPACE_VOTING_PLUGIN_ADDRESS@,
        indexer_ids::SPACE_PLUGIN_ADDRESS@ != indexer_ids::SPACE_MEMBER_PLUGIN_ADDRESS@,
        indexer_ids::SPACE_PLUGIN_ADDRESS@ != indexer_ids::SPACE_PERSONAL_PLUGIN_ADDRESS@,
        indexer_ids::SPACE_VOTING_PLUGIN_ADDRESS@ != indexer_ids::SPACE_MEMBER_PLUGIN_ADDRESS@,
        indexer_ids::SPACE_VOTING_PLUGIN_ADDRESS@ != indexer_ids::SPACE_PERSONAL_PLUGIN_ADDRESS@,
        indexer_ids::SPACE_MEMBER_PLUGIN_ADDRESS@ != indexer_ids::SPACE_PERSONAL_PLUGIN_ADDRESS@,
{
    reveal_strlit("NETWORK");
    reveal_strlit("SPACE_GOVERNANCE_TYPE");
    reveal_strlit("SPACE_DAO_ADDRESS");
    reveal_strlit("SPACE_PLUGIN_ADDRESS");
    reveal_strlit("SPACE_VOTING_PLUGIN_ADDRESS");
    reveal_strlit("SPACE_MEMBER_PLUGIN_ADDRESS");
    reveal_strlit("SPACE_PERSONAL_PLUGIN_ADDRESS");
    assert(system_ids::NETWORK_ATTRIBUTE@ == "NETWORK"@);
    assert(indexer_ids::SPACE_GOVERNANCE_TYPE@ == "SPACE_GOVERNANCE_TYPE"@);
    assert(indexer_ids::SPACE_DAO_ADDRESS@ == "SPACE_DAO_ADDRESS"@);
    assert(indexer_ids::SPACE_PLUGIN_ADDRESS@ == "SPACE_PLUGIN_ADDRESS"@);
    assert(indexer_ids::SPACE_VOTING_PLUGIN_ADDRESS@ == "SPACE_VOTING_PLUGIN_ADDRESS"@);
    assert(indexer_ids::SPACE_MEMBER_PLUGIN_ADDRESS@ == "SPACE_MEMBER_PLUGIN_ADDRESS"@);
    assert(indexer_ids::SPACE_PERSONAL_PLUGIN_ADDRESS@ == "SPACE_PERSONAL_PLUGIN_ADDRESS"@);
    assert("NETWORK"@.len() == 7);
    assert("SPACE_GOVERNANCE_TYPE"@.len() == 21);
    assert("SPACE_DAO_ADDRESS"@.len() == 17);
    assert("SPACE_PLUGIN_ADDRESS"@.len() == 20);
    assert("SPACE_VOTING_PLUGIN_ADDRESS"@.len() == 27);
    assert("SPACE_MEMBER_PLUGIN_ADDRESS"@.len() == 27);
    assert("SPACE_PERSONAL_PLUGIN_ADDRESS"@.len() == 29);
    assert("SPACE_VOTING_PLUGIN_ADDRESS"@[6] == 'V');
    assert("SPACE_MEMBER_PLUGIN_ADDRESS"@[6] == 'M');
}

/// Converting a space to its bag and back returns the space: the
/// round-trip law of the typed projection.
pub proof fn lemma_space_round_trip(s: SpaceView)
    ensures
        space_of_attrs(space_attrs(s)) == Some(s),
{
    let b = space_attrs(s);
    lemma_space_attrs_wf(s);
    lemma_governance_round_trip(s.governance_type);
    lemma_space_attr_ids_distinct();
    assert(b[0] == space_attr(system_ids::NETWORK_ATTRIBUTE@, s.network));
    assert(b[1] == space_attr(
        indexer_ids::SPACE_GOVERNANCE_TYPE@,
        governance_str(s.governance_type),
    ));
    assert(b[2] == space_attr(indexer_ids::SPACE_DAO_ADDRESS@, s.dao_contract_address));
    lemma_bag_lookup(b, 0);
    lemma_bag_lookup(b, 1);
    lemma_bag_lookup(b, 2);
    let n1: int = if s.space_plugin_address is Some {
        1
    } else {
        0
    };
    let n2: int = if s.voting_plugin_address is Some {
        1
    } else {
        0
    };
    let n3: int = if s.member_access_plugin is Some {
        1
    } else {
        0
    };
    let n4: int = if s.personal_space_admin_plugin is Some {
        1
    } else {
        0
    };
    assert(b.len() == 3 + n1 + n2 + n3 + n4);
    // Each position of the bag holds a known attribute.
    assert forall|i: int| 0 <= i < b.len() implies b[i].id == space_bag_id(s, i) by {
        lemma_space_bag_positions(s, i);
    }
    match s.space_plugin_address {
        Some(v) => {
            lemma_space_bag_positions(s, 3);
            assert(b[3] == space_attr(indexer_ids::SPACE_PLUGIN_ADDRESS@, v));
            lemma_bag_lookup(b, 3);
        },
        None => {
            if attrs_has(b, indexer_ids::SPACE_PLUGIN_ADDRESS@) {
                let i = crate::attributes::attrs_index_of(b, indexer_ids::SPACE_PLUGIN_ADDRESS@);
                assert(b[i].id == space_bag_id(s, i));
            }
        },
    }
    match s.voting_plugin_address {
        Some(v) => {
            lemma_space_bag_positions(s, 3 + n1);
            assert(b[3 + n1] == space_attr(indexer_ids::SPACE_VOTING_PLUGIN_ADDRESS@, v));
            lemma_bag_lookup(b, 3 + n1);
        },
        None => {
            if attrs_has(b, indexer_ids::SPACE_VOTING_PLUGIN_ADDRESS@) {
                let i = crate::attributes::attrs_index_of(
                    b,
                    indexer_ids::SPACE_VOTING_PLUGIN_ADDRESS@,
                );
                assert(b[i].id == space_bag_id(s, i));
            }
        },
    }
    match s.member_access_plugin {
        Some(v) => {
            lemma_space_bag_positions(s, 3 + n1 + n2);
            assert(b[3 + n1 + n2] == space_attr(indexer_ids::SPACE_MEMBER_PLUGIN_ADDRESS@, v));
            lemma_bag_lookup(b, 3 + n1 + n2);
        },
        None => {
            if attrs_has(b, indexer_ids::SPACE_MEMBER_PLUGIN_ADDRESS@) {
                let i = crate::attributes::attrs_index_of(
                    b,
                    indexer_ids::SPACE_MEMBER_PLUGIN_ADDRESS@,
                );
                assert(b[i].id == space_bag_id(s, i));
            }
        },
    }
    match s.personal_space_admin_plugin {
        Some(v) => {
            lemma_space_bag_positions(s, 3 + n1 + n2 + n3);
            assert(b[3 + n1 + n2 + n3] == space_attr(
                indexer_ids::SPACE_PERSONAL_PLUGIN_ADDRESS@,
                v,
            ));
            lemma_bag_lookup(b, 3 + n1 + n2 + n3);
        },
        None => {
            if attrs_has(b, indexer_ids::SPACE_PERSONAL_PLUGIN_ADDRESS@) {
                let i = crate::attributes::attrs_index_of(
                    b,
                    indexer_ids::SPACE_PERSONAL_PLUGIN_ADDRESS@,
                );
                assert(b[i].id == space_bag_id(s, i));
            }
        },
    }
}

/// The attribute standing at a position of a space's bag.
pub open spec fn space_bag_id(s: SpaceView, i: int) -> Seq<char> {
    let n1: int = if s.space_plugin_address is Some {
        1
    } else {
        0
    };
    let n2: int = if s.voting_plugin_address is Some {
        1
    } else {
        0
    };
    let n3: int = if s.member_access_plugin is Some {
        1
    } else {
        0
    };
    if i == 0 {
        system_ids::NETWORK_ATTRIBUTE@
    } else if i == 1 {
        indexer_ids::SPACE_GOVERNANCE_TYPE@
    } else if i == 2 {
        indexer_ids::SPACE_DAO_ADDRESS@
    } else if i == 3 && s.space_plugin_address is Some {
        indexer_ids::SPACE_PLUGIN_ADDRESS@
    } else if i == 3 + n1 && s.voting_plugin_address is Some {
        indexer_ids::SPACE_VOTING_PLUGIN_ADDRESS@
    } else if i == 3 + n1 + n2 && s.member_access_plugin is Some {
        indexer_ids::SPACE_MEMBER_PLUGIN_ADDRESS@
    } else if i == 3 + n1 + n2 + n3 && s.personal_space_admin_plugin is Some {
        indexer_ids::SPACE_PERSONAL_PLUGIN_ADDRESS@
    } else {
        Seq::empty()
    }
}

/// Evaluate a bag position.
proof fn lemma_space_bag_positions(s: SpaceView, i: int)
    requires
        0 <= i < space_attrs(s).len(),
    ensures
        space_attrs(s)[i].id == space_bag_id(s, i),
        i == 3 && s.space_plugin_address is Some ==> space_attrs(s)[i] == space_attr(
            indexer_ids::SPACE_PLUGIN_ADDRESS@,
            s.space_plugin_address->Some_0,
        ),
        ({
            let n1: int = if s.space_plugin_address is Some {
                1
            } else {
                0
            };
            let n2: int = if s.voting_plugin_address is Some {
                1
            } else {
                0
            };
            let n3: int = if s.member_access_plugin is Some {
                1
            } else {
                0
            };
            &&& (i == 3 + n1 && s.voting_plugin_address is Some ==> space_attrs(s)[i]
                == space_attr(
                indexer_ids::SPACE_VOTING_PLUGIN_ADDRESS@,
                s.voting_plugin_address->Some_0,
            ))
            &&& (i == 3 + n1 + n2 && s.member_access_plugin is Some ==> space_attrs(s)[i]
                == space_attr(
                indexer_ids::SPACE_MEMBER_PLUGIN_ADDRESS@,
                s.member_access_plugin->Some_0,
            ))
            &&& (i == 3 + n1 + n2 + n3 && s.personal_space_admin_plugin is Some ==> space_attrs(
                s,
            )[i] == space_attr(
                indexer_ids::SPACE_PERSONAL_PLUGIN_ADDRESS@,
                s.personal_space_admin_plugin->Some_0,
            ))
        }),
{
}

/// In a well-formed bag the value under the identifier at a position
/// is that position's value.
proof fn lemma_bag_lookup(b: Seq<AttributeNodeView>, i: int)
    requires
        wf_attributes(b),
        0 <= i < b.len(),
    ensures
        attrs_has(b, b[i].id),
        attrs_value_of(b, b[i].id) == Some(b[i].value),
{
    crate::attributes::lemma_attrs_key_index(b, b[i].id, i);
}

/// A builder assembling a [`Space`] entity; addresses are normalized
/// as they are set.
#[derive(Debug)]
pub struct SpaceBuilder {
    pub id: String,
    pub network: String,
    pub governance_type: SpaceGovernanceType,
    pub dao_contract_address: String,
    pub space_plugin_address: Option<String>,
    pub voting_plugin_address: Option<String>,
    pub member_access_plugin: Option<String>,
    pub personal_space_admin_plugin: Option<String>,
}

impl SpaceBuilder {
    /// A builder for the space with this identifier and DAO address.
    pub fn new(id: &str, dao_contract_address: &str) -> (r: Self)
        ensures
            r.id@ == id@,
            r.network@ == network_ids::GEO@,
            r.governance_type == SpaceGovernanceType::Public,
            r.dao_contract_address@ == normal_address(dao_contract_address@),
            r.space_plugin_address is None,
            r.voting_plugin_address is None,
            r.member_access_plugin is None,
            r.personal_space_admin_plugin is None,
    {
        SpaceBuilder {
            id: id.to_owned(),
            network: network_ids::GEO.to_owned(),
            governance_type: SpaceGovernanceType::Public,
            dao_contract_address: checksum_address(dao_contract_address),
            space_plugin_address: None,
            voting_plugin_address: None,
            member_access_plugin: None,
            personal_space_admin_plugin: None,
        }
    }

    /// Set the network tag.
    pub fn network(self, network: String) -> (r: Self)
        ensures
            r == (SpaceBuilder { network, ..self }),
    {
        SpaceBuilder { network, ..self }
    }

    /// Set the governance kind.
    pub fn governance_type(self, governance_type: SpaceGovernanceType) -> (r: Self)
        ensures
            r == (SpaceBuilder { governance_type, ..self }),
    {
        SpaceBuilder { governance_type, ..self }
    }

    /// Set the DAO contract address.
    pub fn dao_contract_address(self, dao_contract_address: &str) -> (r: Self)
        ensures
            r.dao_contract_address@ == normal_address(dao_contract_address@),
            r.id@ == self.id@,
            r.network == self.network,
            r.governance_type == self.governance_type,
            r.space_plugin_address == self.space_plugin_address,
            r.voting_plugin_address == self.voting_plugin_address,
            r.member_access_plugin == self.member_access_plugin,
            r.personal_space_admin_plugin == self.personal_space_admin_plugin,
    {
        SpaceBuilder { dao_contract_address: checksum_address(dao_contract_address), ..self }
    }

    /// Set the space plugin address.
    pub fn space_plugin_address(self, space_plugin_address: &str) -> (r: Self)
        ensures
            r.space_plugin_address matches Some(a) && a@ == normal_address(
                space_plugin_address@,
            ),
            r.id@ == self.id@,
            r.network == self.network,
            r.governance_type == self.governance_type,
            r.dao_contract_address == self.dao_contract_address,
            r.voting_plugin_address == self.voting_plugin_address,
            r.member_access_plugin == self.member_access_plugin,
            r.personal_space_admin_plugin == self.personal_space_admin_plugin,
    {
        SpaceBuilder { space_plugin_address: Some(checksum_address(space_plugin_address)), ..self }
    }

    /// Set the voting plugin address.
    pub fn voting_plugin_address(self, voting_plugin_address: &str) -> (r: Self)
        ensures
            r.voting_plugin_address matches Some(a) && a@ == normal_address(
                voting_plugin_address@,
            ),
            r.id@ == self.id@,
            r.network == self.network,
            r.governance_type == self.governance_type,
            r.dao_contract_address == self.dao_contract_address,
            r.space_plugin_address == self.space_plugin_address,
            r.member_access_plugin == self.member_access_plugin,
            r.personal_space_admin_plugin == self.personal_space_admin_plugin,
    {
        SpaceBuilder {
            voting_plugin_address: Some(checksum_address(voting_plugin_address)),
            ..self
        }
    }

    /// Set the member-access plugin address.
    pub fn member_access_plugin(self, member_access_plugin: &str) -> (r: Self)
        ensures
            r.member_access_plugin matches Some(a) && a@ == normal_address(member_access_plugin@),
            r.id@ == self.id@,
            r.network == self.network,
            r.governance_type == self.governance_type,
            r.dao_contract_address == self.dao_contract_address,
            r.space_plugin_address == self.space_plugin_address,
            r.voting_plugin_address == self.voting_plugin_address,
            r.personal_space_admin_plugin == self.personal_space_admin_plugin,
    {
        SpaceBuilder { member_access_plugin: Some(checksum_address(member_access_plugin)), ..self }
    }

    /// Set the personal space admin plugin address.
    pub fn personal_space_admin_plugin(self, personal_space_admin_plugin: &str) -> (r: Self)
        ensures
            r.personal_space_admin_plugin matches Some(a) && a@ == normal_address(
                personal_space_admin_plugin@,
            ),
            r.id@ == self.id@,
            r.network == self.network,
            r.governance_type == self.governance_type,
            r.dao_contract_address == self.dao_contract_address,
            r.space_plugin_address == self.space_plugin_address,
            r.voting_plugin_address == self.voting_plugin_address,
            r.member_access_plugin == self.member_access_plugin,
    {
        SpaceBuilder {
            personal_space_admin_plugin: Some(checksum_address(personal_space_admin_plugin)),
            ..self
        }
    }

    /// Assemble the space entity, typed SPACE.
    pub fn build(self) -> (r: Entity<Space>)
        ensures
            r.id@ == self.id@,
            r.attributes@ == (SpaceView {
                network: self.network@,
                governance_type: self.governance_type,
                dao_contract_address: self.dao_contract_address@,
                space_plugin_address: crate::filters::view_opt_string(self.space_plugin_address),
                voting_plugin_address: crate::filters::view_opt_string(
                    self.voting_plugin_address,
                ),
                member_access_plugin: crate::filters::view_opt_string(self.member_access_plugin),
                personal_space_admin_plugin: crate::filters::view_opt_string(
                    self.personal_space_admin_plugin,
                ),
            }),
            r.types@.len() == 1,
            (r.types@[0])@ == system_ids::SPACE_TYPE@,
    {
        Entity::new(
            self.id,
            Space {
                network: self.network,
                governance_type: self.governance_type,
                dao_contract_address: self.dao_contract_address,
                space_plugin_address: self.space_plugin_address,
                voting_plugin_address: self.voting_plugin_address,
                member_access_plugin: self.member_access_plugin,
                personal_space_admin_plugin: self.personal_space_admin_plugin,
            },
        ).with_type(system_ids::SPACE_TYPE.to_owned())
    }
}

/// Whether an entity carries a live attribute with this identifier
/// and raw string value in the indexer space.
pub open spec fn has_live_indexer_attr(
    triples: Seq<crate::store::TripleEntryView>,
    entity: Seq<char>,
    attribute: Seq<char>,
    value: Seq<char>,
) -> bool {
    exists|i: int|
        0 <= i < triples.len() && {
            let e = #[trigger] triples[i];
            &&& e.entity == entity
            &&& e.attribute == attribute
            &&& e.space == indexer_ids::INDEXER_SPACE_ID@
            &&& e.hist.live is Some
            &&& e.hist.live->Some_0.value.value == value
        }
}

/// The entity of the first store entry carrying a live attribute
/// with this identifier and value in the indexer space.
pub open spec fn spec_find_by_indexer_attr(
    triples: Seq<crate::store::TripleEntryView>,
    attribute: Seq<char>,
    value: Seq<char>,
) -> Option<Seq<char>>
    decreases triples.len(),
{
    if triples.len() == 0 {
        None
    } else {
        if indexer_attr_matches(triples[0], attribute, value) {
            Some(triples[0].entity)
        } else {
            spec_find_by_indexer_attr(triples.drop_first(), attribute, value)
        }
    }
}

/// Whether one entry is a live attribute edge with this identifier
/// and value in the indexer space.
pub open spec fn indexer_attr_matches(
    e: crate::store::TripleEntryView,
    attribute: Seq<char>,
    value: Seq<char>,
) -> bool {
    &&& e.attribute == attribute
    &&& e.space == indexer_ids::INDEXER_SPACE_ID@
    &&& e.hist.live is Some
    &&& e.hist.live->Some_0.value.value == value
}

/// The first entity carrying a live attribute with this identifier
/// and value in the indexer space: how spaces are found by their
/// plugin addresses.
#[verifier::loop_isolation(false)]
fn find_entity_by_indexer_attr(kg: &KnowledgeGraph, attribute: &str, value: &str) -> (r: Option<
    String,
>)
    ensures
        match r {
            Some(id) => Some(id@) == spec_find_by_indexer_attr(kg@.triples, attribute@, value@)
                && has_live_indexer_attr(kg@.triples, id@, attribute@, value@),
            None => spec_find_by_indexer_attr(kg@.triples, attribute@, value@) is None,
        },
{
    let ghost all = kg@.triples;
    let n = kg.triples.entries.len();
    let mut i: usize = 0;
    proof {
        assert(all.skip(0) =~= all);
    }
    while i < n
        invariant
            0 <= i <= n,
            spec_find_by_indexer_attr(all, attribute@, value@) == spec_find_by_indexer_attr(
                all.skip(i as int),
                attribute@,
                value@,
            ),
        decreases n - i,
    {
        let e = &kg.triples.entries[i];
        proof {
            assert(kg@.triples[i as int] == e@);
            assert(all.skip(i as int)[0] == e@);
            assert(all.skip(i as int).drop_first() =~= all.skip(i + 1));
        }
        if str_eq(e.attribute.as_str(), attribute) && str_eq(
            e.space.as_str(),
            indexer_ids::INDEXER_SPACE_ID,
        ) {
            match &e.live {
                Some(l) => {
                    if str_eq(l.value.value.as_str(), value) {
                        proof {
                            assert(indexer_attr_matches(e@, attribute@, value@));
                            assert(has_live_indexer_attr(kg@.triples, e.entity@, attribute@, value@));
                        }
                        return Some(e.entity.clone());
                    }
                },
                None => {},
            }
        }
        proof {
            assert(!indexer_attr_matches(e@, attribute@, value@));
        }
        i = i + 1;
    }
    proof {
        assert(all.skip(n as int).len() == 0);
    }
    None
}

impl Space {
    /// Find a space entity by its DAO contract address: the identifier
    /// is derived, so the lookup is a single entity read.
    pub fn find_entity_by_dao_address<'a>(kg: &'a KnowledgeGraph, dao_address: &str) -> (r: Option<
        &'a EntityRow,
    >)
        requires
            crate::graph::wf_graph(kg@),
        ensures
            match r {
                Some(row) => row@.id == derived_id(
                    network_ids::GEO@ + ":"@ + normal_address(dao_address@),
                ),
                None => !entities_has(
                    kg@.entities,
                    derived_id(network_ids::GEO@ + ":"@ + normal_address(dao_address@)),
                ),
            },
    {
        let id = Space::gen_id(network_ids::GEO, dao_address);
        let r = kg.find_entity(id.as_str());
        proof {
            if r is Some {
                let i = entities_index_of(kg@.entities, id@);
            }
        }
        r
    }

    /// Find the space whose space plugin address is `address`.
    pub fn find_by_space_plugin_address(kg: &KnowledgeGraph, address: &str) -> (r: Option<String>)
        ensures
            match r {
                Some(id) => Some(id@) == spec_find_by_indexer_attr(
                    kg@.triples,
                    indexer_ids::SPACE_PLUGIN_ADDRESS@,
                    normal_address(address@),
                ) && has_live_indexer_attr(
                    kg@.triples,
                    id@,
                    indexer_ids::SPACE_PLUGIN_ADDRESS@,
                    normal_address(address@),
                ),
                None => spec_find_by_indexer_attr(
                    kg@.triples,
                    indexer_ids::SPACE_PLUGIN_ADDRESS@,
                    normal_address(address@),
                ) is None,
            },
    {
        let normalized = checksum_address(address);
        find_entity_by_indexer_attr(kg, indexer_ids::SPACE_PLUGIN_ADDRESS, normalized.as_str())
    }

    /// Find the space whose voting plugin address is `address`.
    pub fn find_by_voting_plugin_address(kg: &KnowledgeGraph, address: &str) -> (r: Option<String>)
        ensures
            match r {
                Some(id) => Some(id@) == spec_find_by_indexer_attr(
                    kg@.triples,
                    indexer_ids::SPACE_VOTING_PLUGIN_ADDRESS@,
                    normal_address(address@),
                ) && has_live_indexer_attr(
                    kg@.triples,
                    id@,
                    indexer_ids::SPACE_VOTING_PLUGIN_ADDRESS@,
                    normal_address(address@),
                ),
                None => spec_find_by_indexer_attr(
                    kg@.triples,
                    indexer_ids::SPACE_VOTING_PLUGIN_ADDRESS@,
                    normal_address(address@),
                ) is None,
            },
    {
        let normalized = checksum_address(address);
        find_entity_by_indexer_attr(
            kg,
            indexer_ids::SPACE_VOTING_PLUGIN_ADDRESS,
            normalized.as_str(),
        )
    }

    /// Find the space whose member-access plugin address is `address`.
    pub fn find_by_member_access_plugin(kg: &KnowledgeGraph, address: &str) -> (r: Option<String>)
        ensures
            match r {
                Some(id) => Some(id@) == spec_find_by_indexer_attr(
                    kg@.triples,
                    indexer_ids::SPACE_MEMBER_PLUGIN_ADDRESS@,
                    normal_address(address@),
                ) && has_live_indexer_attr(
                    kg@.triples,
                    id@,
                    indexer_ids::SPACE_MEMBER_PLUGIN_ADDRESS@,
                    normal_address(address@),
                ),
                None => spec_find_by_indexer_attr(
                    kg@.triples,
                    indexer_ids::SPACE_MEMBER_PLUGIN_ADDRESS@,
                    normal_address(address@),
                ) is None,
            },
    {
        let normalized = checksum_address(address);
        find_entity_by_indexer_attr(
            kg,
            indexer_ids::SPACE_MEMBER_PLUGIN_ADDRESS,
            normalized.as_str(),
        )
    }

    /// Find the space whose personal admin plugin address is
    /// `address`.
    pub fn find_by_personal_plugin_address(kg: &KnowledgeGraph, address: &str) -> (r: Option<
        String,
    >)
        ensures
            match r {
                Some(id) => Some(id@) == spec_find_by_indexer_attr(
                    kg@.triples,
                    indexer_ids::SPACE_PERSONAL_PLUGIN_ADDRESS@,
                    normal_address(address@),
                ) && has_live_indexer_attr(
                    kg@.triples,
                    id@,
                    indexer_ids::SPACE_PERSONAL_PLUGIN_ADDRESS@,
                    normal_address(address@),
                ),
                None => spec_find_by_indexer_attr(
                    kg@.triples,
                    indexer_ids::SPACE_PERSONAL_PLUGIN_ADDRESS@,
                    normal_address(address@),
                ) is None,
            },
    {
        let normalized = checksum_address(address);
        find_entity_by_indexer_attr(
            kg,
            indexer_ids::SPACE_PERSONAL_PLUGIN_ADDRESS,
            normalized.as_str(),
        )
    }
}


impl Space {
    /// The typed read of the facade: gather the space entity's bag
    /// from the indexer space and decode it.
    pub fn find_one(kg: &KnowledgeGraph, space_id: &str) -> (r: Option<Space>)
        requires
            crate::graph::wf_graph(kg@),
        ensures
            ({
                let bag = crate::graph::entity_bag(
                    kg@.triples,
                    space_id@,
                    indexer_ids::INDEXER_SPACE_ID@,
                    None,
                );
                wf_attributes(bag) ==> match space_of_attrs(bag) {
                    Some(sv) => r matches Some(space) && space@ == sv,
                    None => r is None,
                }
            }),
    {
        let bag = kg.entity_attributes(space_id, indexer_ids::INDEXER_SPACE_ID, None);
        match Space::of_attributes(bag) {
            Ok(space) => Some(space),
            Err(_) => None,
        }
    }
}

/// Parent space relation, recorded in the indexer space:
/// `Space > PARENT_SPACE > Space`.
#[derive(Debug)]
pub struct ParentSpace;

impl ParentSpace {
    /// The stable identifier of the relation from a space to a parent.
    pub fn generate_id(space_id: &str, parent_space_id: &str) -> (r: String)
        ensures
            r@ == derived_id("PARENT_SPACE:"@ + space_id@ + ":"@ + parent_space_id@),
    {
        let key = String::from_str("PARENT_SPACE:").concat(space_id).concat(":").concat(
            parent_space_id,
        );
        derive_id(key.as_str())
    }

    /// The relation from a space to its parent.
    pub fn new(space_id: &str, parent_space_id: &str) -> (r: Relation<ParentSpace>)
        ensures
            r.from@ == space_id@,
            r.to@ == parent_space_id@,
            r.relation_type@ == indexer_ids::PARENT_SPACE@,
            r.attributes.id@ == derived_id("PARENT_SPACE:"@ + space_id@ + ":"@ + parent_space_id@),
            r.attributes.space_id@ == indexer_ids::INDEXER_SPACE_ID@,
    {
        let id = ParentSpace::generate_id(space_id, parent_space_id);
        Relation::new(
            id.as_str(),
            indexer_ids::INDEXER_SPACE_ID,
            space_id,
            parent_space_id,
            indexer_ids::PARENT_SPACE,
            ParentSpace,
        )
    }
}

/// Space membership relation: `Account > SPACE_MEMBER > Space`.
#[derive(Debug)]
pub struct SpaceMember;

impl SpaceMember {
    /// The stable identifier of an account's membership of a space.
    pub fn generate_id(member_id: &str, space_id: &str) -> (r: String)
        ensures
            r@ == derived_id("MEMBER:"@ + space_id@ + ":"@ + member_id@),
    {
        let key = String::from_str("MEMBER:").concat(space_id).concat(":").concat(member_id);
        derive_id(key.as_str())
    }

    /// The membership relation of an account in a space.
    pub fn new(member_id: &str, space_id: &str) -> (r: Relation<SpaceMember>)
        ensures
            r.from@ == member_id@,
            r.to@ == space_id@,
            r.relation_type@ == indexer_ids::MEMBER_RELATION@,
            r.attributes.id@ == derived_id("MEMBER:"@ + space_id@ + ":"@ + member_id@),
            r.attributes.space_id@ == indexer_ids::INDEXER_SPACE_ID@,
    {
        let id = SpaceMember::generate_id(member_id, space_id);
        Relation::new(
            id.as_str(),
            indexer_ids::INDEXER_SPACE_ID,
            member_id,
            space_id,
            indexer_ids::MEMBER_RELATION,
            SpaceMember,
        )
    }
}

/// Space editorship relation: `Account > SPACE_EDITOR > Space`.
#[derive(Debug)]
pub struct SpaceEditor;

impl SpaceEditor {
    /// The stable identifier of an account's editorship of a space.
    pub fn generate_id(editor_id: &str, space_id: &str) -> (r: String)
        ensures
            r@ == derived_id("EDITOR:"@ + space_id@ + ":"@ + editor_id@),
    {
        let key = String::from_str("EDITOR:").concat(space_id).concat(":").concat(editor_id);
        derive_id(key.as_str())
    }

    /// The editorship relation of an account in a space.
    pub fn new(editor_id: &str, space_id: &str) -> (r: Relation<SpaceEditor>)
        ensures
            r.from@ == editor_id@,
            r.to@ == space_id@,
            r.relation_type@ == indexer_ids::EDITOR_RELATION@,
            r.attributes.id@ == derived_id("EDITOR:"@ + space_id@ + ":"@ + editor_id@),
            r.attributes.space_id@ == indexer_ids::INDEXER_SPACE_ID@,
    {
        let id = SpaceEditor::generate_id(editor_id, space_id);
        Relation::new(
            id.as_str(),
            indexer_ids::INDEXER_SPACE_ID,
            editor_id,
            space_id,
            indexer_ids::EDITOR_RELATION,
            SpaceEditor,
        )
    }
}

/// Kind of a cast vote, derived from the numeric on-chain value:
/// `2` accepts, `3` rejects, anything else is skipped.
#[derive(Clone, Copy, Debug, PartialEq, Eq, Structural)]
pub enum VoteType {
    Accept,
    Reject,
}

/// The vote kind of an on-chain vote option.
pub open spec fn vote_type_of(vote: u64) -> Option<VoteType> {
    if vote == 2 {
        Some(VoteType::Accept)
    } else if vote == 3 {
        Some(VoteType::Reject)
    } else {
        None
    }
}

impl VoteType {
    /// Parse the numeric on-chain vote option.
    pub fn try_from_u64(vote: u64) -> (r: Option<VoteType>)
        ensures
            r == vote_type_of(vote),
    {
        if vote == 2 {
            Some(VoteType::Accept)
        } else if vote == 3 {
            Some(VoteType::Reject)
        } else {
            None
        }
    }
}

/// A vote cast by an account on a proposal:
/// `Account > VOTE_CAST > Proposal`.
#[derive(Debug)]
pub struct VoteCast {
    pub vote_type: VoteType,
}

impl VoteCast {
    /// The stable identifier of an account's vote on a proposal.
    pub fn new_id(account_id: &str, proposal_id: &str) -> (r: String)
        ensures
            r@ == derived_id(account_id@ + "-"@ + proposal_id@),
    {
        let key = String::from_str(account_id).concat("-").concat(proposal_id);
        derive_id(key.as_str())
    }

    /// The vote relation from an account to a proposal.
    pub fn new(account_id: &str, proposal_id: &str, vote_type: VoteType) -> (r: Relation<VoteCast>)
        ensures
            r.from@ == account_id@,
            r.to@ == proposal_id@,
            r.relation_type@ == indexer_ids::VOTE_CAST@,
            r.attributes.id@ == derived_id(account_id@ + "-"@ + proposal_id@),
            r.attributes.space_id@ == indexer_ids::INDEXER_SPACE_ID@,
            r.attributes.attributes.vote_type == vote_type,
    {
        let id = VoteCast::new_id(account_id, proposal_id);
        Relation::new(
            id.as_str(),
            indexer_ids::INDEXER_SPACE_ID,
            account_id,
            proposal_id,
            indexer_ids::VOTE_CAST,
            VoteCast { vote_type },
        )
    }
}

/// An account, identified by its normalized address.
#[derive(Debug)]
pub struct Account {
    pub address: String,
}

impl Account {
    /// The stable identifier of an address: derived from its normal
    /// form, so two spellings give one account.
    pub fn gen_id(address: &str) -> (r: String)
        ensures
            r@ == derived_id(normal_address(address@)),
    {
        let normalized = checksum_address(address);
        derive_id(normalized.as_str())
    }

    /// The account entity of an address, typed ACCOUNT.
    pub fn new(address: String) -> (r: Entity<Account>)
        ensures
            r.id@ == derived_id(normal_address(address@)),
            r.attributes.address@ == normal_address(address@),
            r.types@.len() == 1,
            (r.types@[0])@ == system_ids::ACCOUNT_TYPE@,
    {
        let checksummed_address = checksum_address(address.as_str());
        let id = Account::gen_id(checksummed_address.as_str());
        proof {
            crate::ids::lemma_normal_idempotent(address@);
        }
        Entity::new(id, Account { address: checksummed_address }).with_type(
            system_ids::ACCOUNT_TYPE.to_owned(),
        )
    }
}

} // verus!
