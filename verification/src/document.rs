//! The configuration document: its shape and its text.
//!
//! ```text
//! access_control:
//!   rules:
//!   - domain: example.com
//!     policy: two_factor
//!     subject: null
//! ```

use crate::aggregate::{
    derived_entries, entries_of, lemma_aggregate_ignores_arrival_order, DerivedConfiguration,
};
use crate::resources::access_control_rule::{
    policy_word, AccessControlRuleSpec, Rule, RuleEntry,
};
use crate::yaml::{
    depth, describe, dict_depth, dict_value, dict_weight, fits, list_depth, list_value,
    list_weight, nodes_of, null_value, render, text_value, value_node, weight, yaml_text, Node,
    MAX_WEIGHT,
};
use crate::sorting::names_identify;
use vstd::prelude::*;
use vstd::utf8::encode_utf8;

verus! {

/// One entry of the document: a mapping of its three fields. An entry
/// without a subject says so with a null.
pub open spec fn entry_node(entry: RuleEntry) -> Node {
    Node::Dict(
        seq![
            ("domain"@, Node::Text(entry.domain)),
            ("policy"@, Node::Text(policy_word(entry.policy))),
            (
                "subject"@,
                match entry.subject {
                    Some(subject) => Node::Text(subject),
                    None => Node::Null,
                },
            ),
        ],
    )
}

/// The document: the entries as the sequence `rules` of the mapping
/// `access_control`. With no entry the sequence is empty, not missing.
pub open spec fn document(entries: Seq<RuleEntry>) -> Node {
    Node::Dict(
        seq![
            (
                "access_control"@,
                Node::Dict(
                    seq![("rules"@, Node::List(entries.map_values(|entry| entry_node(entry))))],
                ),
            ),
        ],
    )
}

/// The text of the configuration that is derived from a snapshot of rules,
/// or `None` where the document is too large to be written or the serializer
/// fails on it.
pub open spec fn configuration_text(rules: Seq<Rule>) -> Option<Seq<char>> {
    let tree = document(derived_entries(rules));
    if fits(tree) {
        yaml_text(tree)
    } else {
        None
    }
}

/// A weight that is within the limit, or `None` for one that is not.
pub open spec fn capped(weight: nat) -> Option<usize> {
    if weight <= MAX_WEIGHT {
        Some(weight as usize)
    } else {
        None
    }
}

/// Without rules the document keeps its shape: `rules` is there, and empty.
pub proof fn lemma_no_rules_give_an_empty_list()
    ensures
        document(derived_entries(Seq::empty())) == Node::Dict(
            seq![("access_control"@, Node::Dict(seq![("rules"@, Node::List(Seq::empty()))]))],
        ),
{
    assert(derived_entries(Seq::empty()).map_values(|entry| entry_node(entry)) =~= Seq::<
        Node,
    >::empty());
}

/// The text of the configuration does not depend on the order in which the
/// rules arrive, as long as rules of one name are one rule.
pub proof fn lemma_text_ignores_arrival_order(first: Seq<Rule>, second: Seq<Rule>)
    requires
        first.to_multiset() == second.to_multiset(),
        names_identify(first),
    ensures
        configuration_text(first) == configuration_text(second),
{
    lemma_aggregate_ignores_arrival_order(first, second);
}

/// Why a document could not be written as YAML.
#[derive(Debug, PartialEq, Eq)]
pub enum SerializeError {
    /// The document is too large: the serializer was not asked.
    TooLarge,
    /// The serializer failed, and what it said.
    Serializer(String),
}

/// The weight of a text, or of the null that stands for a missing one.
pub open spec fn leaf_weight(text: Option<Seq<char>>) -> nat {
    match text {
        Some(text) => 1 + encode_utf8(text).len(),
        None => 1,
    }
}

/// An entry is a mapping of three leaves: two levels, and the weight of
/// four nodes, three keys and the texts.
pub proof fn lemma_entry_size(entry: RuleEntry)
    ensures
        depth(entry_node(entry)) == 2,
        weight(entry_node(entry)) == 1 + encode_utf8("domain"@).len() + leaf_weight(
            Some(entry.domain),
        ) + encode_utf8("policy"@).len() + leaf_weight(Some(policy_word(entry.policy)))
            + encode_utf8("subject"@).len() + leaf_weight(entry.subject),
{
    let fields = entry_node(entry)->Dict_0;
    assert(depth(fields[0].1) == 1 && depth(fields[1].1) == 1 && depth(fields[2].1) == 1);
    assert(dict_depth(fields, 0) == 0);
    assert(dict_depth(fields, 1) == 1);
    assert(dict_depth(fields, 2) == 1);
    assert(dict_weight(fields, 1) == dict_weight(fields, 0) + encode_utf8(fields[0].0).len()
        + weight(fields[0].1));
    assert(dict_weight(fields, 2) == dict_weight(fields, 1) + encode_utf8(fields[1].0).len()
        + weight(fields[1].1));
    assert(dict_weight(fields, 3) == dict_weight(fields, 2) + encode_utf8(fields[2].0).len()
        + weight(fields[2].1));
}

/// The document weighs what its entries weigh, and three nodes and two keys
/// more.
pub proof fn lemma_document_weight(entries: Seq<RuleEntry>)
    ensures
        weight(document(entries)) == 3 + encode_utf8("access_control"@).len() + encode_utf8(
            "rules"@,
        ).len() + list_weight(
            entries.map_values(|entry| entry_node(entry)),
            entries.len(),
        ),
{
    let outer = document(entries)->Dict_0;
    let inner = outer[0].1->Dict_0;
    assert(dict_weight(inner, 1) == dict_weight(inner, 0) + encode_utf8(inner[0].0).len()
        + weight(inner[0].1));
    assert(dict_weight(outer, 1) == dict_weight(outer, 0) + encode_utf8(outer[0].0).len()
        + weight(outer[0].1));
}

/// A list of entries is no deeper than an entry.
proof fn lemma_entries_depth(entries: Seq<RuleEntry>, count: nat)
    requires
        count <= entries.len(),
    ensures
        list_depth(entries.map_values(|entry| entry_node(entry)), count) <= 2,
    decreases count,
{
    if count > 0 {
        lemma_entries_depth(entries, (count - 1) as nat);
        lemma_entry_size(entries[count - 1]);
    }
}

/// The document has five levels at most, whatever it lists.
pub proof fn lemma_document_depth(entries: Seq<RuleEntry>)
    ensures
        depth(document(entries)) <= 5,
{
    let outer = document(entries)->Dict_0;
    let inner = outer[0].1->Dict_0;
    lemma_entries_depth(entries, entries.len());
    assert(depth(inner[0].1) <= 3);
    assert(dict_depth(inner, 0) == 0);
    assert(depth(outer[0].1) <= 4);
    assert(dict_depth(outer, 0) == 0);
}

/// The bytes that a text takes.
fn byte_length(text: &str) -> (length: usize)
    ensures
        length == encode_utf8(text@).len(),
{
    text.as_bytes().len()
}

/// Two weights together, where both are within the limit and their sum is.
fn grown(total: Option<usize>, more: Option<usize>) -> (sum: Option<usize>)
    requires
        total matches Some(total) ==> total <= MAX_WEIGHT,
    ensures
        sum == match (total, more) {
            (Some(total), Some(more)) => capped((total + more) as nat),
            _ => None,
        },
{
    match (total, more) {
        (Some(total), Some(more)) => if more <= MAX_WEIGHT - total {
            Some(total + more)
        } else {
            None
        },
        _ => None,
    }
}

/// The weight of the tree of an entry, if it is within the limit.
fn entry_weight(spec: &AccessControlRuleSpec) -> (total: Option<usize>)
    ensures
        total == capped(weight(entry_node(spec@))),
{
    let subject: usize = match spec.subject() {
        Some(subject) => byte_length(subject),
        None => 0,
    };
    // Four nodes, three keys, and the texts.
    let total = grown(Some(4), Some(byte_length("domain")));
    let total = grown(total, Some(byte_length(spec.domain())));
    let total = grown(total, Some(byte_length("policy")));
    let total = grown(total, Some(byte_length(spec.policy().as_str())));
    let total = grown(total, Some(byte_length("subject")));
    let total = grown(total, Some(subject));
    proof {
        lemma_entry_size(spec@);
    }
    total
}

/// The weight of the document of a configuration, if it is within the limit.
fn document_weight(config: &DerivedConfiguration) -> (total: Option<usize>)
    ensures
        total == capped(weight(document(config@))),
{
    let specs = config.rules();
    let ghost items = config@.map_values(|entry| entry_node(entry));
    let mut listed: Option<usize> = Some(0);
    let mut i: usize = 0;
    while i < specs.len()
        invariant
            i <= specs@.len(),
            entries_of(specs@) == config@,
            items == config@.map_values(|entry| entry_node(entry)),
            listed == capped(list_weight(items, i as nat)),
        decreases specs@.len() - i,
    {
        listed = grown(listed, entry_weight(&specs[i]));
        i = i + 1;
    }
    // Three nodes around the entries, and two keys.
    let total = grown(listed, Some(3));
    let total = grown(total, Some(byte_length("access_control")));
    let total = grown(total, Some(byte_length("rules")));
    proof {
        lemma_document_weight(config@);
    }
    total
}

fn entry_value(spec: &AccessControlRuleSpec) -> (value: serde_yaml::Value)
    ensures
        value_node(value) == Some(entry_node(spec@)),
{
    let subject = match spec.subject() {
        Some(subject) => text_value(subject),
        None => null_value(),
    };
    let mut fields: Vec<(serde_yaml::Value, serde_yaml::Value)> = Vec::new();
    fields.push((text_value("domain"), text_value(spec.domain())));
    fields.push((text_value("policy"), text_value(spec.policy().as_str())));
    fields.push((text_value("subject"), subject));
    proof {
        reveal_strlit("domain");
        reveal_strlit("policy");
        reveal_strlit("subject");
        assert("domain"@[0] != "policy"@[0]);
    }
    proof {
        assert(crate::yaml::entries_of(fields@) =~= entry_node(spec@)->Dict_0);
    }
    dict_value(fields)
}

fn document_value(config: &DerivedConfiguration) -> (value: serde_yaml::Value)
    ensures
        value_node(value) == Some(document(config@)),
{
    let specs = config.rules();
    let mut items: Vec<serde_yaml::Value> = Vec::new();
    let mut i: usize = 0;
    while i < specs.len()
        invariant
            i <= specs@.len(),
            items@.len() == i,
            forall|k: int|
                0 <= k < i ==> value_node(#[trigger] items@[k]) == Some(
                    entry_node(entries_of(specs@)[k]),
                ),
        decreases specs@.len() - i,
    {
        items.push(entry_value(&specs[i]));
        i = i + 1;
    }
    proof {
        assert(nodes_of(items@) =~= config@.map_values(|entry| entry_node(entry)));
    }
    let rules = list_value(items);
    let mut inner: Vec<(serde_yaml::Value, serde_yaml::Value)> = Vec::new();
    inner.push((text_value("rules"), rules));
    proof {
        assert(crate::yaml::entries_of(inner@) =~= seq![
            ("rules"@, Node::List(config@.map_values(|entry| entry_node(entry)))),
        ]);
    }
    let access_control = dict_value(inner);
    let mut outer: Vec<(serde_yaml::Value, serde_yaml::Value)> = Vec::new();
    outer.push((text_value("access_control"), access_control));
    proof {
        assert(crate::yaml::entries_of(outer@) =~= seq![
            (
                "access_control"@,
                Node::Dict(
                    seq![("rules"@, Node::List(config@.map_values(|entry| entry_node(entry))))],
                ),
            ),
        ]);
    }
    dict_value(outer)
}

/// The text of the document of a configuration.
///
/// A document that is too large is refused before the serializer sees it.
/// Any other error is the serializer's.
pub fn to_yaml(config: &DerivedConfiguration) -> (text: Result<String, SerializeError>)
    ensures
        match text {
            Ok(text) => fits(document(config@)) && yaml_text(document(config@)) == Some(text@),
            Err(SerializeError::TooLarge) => !fits(document(config@)),
            Err(SerializeError::Serializer(_)) => {
                fits(document(config@)) && yaml_text(document(config@)) is None
            },
        },
{
    proof {
        lemma_document_depth(config@);
    }
    if document_weight(config).is_none() {
        return Err(SerializeError::TooLarge);
    }
    let value = document_value(config);
    match render(&value) {
        Ok(text) => Ok(text),
        Err(error) => Err(SerializeError::Serializer(describe(&error))),
    }
}

} // verus!
