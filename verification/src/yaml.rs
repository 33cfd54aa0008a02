//! YAML values and their text.
//!
//! The text of a document is `serde_yaml`'s. This module builds the values
//! that are handed to it and says of each what tree it stands for, so that the
//! text of a document is known to depend on its tree alone.

use vstd::prelude::*;
use vstd::utf8::encode_utf8;

verus! {

/// The tree that a YAML value stands for: nulls and strings at the leaves,
/// sequences and mappings with string keys above them.
pub enum Node {
    Null,
    Text(Seq<char>),
    List(Seq<Node>),
    Dict(Seq<(Seq<char>, Node)>),
}

/// `serde_yaml::Value`, handed on as it is. Of what it holds only
/// `value_node` speaks.
#[verifier::external_type_specification]
#[verifier::external_body]
pub struct ExValue(serde_yaml::Value);

/// `serde_yaml::Error`, handed on as it is.
#[verifier::external_type_specification]
#[verifier::external_body]
pub struct ExError(serde_yaml::Error);

/// The tree of a `serde_yaml::Value` that is made of nothing but nulls,
/// strings, sequences and mappings whose keys are strings; a mapping's entries
/// in the order in which it yields them. `None` for every other value.
pub uninterp spec fn value_node(value: serde_yaml::Value) -> Option<Node>;

/// The text that `serde_yaml::to_string` gives for a value with this tree, or
/// `None` where it gives an error. It is spoken of only for trees that `fits`
/// holds of.
pub uninterp spec fn yaml_text(node: Node) -> Option<Seq<char>>;

/// The most that a tree may weigh to be written as text.
///
/// The serializer counts the bytes of a text, the lines and the columns in
/// 31 bits, and ends the process where a count runs over. No count grows
/// beyond a few times the weight of the tree, escapes and indentation
/// included, and this limit is a thirty-second of what the counts hold.
pub const MAX_WEIGHT: usize = 0x0400_0000;

/// The most levels that a tree may have to be written as text. The
/// serializer goes down a tree by calling itself.
pub const MAX_DEPTH: usize = 64;

/// The weight of the first `count` trees.
pub open spec fn list_weight(items: Seq<Node>, count: nat) -> nat
    decreases items, count,
{
    if count == 0 || count > items.len() {
        0
    } else {
        list_weight(items, (count - 1) as nat) + weight(items[count - 1])
    }
}

/// The weight of the first `count` entries.
pub open spec fn dict_weight(entries: Seq<(Seq<char>, Node)>, count: nat) -> nat
    decreases entries, count,
{
    if count == 0 || count > entries.len() {
        0
    } else {
        dict_weight(entries, (count - 1) as nat) + encode_utf8(entries[count - 1].0).len()
            + weight(entries[count - 1].1)
    }
}

/// The weight of a tree: one for each of its nodes and one for each byte of
/// its texts and keys.
pub open spec fn weight(node: Node) -> nat
    decreases node, 0nat,
{
    match node {
        Node::Null => 1,
        Node::Text(text) => 1 + encode_utf8(text).len(),
        Node::List(items) => 1 + list_weight(items, items.len()),
        Node::Dict(entries) => 1 + dict_weight(entries, entries.len()),
    }
}

/// The levels of the deepest of the first `count` trees.
pub open spec fn list_depth(items: Seq<Node>, count: nat) -> nat
    decreases items, count,
{
    if count == 0 || count > items.len() {
        0
    } else {
        let before = list_depth(items, (count - 1) as nat);
        let last = depth(items[count - 1]);
        if before >= last {
            before
        } else {
            last
        }
    }
}

/// The levels of the deepest value of the first `count` entries.
pub open spec fn dict_depth(entries: Seq<(Seq<char>, Node)>, count: nat) -> nat
    decreases entries, count,
{
    if count == 0 || count > entries.len() {
        0
    } else {
        let before = dict_depth(entries, (count - 1) as nat);
        let last = depth(entries[count - 1].1);
        if before >= last {
            before
        } else {
            last
        }
    }
}

/// The levels of a tree: one for a leaf, one more than its deepest part for
/// a sequence or a mapping.
pub open spec fn depth(node: Node) -> nat
    decreases node, 0nat,
{
    match node {
        Node::Null => 1,
        Node::Text(_) => 1,
        Node::List(items) => 1 + list_depth(items, items.len()),
        Node::Dict(entries) => 1 + dict_depth(entries, entries.len()),
    }
}

/// The tree is neither too heavy nor too deep to be written as text.
pub open spec fn fits(node: Node) -> bool {
    weight(node) <= MAX_WEIGHT && depth(node) <= MAX_DEPTH
}

/// Every value has a tree.
pub open spec fn all_plain(values: Seq<serde_yaml::Value>) -> bool {
    forall|i: int| 0 <= i < values.len() ==> (#[trigger] value_node(values[i])) is Some
}

/// The trees of values that all have one.
pub open spec fn nodes_of(values: Seq<serde_yaml::Value>) -> Seq<Node> {
    values.map_values(|value: serde_yaml::Value| value_node(value)->0)
}

/// Every key is a string, none occurs twice, and every value has a tree.
pub open spec fn plain_entries(entries: Seq<(serde_yaml::Value, serde_yaml::Value)>) -> bool {
    &&& forall|i: int|
        0 <= i < entries.len() ==> {
            &&& value_node((#[trigger] entries[i]).0) matches Some(Node::Text(_))
            &&& value_node(entries[i].1) is Some
        }
    &&& forall|i: int, j: int|
        0 <= i < j < entries.len() ==> value_node((#[trigger] entries[i]).0) != value_node(
            (#[trigger] entries[j]).0,
        )
}

/// The entries of a mapping, each key by its text and each value by its tree.
pub open spec fn entries_of(entries: Seq<(serde_yaml::Value, serde_yaml::Value)>) -> Seq<
    (Seq<char>, Node),
> {
    entries.map_values(
        |entry: (serde_yaml::Value, serde_yaml::Value)|
            (value_node(entry.0)->0->Text_0, value_node(entry.1)->0),
    )
}

/// `serde_yaml::Value::Null`: the YAML null.
#[verifier::external_body]
pub(crate) fn null_value() -> (value: serde_yaml::Value)
    ensures
        value_node(value) == Some(Node::Null),
{
    serde_yaml::Value::Null
}

/// `serde_yaml::Value::from` on a string slice: a YAML string that holds a
/// copy of `text`.
#[verifier::external_body]
pub(crate) fn text_value(text: &str) -> (value: serde_yaml::Value)
    ensures
        value_node(value) == Some(Node::Text(text@)),
{
    serde_yaml::Value::from(text)
}

/// `serde_yaml::Value::Sequence`: a YAML sequence of the items, in their
/// order. Where every item has a tree, the sequence has the tree that lists
/// them.
#[verifier::external_body]
pub(crate) fn list_value(items: Vec<serde_yaml::Value>) -> (value: serde_yaml::Value)
    ensures
        all_plain(items@) ==> value_node(value) == Some(Node::List(nodes_of(items@))),
{
    serde_yaml::Value::Sequence(items)
}

/// `serde_yaml::Mapping::from_iter` and `serde_yaml::Value::Mapping`: a YAML
/// mapping of the entries. Where every key is a string, none occurs twice
/// and every value has a tree, the mapping has the tree of the entries in the
/// order given. Of other entries nothing is said.
#[verifier::external_body]
pub(crate) fn dict_value(
    entries: Vec<(serde_yaml::Value, serde_yaml::Value)>,
) -> (value: serde_yaml::Value)
    ensures
        plain_entries(entries@) ==> value_node(value) == Some(Node::Dict(entries_of(entries@))),
{
    serde_yaml::Value::Mapping(serde_yaml::Mapping::from_iter(entries))
}

/// `serde_yaml::to_string`: the YAML text of a value. The outcome is the one
/// that `yaml_text` names for the value's tree.
///
/// The call is only for a value whose tree `fits`: beyond that the
/// serializer may run over one of its counters, or out of stack, and end the
/// process.
#[verifier::external_body]
pub(crate) fn render(value: &serde_yaml::Value) -> (text: Result<String, serde_yaml::Error>)
    requires
        value_node(*value) matches Some(node) && fits(node),
    ensures
        value_node(*value) matches Some(node) ==> match text {
            Ok(text) => yaml_text(node) == Some(text@),
            Err(_) => yaml_text(node) is None,
        },
{
    serde_yaml::to_string(value)
}

/// `serde_yaml::Error`'s `Display`: the error in words. Nothing is promised
/// of them.
#[verifier::external_body]
pub(crate) fn describe(error: &serde_yaml::Error) -> String {
    error.to_string()
}

} // verus!
