//! Reading YAML text into a value tree.

use vstd::prelude::*;
use serde_yaml::Value;
use crate::tree::{Node, Tree};

verus! {

/// `serde_yaml::Value`, made known so that it can be handed on. Nothing
/// inside it is seen.
#[verifier::external_type_specification]
#[verifier::external_body]
pub struct ExYamlValue(Value);

/// What the YAML reader makes of `text`: the value of the one document it
/// holds, or the reader's message where it does not accept the text.
pub uninterp spec fn yaml_document(text: Seq<char>) -> Result<Tree, Seq<char>>;

/// Reads `text` with `serde_yaml::from_str`, asking for a `serde_yaml::Value`.
/// Trusted: the outcome depends on `text` alone, so it is the named
/// `yaml_document(text)`. An accepted document comes back as the same tree,
/// a refusal as the text of the reader's error. Nothing is claimed about
/// which texts are accepted or what they hold. (The reader refuses a
/// document that is nested deeper than its own limit, so the trees it hands
/// out are of bounded depth; no clause relies on that.)
#[verifier::external_body]
pub(crate) fn read_yaml(text: &str) -> (outcome: Result<Node, String>)
    ensures
        match outcome {
            Ok(node) => yaml_document(text@) == Ok::<Tree, Seq<char>>(node@),
            Err(message) => yaml_document(text@) == Err::<Tree, Seq<char>>(message@),
        },
{
    match serde_yaml::from_str::<Value>(text) {
        Ok(value) => Ok(node_from_yaml(value)),
        Err(error) => Err(error.to_string()),
    }
}

/// Moves a `serde_yaml::Value` into a `Node`, variant by variant. Trusted:
/// the body only tells the variants apart and hands their fields on; a
/// number goes through `serde_yaml::Number`'s `Display`, a tag through
/// `serde_yaml::value::Tag`'s.
#[verifier::external_body]
fn node_from_yaml(value: Value) -> Node {
    match value {
        Value::Null => Node::Null,
        Value::Bool(b) => Node::Bool(b),
        Value::Number(n) => Node::Number(n.to_string()),
        Value::String(s) => Node::String(s),
        Value::Sequence(items) => Node::Sequence(items.into_iter().map(node_from_yaml).collect()),
        Value::Mapping(m) => Node::Mapping(
            m.into_iter().map(|(k, v)| (node_from_yaml(k), node_from_yaml(v))).collect(),
        ),
        Value::Tagged(t) => Node::Tagged(t.tag.to_string(), Box::new(node_from_yaml(t.value))),
    }
}

} // verus!
