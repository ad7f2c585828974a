//! The value tree of a document: scalars, sequences and mappings, nested to
//! any depth.

use vstd::prelude::*;
use crate::text::same_text;

verus! {

/// A document value as contracts speak of it.
pub enum Tree {
    Null,
    Bool(bool),
    Number(Seq<char>),
    Text(Seq<char>),
    List(Seq<Tree>),
    Dict(Seq<(Tree, Tree)>),
    Tagged(Seq<char>, Box<Tree>),
}

/// A document value. A number is held as its text. The entries of a mapping
/// keep the order in which the document gives them.
#[derive(Debug, PartialEq)]
pub enum Node {
    Null,
    Bool(bool),
    Number(String),
    String(String),
    Sequence(Vec<Node>),
    Mapping(Vec<(Node, Node)>),
    Tagged(String, Box<Node>),
}

/// The tree that `node` stands for.
pub open spec fn tree_of(node: Node) -> Tree
    decreases node,
{
    match node {
        Node::Null => Tree::Null,
        Node::Bool(b) => Tree::Bool(b),
        Node::Number(text) => Tree::Number(text@),
        Node::String(text) => Tree::Text(text@),
        Node::Sequence(items) => Tree::List(
            Seq::new(
                items.len() as nat,
                |i: int|
                    if 0 <= i < items.len() {
                        tree_of(items[i])
                    } else {
                        Tree::Null
                    },
            ),
        ),
        Node::Mapping(entries) => Tree::Dict(
            Seq::new(
                entries.len() as nat,
                |i: int|
                    if 0 <= i < entries.len() {
                        (tree_of(entries[i].0), tree_of(entries[i].1))
                    } else {
                        (Tree::Null, Tree::Null)
                    },
            ),
        ),
        Node::Tagged(tag, inner) => Tree::Tagged(tag@, Box::new(tree_of(*inner))),
    }
}

impl View for Node {
    type V = Tree;

    open spec fn view(&self) -> Tree {
        tree_of(*self)
    }
}

/// The trees of a sequence's items.
pub open spec fn trees_of(items: Seq<Node>) -> Seq<Tree> {
    items.map_values(|n: Node| n@)
}

/// The trees of a mapping's entries.
pub open spec fn entry_trees_of(entries: Seq<(Node, Node)>) -> Seq<(Tree, Tree)> {
    entries.map_values(|e: (Node, Node)| (e.0@, e.1@))
}

/// The tree of a sequence is the list of its items' trees.
pub proof fn lemma_sequence_tree(items: Vec<Node>)
    ensures
        Node::Sequence(items)@ == Tree::List(trees_of(items@)),
{
    assert(Node::Sequence(items)@->List_0 =~= trees_of(items@));
}

/// The tree of a mapping is the list of its entries' trees.
pub proof fn lemma_mapping_tree(entries: Vec<(Node, Node)>)
    ensures
        Node::Mapping(entries)@ == Tree::Dict(entry_trees_of(entries@)),
{
    assert(Node::Mapping(entries)@->Dict_0 =~= entry_trees_of(entries@));
}

/// The value of the first entry of `entries` whose key is the text `key`.
pub open spec fn entry_at(entries: Seq<(Tree, Tree)>, key: Seq<char>) -> Option<Tree>
    decreases entries.len(),
{
    if entries.len() == 0 {
        None
    } else if entries[0].0 == Tree::Text(key) {
        Some(entries[0].1)
    } else {
        entry_at(entries.drop_first(), key)
    }
}

/// Whether `entries` has an entry whose key is the text `key`.
pub open spec fn has_key(entries: Seq<(Tree, Tree)>, key: Seq<char>) -> bool {
    entry_at(entries, key) is Some
}

/// The text under `key`, where the first entry with that key holds a text.
pub open spec fn text_at(entries: Seq<(Tree, Tree)>, key: Seq<char>) -> Option<Seq<char>> {
    match entry_at(entries, key) {
        Some(Tree::Text(text)) => Some(text),
        _ => None,
    }
}

/// `tree` without the tags around it.
pub open spec fn untagged(tree: Tree) -> Tree
    decreases tree,
{
    match tree {
        Tree::Tagged(_, inner) => untagged(*inner),
        _ => tree,
    }
}

/// The first entry with the key decides, whatever follows it.
pub proof fn lemma_entry_at_first(entries: Seq<(Tree, Tree)>, key: Seq<char>, i: int)
    requires
        0 <= i < entries.len(),
        entries[i].0 == Tree::Text(key),
        forall|j: int| 0 <= j < i ==> entries[j].0 != Tree::Text(key),
    ensures
        entry_at(entries, key) == Some(entries[i].1),
    decreases i,
{
    if i > 0 {
        let rest = entries.drop_first();
        assert(rest[i - 1] == entries[i]);
        assert forall|j: int| 0 <= j < i - 1 implies rest[j].0 != Tree::Text(key) by {
            assert(rest[j] == entries[j + 1]);
        }
        lemma_entry_at_first(rest, key, i - 1);
    }
}

/// Without an entry of that key there is no value.
pub proof fn lemma_entry_at_absent(entries: Seq<(Tree, Tree)>, key: Seq<char>)
    requires
        forall|j: int| 0 <= j < entries.len() ==> entries[j].0 != Tree::Text(key),
    ensures
        entry_at(entries, key) is None,
    decreases entries.len(),
{
    if entries.len() > 0 {
        let rest = entries.drop_first();
        assert forall|j: int| 0 <= j < rest.len() implies rest[j].0 != Tree::Text(key) by {
            assert(rest[j] == entries[j + 1]);
        }
        lemma_entry_at_absent(rest, key);
    }
}

/// A value that is found stands in one of the entries, under that key.
pub proof fn lemma_entry_at_found(entries: Seq<(Tree, Tree)>, key: Seq<char>) -> (i: int)
    requires
        entry_at(entries, key) is Some,
    ensures
        0 <= i < entries.len(),
        entries[i].0 == Tree::Text(key),
        entry_at(entries, key) == Some(entries[i].1),
        forall|j: int| 0 <= j < i ==> entries[j].0 != Tree::Text(key),
    decreases entries.len(),
{
    if entries[0].0 == Tree::Text(key) {
        0
    } else {
        let rest = entries.drop_first();
        let k = lemma_entry_at_found(rest, key);
        assert(rest[k] == entries[k + 1]);
        assert forall|j: int| 0 <= j < k + 1 implies entries[j].0 != Tree::Text(key) by {
            if j > 0 {
                assert(rest[j - 1] == entries[j]);
            }
        }
        k + 1
    }
}

/// A key is present exactly where one of the entries carries it.
pub proof fn lemma_has_key(entries: Seq<(Tree, Tree)>, key: Seq<char>)
    ensures
        has_key(entries, key) <==> exists|i: int|
            0 <= i < entries.len() && (#[trigger] entries[i]).0 == Tree::Text(key),
{
    if has_key(entries, key) {
        let i = lemma_entry_at_found(entries, key);
        assert(entries[i].0 == Tree::Text(key));
    } else {
        if exists|i: int| 0 <= i < entries.len() && (#[trigger] entries[i]).0 == Tree::Text(key) {
            let i = choose|i: int|
                0 <= i < entries.len() && (#[trigger] entries[i]).0 == Tree::Text(key);
            let first = lemma_first_with_key(entries, key, i);
            lemma_entry_at_first(entries, key, first);
        }
    }
}

/// Where an entry carries a key, there is a first one that does.
pub proof fn lemma_first_with_key(entries: Seq<(Tree, Tree)>, key: Seq<char>, i: int) -> (first:
    int)
    requires
        0 <= i < entries.len(),
        entries[i].0 == Tree::Text(key),
    ensures
        0 <= first <= i,
        entries[first].0 == Tree::Text(key),
        forall|j: int| 0 <= j < first ==> entries[j].0 != Tree::Text(key),
    decreases i,
{
    if exists|j: int| 0 <= j < i && entries[j].0 == Tree::Text(key) {
        let j = choose|j: int| 0 <= j < i && entries[j].0 == Tree::Text(key);
        lemma_first_with_key(entries, key, j)
    } else {
        i
    }
}

/// A new value under another key changes nothing in what a key leads to.
pub proof fn lemma_entry_at_other_value(
    entries: Seq<(Tree, Tree)>,
    at: int,
    value: Tree,
    key: Seq<char>,
)
    requires
        0 <= at < entries.len(),
        entries[at].0 != Tree::Text(key),
    ensures
        entry_at(entries.update(at, (entries[at].0, value)), key) == entry_at(entries, key),
    decreases entries.len(),
{
    let updated = entries.update(at, (entries[at].0, value));
    if at == 0 {
        assert(updated.drop_first() =~= entries.drop_first());
    } else {
        assert(updated[0] == entries[0]);
        let rest = entries.drop_first();
        assert(rest[at - 1] == entries[at]);
        assert(updated.drop_first() =~= rest.update(at - 1, (rest[at - 1].0, value)));
        lemma_entry_at_other_value(rest, at - 1, value, key);
    }
}

/// The value of the first of `entries` whose key is the text `key`.
pub fn find_entry<'a>(entries: &'a Vec<(Node, Node)>, key: &str) -> (found: Option<&'a Node>)
    ensures
        match found {
            Some(value) => entry_at(entry_trees_of(entries@), key@) == Some(value@),
            None => entry_at(entry_trees_of(entries@), key@) is None,
        },
{
    let mut i: usize = 0;
    while i < entries.len()
        invariant
            i <= entries.len(),
            forall|j: int| 0 <= j < i ==> entry_trees_of(entries@)[j].0 != Tree::Text(key@),
        decreases entries.len() - i,
    {
        let is_key = match &entries[i].0 {
            Node::String(text) => same_text(text.as_str(), key),
            _ => false,
        };
        if is_key {
            proof {
                lemma_entry_at_first(entry_trees_of(entries@), key@, i as int);
            }
            return Some(&entries[i].1);
        }
        i += 1;
    }
    proof {
        lemma_entry_at_absent(entry_trees_of(entries@), key@);
    }
    None
}

/// The text under `key`, where the first entry with that key holds a text.
pub fn find_text<'a>(entries: &'a Vec<(Node, Node)>, key: &str) -> (found: Option<&'a String>)
    ensures
        match found {
            Some(text) => text_at(entry_trees_of(entries@), key@) == Some(text@),
            None => text_at(entry_trees_of(entries@), key@) is None,
        },
{
    match find_entry(entries, key) {
        Some(Node::String(text)) => Some(text),
        _ => None,
    }
}

impl Node {
    /// This value without the tags around it.
    pub fn untagged(&self) -> (inner: &Node)
        ensures
            inner@ == untagged(self@),
        decreases self,
    {
        match self {
            Node::Tagged(_, inner) => inner.untagged(),
            _ => self,
        }
    }

    /// A value with the same tree.
    pub fn duplicate(&self) -> (copy: Node)
        ensures
            copy@ == self@,
        decreases self,
    {
        match self {
            Node::Null => Node::Null,
            Node::Bool(b) => Node::Bool(*b),
            Node::Number(text) => Node::Number(text.clone()),
            Node::String(text) => Node::String(text.clone()),
            Node::Sequence(items) => {
                let mut copies: Vec<Node> = Vec::new();
                let mut i: usize = 0;
                while i < items.len()
                    invariant
                        i <= items.len(),
                        self->Sequence_0 == *items,
                        self is Sequence,
                        copies.len() == i,
                        forall|j: int| 0 <= j < i ==> copies@[j]@ == items@[j]@,
                    decreases items.len() - i,
                {
                    assert(decreases_to!(*items => items[i as int]));
                    let copy = items[i].duplicate();
                    copies.push(copy);
                    i += 1;
                }
                proof {
                    lemma_sequence_tree(*items);
                    lemma_sequence_tree(copies);
                    assert(trees_of(copies@) =~= trees_of(items@));
                }
                Node::Sequence(copies)
            },
            Node::Mapping(entries) => {
                let mut copies: Vec<(Node, Node)> = Vec::new();
                let mut i: usize = 0;
                while i < entries.len()
                    invariant
                        i <= entries.len(),
                        self->Mapping_0 == *entries,
                        self is Mapping,
                        copies.len() == i,
                        forall|j: int|
                            0 <= j < i ==> copies@[j].0@ == entries@[j].0@ && copies@[j].1@
                                == entries@[j].1@,
                    decreases entries.len() - i,
                {
                    assert(decreases_to!(*entries => entries[i as int]));
                    let key = entries[i].0.duplicate();
                    let value = entries[i].1.duplicate();
                    copies.push((key, value));
                    i += 1;
                }
                proof {
                    lemma_mapping_tree(*entries);
                    lemma_mapping_tree(copies);
                    assert(entry_trees_of(copies@) =~= entry_trees_of(entries@));
                }
                Node::Mapping(copies)
            },
            Node::Tagged(tag, inner) => Node::Tagged(tag.clone(), Box::new(inner.duplicate())),
        }
    }
}

} // verus!
