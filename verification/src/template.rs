//! Telling a template from a pipeline that can run.

use vstd::prelude::*;
use crate::error::PipelineParseError;
use crate::names::{concat_all, lemma_concat_all_take, names_of};
use crate::tree::{
    entry_at, find_entry, find_text, has_key, lemma_mapping_tree, lemma_sequence_tree, text_at,
    trees_of, untagged, Node, Tree,
};
use crate::yaml::{read_yaml, yaml_document};

verus! {

/// Whether a document is a template, and the parameters it declares.
#[derive(Debug)]
pub struct TemplateInfo {
    /// Whether the document is a template.
    pub is_template: bool,
    /// The names of the template's parameters.
    pub parameter_names: Vec<String>,
}

/// A `TemplateInfo` as contracts speak of it.
pub struct TemplateInfoView {
    pub is_template: bool,
    pub parameter_names: Seq<Seq<char>>,
}

impl View for TemplateInfo {
    type V = TemplateInfoView;

    open spec fn view(&self) -> TemplateInfoView {
        TemplateInfoView {
            is_template: self.is_template,
            parameter_names: names_of(self.parameter_names@),
        }
    }
}

/// Whether a document is a template: a mapping that declares `parameters`
/// and has neither a `trigger` nor a `pr` key.
pub open spec fn is_template_root(root: Tree) -> bool {
    match untagged(root) {
        Tree::Dict(entries) => has_key(entries, "parameters"@) && !has_key(entries, "trigger"@)
            && !has_key(entries, "pr"@),
        _ => false,
    }
}

/// The name that one item of `parameters` declares: that of a mapping with
/// a text under `name`. Any other item declares none.
pub open spec fn parameter_name(item: Tree) -> Seq<Seq<char>> {
    match untagged(item) {
        Tree::Dict(entries) => match text_at(entries, "name"@) {
            Some(name) => seq![name],
            None => Seq::empty(),
        },
        _ => Seq::empty(),
    }
}

/// The names that the `parameters` of a document declare, in their order
/// and with repeats. Only a sequence under `parameters` declares any.
pub open spec fn parameter_names_of(root: Tree) -> Seq<Seq<char>> {
    match untagged(root) {
        Tree::Dict(entries) => match entry_at(entries, "parameters"@) {
            Some(parameters) => match untagged(parameters) {
                Tree::List(items) => concat_all(items.map_values(|t: Tree| parameter_name(t))),
                _ => Seq::empty(),
            },
            None => Seq::empty(),
        },
        _ => Seq::empty(),
    }
}

/// What is known of a document as a template: the names of its parameters
/// where it is one, and no names where it is not.
pub open spec fn template_info_of(root: Tree) -> TemplateInfoView {
    if is_template_root(root) {
        TemplateInfoView { is_template: true, parameter_names: parameter_names_of(root) }
    } else {
        TemplateInfoView { is_template: false, parameter_names: Seq::empty() }
    }
}

/// The names that the `parameters` of a document declare.
pub fn extract_parameter_names(root: &Node) -> (names: Vec<String>)
    ensures
        names_of(names@) == parameter_names_of(root@),
{
    let mut names: Vec<String> = Vec::new();
    assert(names_of(names@) =~= Seq::<Seq<char>>::empty());
    if let Node::Mapping(entries) = root.untagged() {
        proof {
            lemma_mapping_tree(*entries);
        }
        if let Some(parameters) = find_entry(entries, "parameters") {
            if let Node::Sequence(items) = parameters.untagged() {
                proof {
                    lemma_sequence_tree(*items);
                }
                let ghost parts = trees_of(items@).map_values(|t: Tree| parameter_name(t));
                assert(parts.take(0) =~= Seq::<Seq<Seq<char>>>::empty());
                let mut i: usize = 0;
                while i < items.len()
                    invariant
                        i <= items.len(),
                        parts == trees_of(items@).map_values(|t: Tree| parameter_name(t)),
                        names_of(names@) == concat_all(parts.take(i as int)),
                    decreases items.len() - i,
                {
                    proof {
                        lemma_concat_all_take(parts, i as int);
                    }
                    if let Node::Mapping(fields) = items[i].untagged() {
                        proof {
                            lemma_mapping_tree(*fields);
                        }
                        if let Some(name) = find_text(fields, "name") {
                            let ghost before = names_of(names@);
                            names.push(name.clone());
                            assert(names_of(names@) =~= before + seq![name@]);
                        } else {
                            assert(names_of(names@) + Seq::<Seq<char>>::empty() =~= names_of(
                                names@,
                            ));
                        }
                    } else {
                        assert(names_of(names@) + Seq::<Seq<char>>::empty() =~= names_of(names@));
                    }
                    i += 1;
                }
                assert(parts.take(items.len() as int) =~= parts);
            }
        }
    }
    names
}

impl TemplateInfo {
    /// What is known of a document as a template.
    pub fn from_node(root: &Node) -> (info: TemplateInfo)
        ensures
            info@ == template_info_of(root@),
    {
        let is_template = match root.untagged() {
            Node::Mapping(entries) => {
                proof {
                    lemma_mapping_tree(*entries);
                }
                find_entry(entries, "parameters").is_some() && find_entry(
                    entries,
                    "trigger",
                ).is_none() && find_entry(entries, "pr").is_none()
            },
            _ => false,
        };
        if is_template {
            TemplateInfo { is_template: true, parameter_names: extract_parameter_names(root) }
        } else {
            let none: Vec<String> = Vec::new();
            assert(names_of(none@) =~= Seq::<Seq<char>>::empty());
            TemplateInfo { is_template: false, parameter_names: none }
        }
    }
}

/// Reads the text of a pipeline file and says whether it is a template.
/// `path` names the file in the error.
pub fn detect_template(path: &str, content: &str) -> (outcome: Result<
    TemplateInfo,
    PipelineParseError,
>)
    ensures
        match yaml_document(content@) {
            Ok(root) => outcome is Ok && outcome->Ok_0@ == template_info_of(root),
            Err(message) => outcome is Err && outcome->Err_0.file_path@ == path@
                && outcome->Err_0.message@ == message,
        },
{
    match read_yaml(content) {
        Ok(root) => Ok(TemplateInfo::from_node(&root)),
        Err(message) => Err(PipelineParseError { file_path: path.to_owned(), message }),
    }
}

} // verus!
