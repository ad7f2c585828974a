//! The pipeline document: its typed model, and how a document is read into
//! it.

use vstd::prelude::*;
use std::collections::HashMap;
use crate::error::PipelineParseError;
use crate::extraction::{
    collect_from_pipeline, inline_variable_names, pipeline_mentions, variable_groups, Wanted,
};
use crate::names::{lemma_distinct_no_duplicates, names_of};
use crate::tree::{
    entry_at, entry_trees_of, find_entry, find_text, lemma_mapping_tree, lemma_sequence_tree,
    text_at, trees_of, Node, Tree,
};
use crate::yaml::{read_yaml, yaml_document};

pub use crate::references::{extract_variable_references_from_content, is_system_variable};
pub use crate::template::{detect_template, TemplateInfo};

verus! {

/// A reference to a variable group, as one entry may spell it.
#[derive(Debug)]
pub struct VariableGroup {
    /// Name of the variable group.
    pub group: Option<String>,
    /// Individual variables, where the entry is no group reference.
    pub variables: Option<HashMap<String, String>>,
}

/// The definition of one variable.
#[derive(Debug)]
pub struct Variable {
    /// Name of the variable.
    pub name: Option<String>,
    /// Value of the variable.
    pub value: Option<String>,
}

/// One entry of a `variables` section in list form.
#[derive(Debug)]
pub enum VariableEntry {
    /// A reference to a variable group: `- group: 'GroupName'`.
    Group { group: String },
    /// A variable defined in place: `- name: 'VarName'` with an optional
    /// `value: 'VarValue'`.
    Named { name: String, value: Option<String> },
    /// The inclusion of another document: `- template: 'path'`.
    Template { template: String },
    /// Anything else, such as a `${{ if ... }}` block; the value is kept so
    /// that it can be searched.
    Conditional(Node),
}

/// A `variables` section: a list of entries, or a mapping from names to
/// values in the order of the document.
#[derive(Debug)]
pub enum Variables {
    /// List form.
    List(Vec<VariableEntry>),
    /// Map form.
    Mapping(Vec<(String, Node)>),
}

/// A job of a stage.
#[derive(Debug)]
pub struct Job {
    /// The job's variables.
    pub variables: Option<Variables>,
}

/// A deployment job of a stage.
#[derive(Debug)]
pub struct Deployment {
    /// The deployment's variables.
    pub variables: Option<Variables>,
}

/// A stage of a pipeline.
#[derive(Debug)]
pub struct Stage {
    /// The stage's name.
    pub stage: Option<String>,
    /// The stage's variables.
    pub variables: Option<Variables>,
    /// The stage's jobs.
    pub jobs: Option<Vec<Job>>,
}

/// A pipeline document.
#[derive(Debug)]
pub struct Pipeline {
    /// The variables of the whole pipeline.
    pub variables: Option<Variables>,
    /// The stages.
    pub stages: Option<Vec<Stage>>,
}

/// A `VariableEntry` as contracts speak of it.
pub enum EntryView {
    Group { group: Seq<char> },
    Named { name: Seq<char>, value: Option<Seq<char>> },
    Template { template: Seq<char> },
    Conditional(Tree),
}

/// A `Variables` as contracts speak of it.
pub enum VariablesView {
    List(Seq<EntryView>),
    Mapping(Seq<(Seq<char>, Tree)>),
}

/// A `Job` as contracts speak of it.
pub struct JobView {
    pub variables: Option<VariablesView>,
}

/// A `Deployment` as contracts speak of it.
pub struct DeploymentView {
    pub variables: Option<VariablesView>,
}

/// A `Stage` as contracts speak of it.
pub struct StageView {
    pub stage: Option<Seq<char>>,
    pub variables: Option<VariablesView>,
    pub jobs: Option<Seq<JobView>>,
}

/// A `Pipeline` as contracts speak of it.
pub struct PipelineView {
    pub variables: Option<VariablesView>,
    pub stages: Option<Seq<StageView>>,
}

impl View for VariableEntry {
    type V = EntryView;

    open spec fn view(&self) -> EntryView {
        match self {
            VariableEntry::Group { group } => EntryView::Group { group: group@ },
            VariableEntry::Named { name, value } => EntryView::Named {
                name: name@,
                value: match value {
                    Some(text) => Some(text@),
                    None => None,
                },
            },
            VariableEntry::Template { template } => EntryView::Template { template: template@ },
            VariableEntry::Conditional(node) => EntryView::Conditional(node@),
        }
    }
}

/// The views of a list of entries.
pub open spec fn entries_of(entries: Seq<VariableEntry>) -> Seq<EntryView> {
    entries.map_values(|e: VariableEntry| e@)
}

/// The views of the pairs of a section in map form.
pub open spec fn pairs_of(pairs: Seq<(String, Node)>) -> Seq<(Seq<char>, Tree)> {
    pairs.map_values(|p: (String, Node)| (p.0@, p.1@))
}

impl View for Variables {
    type V = VariablesView;

    open spec fn view(&self) -> VariablesView {
        match self {
            Variables::List(entries) => VariablesView::List(entries_of(entries@)),
            Variables::Mapping(pairs) => VariablesView::Mapping(pairs_of(pairs@)),
        }
    }
}

/// The view of a section that may be absent.
pub open spec fn section_of(section: Option<Variables>) -> Option<VariablesView> {
    match section {
        Some(variables) => Some(variables@),
        None => None,
    }
}

impl View for Job {
    type V = JobView;

    open spec fn view(&self) -> JobView {
        JobView { variables: section_of(self.variables) }
    }
}

impl View for Deployment {
    type V = DeploymentView;

    open spec fn view(&self) -> DeploymentView {
        DeploymentView { variables: section_of(self.variables) }
    }
}

/// The views of a list of jobs.
pub open spec fn jobs_of(jobs: Seq<Job>) -> Seq<JobView> {
    jobs.map_values(|j: Job| j@)
}

impl View for Stage {
    type V = StageView;

    open spec fn view(&self) -> StageView {
        StageView {
            stage: match self.stage {
                Some(name) => Some(name@),
                None => None,
            },
            variables: section_of(self.variables),
            jobs: match self.jobs {
                Some(jobs) => Some(jobs_of(jobs@)),
                None => None,
            },
        }
    }
}

/// The views of a list of stages.
pub open spec fn stages_of(stages: Seq<Stage>) -> Seq<StageView> {
    stages.map_values(|s: Stage| s@)
}

impl View for Pipeline {
    type V = PipelineView;

    open spec fn view(&self) -> PipelineView {
        PipelineView {
            variables: section_of(self.variables),
            stages: match self.stages {
                Some(stages) => Some(stages_of(stages@)),
                None => None,
            },
        }
    }
}

impl VariablesView {
    /// The number of entries.
    pub open spec fn len(self) -> nat {
        match self {
            VariablesView::List(entries) => entries.len(),
            VariablesView::Mapping(pairs) => pairs.len(),
        }
    }

    /// The entries of a section in list form; a section in map form has none.
    pub open spec fn listed(self) -> Seq<EntryView> {
        match self {
            VariablesView::List(entries) => entries,
            VariablesView::Mapping(_) => Seq::empty(),
        }
    }
}

impl Variables {
    /// The number of entries of the section.
    pub fn len(&self) -> (count: usize)
        ensures
            count == self@.len(),
    {
        match self {
            Variables::List(entries) => entries.len(),
            Variables::Mapping(pairs) => pairs.len(),
        }
    }

    /// Whether the section has no entries.
    pub fn is_empty(&self) -> (empty: bool)
        ensures
            empty == (self@.len() == 0),
    {
        self.len() == 0
    }

    /// The entries of a section in list form; a section in map form gives
    /// none.
    pub fn iter(&self) -> (entries: &[VariableEntry])
        ensures
            entries_of(entries@) == self@.listed(),
    {
        match self {
            Variables::List(entries) => entries.as_slice(),
            Variables::Mapping(_) => {
                let none: &[VariableEntry] = &[];
                assert(entries_of(none@) =~= Seq::empty());
                none
            },
        }
    }
}

/// What stands under `value` in an entry that defines a variable: no value
/// where the key is absent or holds nothing, the text where it holds one. An
/// entry whose `value` is anything else defines no variable.
pub open spec fn named_value(entries: Seq<(Tree, Tree)>) -> Option<Option<Seq<char>>> {
    match entry_at(entries, "value"@) {
        None => Some(None),
        Some(Tree::Null) => Some(None),
        Some(Tree::Text(text)) => Some(Some(text)),
        Some(_) => None,
    }
}

/// The entry that an item of a `variables` list stands for. A mapping with
/// a text under `group` is a group reference; else one with a text under
/// `name` and a fitting `value` defines a variable; else one with a text
/// under `template` includes a document; every other item is kept as it is.
pub open spec fn entry_of(tree: Tree) -> EntryView {
    match tree {
        Tree::Dict(entries) => match text_at(entries, "group"@) {
            Some(group) => EntryView::Group { group },
            None => match (text_at(entries, "name"@), named_value(entries)) {
                (Some(name), Some(value)) => EntryView::Named { name, value },
                _ => match text_at(entries, "template"@) {
                    Some(template) => EntryView::Template { template },
                    None => EntryView::Conditional(tree),
                },
            },
        },
        _ => EntryView::Conditional(tree),
    }
}

/// The entries that the items of a `variables` list stand for.
pub open spec fn listed_entries(items: Seq<Tree>) -> Seq<EntryView> {
    items.map_values(|t: Tree| entry_of(t))
}

/// Whether every key of `entries` is a text.
pub open spec fn keys_are_text(entries: Seq<(Tree, Tree)>) -> bool {
    forall|i: int| 0 <= i < entries.len() ==> (#[trigger] entries[i]).0 is Text
}

/// The entries of a mapping whose keys are texts, each key as its text.
pub open spec fn named_pairs(entries: Seq<(Tree, Tree)>) -> Seq<(Seq<char>, Tree)> {
    entries.map_values(|e: (Tree, Tree)| (e.0->Text_0, e.1))
}

/// The section that stands under a `variables` key: a sequence is a section
/// in list form, a mapping with text keys one in map form; anything else is
/// no section.
pub open spec fn variables_of(tree: Tree) -> Option<VariablesView> {
    match tree {
        Tree::List(items) => Some(VariablesView::List(listed_entries(items))),
        Tree::Dict(entries) => if keys_are_text(entries) {
            Some(VariablesView::Mapping(named_pairs(entries)))
        } else {
            None
        },
        _ => None,
    }
}

/// The `variables` section of a mapping, where it has one.
pub open spec fn variables_at(entries: Seq<(Tree, Tree)>) -> Option<VariablesView> {
    match entry_at(entries, "variables"@) {
        Some(tree) => variables_of(tree),
        None => None,
    }
}

/// The job that an item of a `jobs` list stands for.
pub open spec fn job_of(tree: Tree) -> JobView {
    match tree {
        Tree::Dict(entries) => JobView { variables: variables_at(entries) },
        _ => JobView { variables: None },
    }
}

/// The jobs of a mapping, where `jobs` holds a sequence.
pub open spec fn jobs_at(entries: Seq<(Tree, Tree)>) -> Option<Seq<JobView>> {
    match entry_at(entries, "jobs"@) {
        Some(Tree::List(items)) => Some(items.map_values(|t: Tree| job_of(t))),
        _ => None,
    }
}

/// The stage that an item of a `stages` list stands for.
pub open spec fn stage_of(tree: Tree) -> StageView {
    match tree {
        Tree::Dict(entries) => StageView {
            stage: text_at(entries, "stage"@),
            variables: variables_at(entries),
            jobs: jobs_at(entries),
        },
        _ => StageView { stage: None, variables: None, jobs: None },
    }
}

/// The stages of a mapping, where `stages` holds a sequence.
pub open spec fn stages_at(entries: Seq<(Tree, Tree)>) -> Option<Seq<StageView>> {
    match entry_at(entries, "stages"@) {
        Some(Tree::List(items)) => Some(items.map_values(|t: Tree| stage_of(t))),
        _ => None,
    }
}

/// The pipeline that a document stands for. A document that is no mapping
/// is a pipeline without variables and stages.
pub open spec fn pipeline_of(root: Tree) -> PipelineView {
    match root {
        Tree::Dict(entries) => PipelineView {
            variables: variables_at(entries),
            stages: stages_at(entries),
        },
        _ => PipelineView { variables: None, stages: None },
    }
}

impl VariableEntry {
    /// The entry that an item of a `variables` list stands for.
    pub fn from_node(node: &Node) -> (entry: VariableEntry)
        ensures
            entry@ == entry_of(node@),
    {
        match node {
            Node::Mapping(entries) => {
                proof {
                    lemma_mapping_tree(*entries);
                }
                if let Some(group) = find_text(entries, "group") {
                    return VariableEntry::Group { group: group.clone() };
                }
                if let Some(name) = find_text(entries, "name") {
                    match find_entry(entries, "value") {
                        None => {
                            return VariableEntry::Named { name: name.clone(), value: None };
                        },
                        Some(Node::Null) => {
                            return VariableEntry::Named { name: name.clone(), value: None };
                        },
                        Some(Node::String(text)) => {
                            return VariableEntry::Named {
                                name: name.clone(),
                                value: Some(text.clone()),
                            };
                        },
                        Some(_) => {},
                    }
                }
                if let Some(template) = find_text(entries, "template") {
                    return VariableEntry::Template { template: template.clone() };
                }
                VariableEntry::Conditional(node.duplicate())
            },
            _ => VariableEntry::Conditional(node.duplicate()),
        }
    }
}

impl Variables {
    /// The section that stands under a `variables` key, if it is one.
    pub fn from_node(node: &Node) -> (section: Option<Variables>)
        ensures
            section_of(section) == variables_of(node@),
    {
        match node {
            Node::Sequence(items) => {
                proof {
                    lemma_sequence_tree(*items);
                }
                let mut entries: Vec<VariableEntry> = Vec::new();
                let mut i: usize = 0;
                while i < items.len()
                    invariant
                        i <= items.len(),
                        entries@.len() == i,
                        forall|j: int| 0 <= j < i ==> (#[trigger] entries@[j])@ == entry_of(items@[j]@),
                    decreases items.len() - i,
                {
                    entries.push(VariableEntry::from_node(&items[i]));
                    i += 1;
                }
                assert(entries_of(entries@) =~= listed_entries(trees_of(items@)));
                Some(Variables::List(entries))
            },
            Node::Mapping(entries) => {
                proof {
                    lemma_mapping_tree(*entries);
                }
                let ghost trees = entry_trees_of(entries@);
                let mut pairs: Vec<(String, Node)> = Vec::new();
                let mut i: usize = 0;
                while i < entries.len()
                    invariant
                        i <= entries.len(),
                        trees == entry_trees_of(entries@),
                        node@ == Tree::Dict(trees),
                        pairs@.len() == i,
                        forall|j: int| 0 <= j < i ==> (#[trigger] trees[j]).0 is Text,
                        forall|j: int|
                            0 <= j < i ==> (#[trigger] pairs@[j]).0@ == trees[j].0->Text_0
                                && pairs@[j].1@ == trees[j].1,
                    decreases entries.len() - i,
                {
                    match &entries[i].0 {
                        Node::String(key) => {
                            pairs.push((key.clone(), entries[i].1.duplicate()));
                        },
                        _ => {
                            assert(!(trees[i as int].0 is Text));
                            return None;
                        },
                    }
                    i += 1;
                }
                assert(pairs_of(pairs@) =~= named_pairs(trees));
                Some(Variables::Mapping(pairs))
            },
            _ => None,
        }
    }

    /// The `variables` section of a mapping, where it has one.
    pub fn from_entries(entries: &Vec<(Node, Node)>) -> (section: Option<Variables>)
        ensures
            section_of(section) == variables_at(entry_trees_of(entries@)),
    {
        match find_entry(entries, "variables") {
            Some(node) => Variables::from_node(node),
            None => None,
        }
    }
}

impl Job {
    /// The job that an item of a `jobs` list stands for.
    pub fn from_node(node: &Node) -> (job: Job)
        ensures
            job@ == job_of(node@),
    {
        match node {
            Node::Mapping(entries) => {
                proof {
                    lemma_mapping_tree(*entries);
                }
                Job { variables: Variables::from_entries(entries) }
            },
            _ => Job { variables: None },
        }
    }
}

impl Stage {
    /// The stage that an item of a `stages` list stands for.
    pub fn from_node(node: &Node) -> (stage: Stage)
        ensures
            stage@ == stage_of(node@),
    {
        match node {
            Node::Mapping(entries) => {
                proof {
                    lemma_mapping_tree(*entries);
                }
                let name = match find_text(entries, "stage") {
                    Some(text) => Some(text.clone()),
                    None => None,
                };
                let variables = Variables::from_entries(entries);
                let jobs = match find_entry(entries, "jobs") {
                    Some(Node::Sequence(items)) => {
                        proof {
                            lemma_sequence_tree(*items);
                        }
                        let mut jobs: Vec<Job> = Vec::new();
                        let mut i: usize = 0;
                        while i < items.len()
                            invariant
                                i <= items.len(),
                                jobs@.len() == i,
                                forall|j: int|
                                    0 <= j < i ==> (#[trigger] jobs@[j])@ == job_of(items@[j]@),
                            decreases items.len() - i,
                        {
                            jobs.push(Job::from_node(&items[i]));
                            i += 1;
                        }
                        assert(jobs_of(jobs@) =~= trees_of(items@).map_values(|t: Tree| job_of(t)));
                        Some(jobs)
                    },
                    _ => None,
                };
                Stage { stage: name, variables, jobs }
            },
            _ => Stage { stage: None, variables: None, jobs: None },
        }
    }
}

impl Pipeline {
    /// The pipeline that a document stands for.
    pub fn from_node(root: &Node) -> (pipeline: Pipeline)
        ensures
            pipeline@ == pipeline_of(root@),
    {
        match root {
            Node::Mapping(entries) => {
                proof {
                    lemma_mapping_tree(*entries);
                }
                let variables = Variables::from_entries(entries);
                let stages = match find_entry(entries, "stages") {
                    Some(Node::Sequence(items)) => {
                        proof {
                            lemma_sequence_tree(*items);
                        }
                        let mut stages: Vec<Stage> = Vec::new();
                        let mut i: usize = 0;
                        while i < items.len()
                            invariant
                                i <= items.len(),
                                stages@.len() == i,
                                forall|j: int|
                                    0 <= j < i ==> (#[trigger] stages@[j])@ == stage_of(
                                        items@[j]@,
                                    ),
                            decreases items.len() - i,
                        {
                            stages.push(Stage::from_node(&items[i]));
                            i += 1;
                        }
                        assert(stages_of(stages@) =~= trees_of(items@).map_values(
                            |t: Tree| stage_of(t),
                        ));
                        Some(stages)
                    },
                    _ => None,
                };
                Pipeline { variables, stages }
            },
            _ => Pipeline { variables: None, stages: None },
        }
    }
}

impl Pipeline {
    /// The names of the variable groups that the pipeline refers to, at the
    /// top, in its stages and in their jobs, also inside blocks that are only
    /// kept: each name once, in the order of first mention.
    pub fn get_variable_groups(&self) -> (groups: Vec<String>)
        ensures
            names_of(groups@) == variable_groups(self@),
            names_of(groups@).no_duplicates(),
            names_of(groups@).to_set().len() == groups@.len(),
    {
        proof {
            lemma_distinct_no_duplicates(pipeline_mentions(Wanted::Groups, self@));
        }
        collect_from_pipeline(Wanted::Groups, self)
    }

    /// The names of the variables that the pipeline defines in place, at the
    /// top, in its stages and in their jobs, also inside blocks that are only
    /// kept: each name once, in the order of first mention.
    pub fn get_inline_variable_names(&self) -> (names: Vec<String>)
        ensures
            names_of(names@) == inline_variable_names(self@),
            names_of(names@).no_duplicates(),
            names_of(names@).to_set().len() == names@.len(),
    {
        proof {
            lemma_distinct_no_duplicates(pipeline_mentions(Wanted::Names, self@));
        }
        collect_from_pipeline(Wanted::Names, self)
    }
}

/// Reads the text of a pipeline file. `path` names the file in the error.
/// The text is well-formed exactly where the YAML reader accepts it, and
/// every well-formed document gives a pipeline.
pub fn parse_pipeline_file(path: &str, content: &str) -> (outcome: Result<
    Pipeline,
    PipelineParseError,
>)
    ensures
        match yaml_document(content@) {
            Ok(root) => outcome is Ok && outcome->Ok_0@ == pipeline_of(root),
            Err(message) => outcome is Err && outcome->Err_0.file_path@ == path@
                && outcome->Err_0.message@ == message,
        },
{
    match read_yaml(content) {
        Ok(root) => Ok(Pipeline::from_node(&root)),
        Err(message) => Err(PipelineParseError { file_path: path.to_owned(), message }),
    }
}

} // verus!
