//! What a pipeline mentions: the variable groups it refers to and the
//! variables it defines in place, at every level and inside every block.

use vstd::prelude::*;
use crate::names::{
    concat_all, distinct, lemma_concat_all_take, lemma_with_names_concat,
    lemma_with_names_single, names_of, push_unique, with_names,
};
use crate::parser::{
    entries_of, jobs_of, pairs_of, section_of, stages_of, EntryView, JobView, Pipeline,
    PipelineView, Stage, StageView, VariableEntry, Variables, VariablesView,
};
use crate::text::{same_text, starts_with};
use crate::tree::{
    entry_trees_of, find_text, lemma_mapping_tree, lemma_sequence_tree, text_at, trees_of, Node,
    Tree,
};

verus! {

/// What a search looks for.
#[derive(Debug, Clone, Copy)]
pub enum Wanted {
    /// The names of the variable groups that are referred to.
    Groups,
    /// The names of the variables that are defined in place.
    Names,
}

/// Whether a key is a template expression, such as `${{ if ... }}`, and no
/// name.
pub open spec fn is_conditional_key(key: Seq<char>) -> bool {
    "${{"@.is_prefix_of(key)
}

/// Whether a key is one of those that give an entry its shape, and so never
/// the name of a variable.
pub open spec fn is_special_key(key: Seq<char>) -> bool {
    key == "name"@ || key == "value"@ || key == "group"@ || key == "template"@ || key
        == "readonly"@ || key == "isSecret"@
}

/// The key under which a mapping gives what is looked for.
pub open spec fn marker(wanted: Wanted) -> Seq<char> {
    match wanted {
        Wanted::Groups => "group"@,
        Wanted::Names => "name"@,
    }
}

/// What a mapping mentions by itself: the text under the marker key.
pub open spec fn own_mentions(wanted: Wanted, entries: Seq<(Tree, Tree)>) -> Seq<Seq<char>> {
    match text_at(entries, marker(wanted)) {
        Some(name) => seq![name],
        None => Seq::empty(),
    }
}

/// What a key of a searched mapping mentions: in a search for names, a text
/// key is a name unless it is a template expression or a special key.
pub open spec fn key_mentions(wanted: Wanted, key: Tree) -> Seq<Seq<char>> {
    match (wanted, key) {
        (Wanted::Names, Tree::Text(text)) => if !is_conditional_key(text) && !is_special_key(
            text,
        ) {
            seq![text]
        } else {
            Seq::empty()
        },
        _ => Seq::empty(),
    }
}

/// Everything that `tree` mentions, in the order of the document and with
/// repeats: a mapping mentions what stands under its marker key, then for
/// each entry what its key and its value mention; a sequence mentions what
/// its items mention; a scalar mentions nothing. No depth is left out.
pub open spec fn mentions(wanted: Wanted, tree: Tree) -> Seq<Seq<char>>
    decreases tree,
{
    match tree {
        Tree::Dict(entries) => own_mentions(wanted, entries) + mentions_in_entries(wanted, entries),
        Tree::List(items) => mentions_in_items(wanted, items),
        _ => Seq::empty(),
    }
}

/// What the items of a sequence mention, item after item.
pub open spec fn mentions_in_items(wanted: Wanted, items: Seq<Tree>) -> Seq<Seq<char>>
    decreases items,
{
    if items.len() == 0 {
        Seq::empty()
    } else {
        mentions_in_items(wanted, items.drop_last()) + mentions(wanted, items.last())
    }
}

/// What the entries of a mapping mention, entry after entry: the key, then
/// the value.
pub open spec fn mentions_in_entries(wanted: Wanted, entries: Seq<(Tree, Tree)>) -> Seq<Seq<char>>
    decreases entries,
{
    if entries.len() == 0 {
        Seq::empty()
    } else {
        mentions_in_entries(wanted, entries.drop_last()) + key_mentions(wanted, entries.last().0)
            + mentions(wanted, entries.last().1)
    }
}

/// What one entry of a section in list form mentions: a group reference its
/// group, a definition its name, and a kept value whatever it mentions at
/// any depth.
pub open spec fn entry_mentions(wanted: Wanted, entry: EntryView) -> Seq<Seq<char>> {
    match (wanted, entry) {
        (Wanted::Groups, EntryView::Group { group }) => seq![group],
        (Wanted::Names, EntryView::Named { name, .. }) => seq![name],
        (_, EntryView::Conditional(tree)) => mentions(wanted, tree),
        _ => Seq::empty(),
    }
}

/// What one pair of a section in map form mentions: under a template
/// expression whatever the value mentions at any depth; otherwise the key is
/// the name of a variable, and no group.
pub open spec fn pair_mentions(wanted: Wanted, pair: (Seq<char>, Tree)) -> Seq<Seq<char>> {
    if is_conditional_key(pair.0) {
        mentions(wanted, pair.1)
    } else {
        match wanted {
            Wanted::Groups => Seq::empty(),
            Wanted::Names => seq![pair.0],
        }
    }
}

/// What a section mentions, entry after entry.
pub open spec fn variables_mentions(wanted: Wanted, section: VariablesView) -> Seq<Seq<char>> {
    match section {
        VariablesView::List(entries) => concat_all(
            entries.map_values(|e: EntryView| entry_mentions(wanted, e)),
        ),
        VariablesView::Mapping(pairs) => concat_all(
            pairs.map_values(|p: (Seq<char>, Tree)| pair_mentions(wanted, p)),
        ),
    }
}

/// What a section mentions that may be absent.
pub open spec fn section_mentions(wanted: Wanted, section: Option<VariablesView>) -> Seq<
    Seq<char>,
> {
    match section {
        Some(variables) => variables_mentions(wanted, variables),
        None => Seq::empty(),
    }
}

/// What the jobs of a stage mention, job after job.
pub open spec fn jobs_mentions(wanted: Wanted, jobs: Option<Seq<JobView>>) -> Seq<Seq<char>> {
    match jobs {
        Some(jobs) => concat_all(
            jobs.map_values(|j: JobView| section_mentions(wanted, j.variables)),
        ),
        None => Seq::empty(),
    }
}

/// What a stage mentions: its own variables, then those of its jobs.
pub open spec fn stage_mentions(wanted: Wanted, stage: StageView) -> Seq<Seq<char>> {
    section_mentions(wanted, stage.variables) + jobs_mentions(wanted, stage.jobs)
}

/// What the stages of a pipeline mention, stage after stage.
pub open spec fn stages_mentions(wanted: Wanted, stages: Option<Seq<StageView>>) -> Seq<
    Seq<char>,
> {
    match stages {
        Some(stages) => concat_all(stages.map_values(|s: StageView| stage_mentions(wanted, s))),
        None => Seq::empty(),
    }
}

/// What a pipeline mentions: its own variables, then stage after stage.
pub open spec fn pipeline_mentions(wanted: Wanted, pipeline: PipelineView) -> Seq<Seq<char>> {
    section_mentions(wanted, pipeline.variables) + stages_mentions(wanted, pipeline.stages)
}

/// The variable groups that a pipeline refers to, each once, in the order
/// of first mention.
pub open spec fn variable_groups(pipeline: PipelineView) -> Seq<Seq<char>> {
    distinct(pipeline_mentions(Wanted::Groups, pipeline))
}

/// The variables that a pipeline defines in place, each once, in the order
/// of first mention.
pub open spec fn inline_variable_names(pipeline: PipelineView) -> Seq<Seq<char>> {
    distinct(pipeline_mentions(Wanted::Names, pipeline))
}

/// Whether `key` gives an entry its shape, and so is never the name of a
/// variable.
pub fn is_special_yaml_key(key: &str) -> (special: bool)
    ensures
        special == is_special_key(key@),
{
    same_text(key, "name") || same_text(key, "value") || same_text(key, "group") || same_text(
        key,
        "template",
    ) || same_text(key, "readonly") || same_text(key, "isSecret")
}

/// Adds to `found` what the key of a searched mapping mentions.
fn collect_from_key(wanted: Wanted, key: &Node, found: &mut Vec<String>)
    ensures
        names_of(final(found)@) == with_names(
            names_of(old(found)@),
            key_mentions(wanted, key@),
        ),
{
    match (wanted, key) {
        (Wanted::Names, Node::String(text)) => {
            if !starts_with(text.as_str(), "${{") && !is_special_yaml_key(text.as_str()) {
                push_unique(found, text.as_str());
                proof {
                    lemma_with_names_single(names_of(old(found)@), text@);
                }
            }
        },
        _ => {},
    }
}

/// Adds to `found` everything that `node` mentions, at any depth.
pub fn collect_from_node(wanted: Wanted, node: &Node, found: &mut Vec<String>)
    ensures
        names_of(final(found)@) == with_names(names_of(old(found)@), mentions(wanted, node@)),
    decreases node,
{
    let ghost before = names_of(found@);
    match node {
        Node::Mapping(entries) => {
            let ghost trees = entry_trees_of(entries@);
            proof {
                lemma_mapping_tree(*entries);
            }
            let own = match wanted {
                Wanted::Groups => find_text(entries, "group"),
                Wanted::Names => find_text(entries, "name"),
            };
            if let Some(name) = own {
                push_unique(found, name.as_str());
                proof {
                    lemma_with_names_single(before, name@);
                }
            }
            assert(trees.take(0) =~= Seq::<(Tree, Tree)>::empty());
            assert(own_mentions(wanted, trees) + mentions_in_entries(wanted, trees.take(0))
                =~= own_mentions(wanted, trees));
            let mut i: usize = 0;
            while i < entries.len()
                invariant
                    i <= entries.len(),
                    node is Mapping,
                    node->Mapping_0 == *entries,
                    trees == entry_trees_of(entries@),
                    names_of(found@) == with_names(
                        before,
                        own_mentions(wanted, trees) + mentions_in_entries(
                            wanted,
                            trees.take(i as int),
                        ),
                    ),
                decreases entries.len() - i,
            {
                let ghost done = own_mentions(wanted, trees) + mentions_in_entries(
                    wanted,
                    trees.take(i as int),
                );
                collect_from_key(wanted, &entries[i].0, found);
                assert(decreases_to!(*entries => entries[i as int]));
                collect_from_node(wanted, &entries[i].1, found);
                proof {
                    let by_key = key_mentions(wanted, trees[i as int].0);
                    let by_value = mentions(wanted, trees[i as int].1);
                    assert(trees.take(i + 1).drop_last() =~= trees.take(i as int));
                    assert(trees.take(i + 1).last() == trees[i as int]);
                    lemma_with_names_concat(before, done, by_key);
                    lemma_with_names_concat(before, done + by_key, by_value);
                    assert(own_mentions(wanted, trees) + mentions_in_entries(
                        wanted,
                        trees.take(i + 1),
                    ) =~= done + by_key + by_value);
                }
                i += 1;
            }
            assert(trees.take(entries.len() as int) =~= trees);
        },
        Node::Sequence(items) => {
            let ghost trees = trees_of(items@);
            proof {
                lemma_sequence_tree(*items);
            }
            assert(trees.take(0) =~= Seq::<Tree>::empty());
            let mut i: usize = 0;
            while i < items.len()
                invariant
                    i <= items.len(),
                    node is Sequence,
                    node->Sequence_0 == *items,
                    trees == trees_of(items@),
                    names_of(found@) == with_names(
                        before,
                        mentions_in_items(wanted, trees.take(i as int)),
                    ),
                decreases items.len() - i,
            {
                assert(decreases_to!(*items => items[i as int]));
                collect_from_node(wanted, &items[i], found);
                proof {
                    assert(trees.take(i + 1).drop_last() =~= trees.take(i as int));
                    assert(trees.take(i + 1).last() == trees[i as int]);
                    lemma_with_names_concat(
                        before,
                        mentions_in_items(wanted, trees.take(i as int)),
                        mentions(wanted, trees[i as int]),
                    );
                }
                i += 1;
            }
            assert(trees.take(items.len() as int) =~= trees);
        },
        _ => {},
    }
}

/// Adds to `found` what one entry of a section in list form mentions.
fn collect_from_entry(wanted: Wanted, entry: &VariableEntry, found: &mut Vec<String>)
    ensures
        names_of(final(found)@) == with_names(
            names_of(old(found)@),
            entry_mentions(wanted, entry@),
        ),
{
    match (wanted, entry) {
        (Wanted::Groups, VariableEntry::Group { group }) => {
            push_unique(found, group.as_str());
            proof {
                lemma_with_names_single(names_of(old(found)@), group@);
            }
        },
        (Wanted::Names, VariableEntry::Named { name, .. }) => {
            push_unique(found, name.as_str());
            proof {
                lemma_with_names_single(names_of(old(found)@), name@);
            }
        },
        (_, VariableEntry::Conditional(node)) => {
            collect_from_node(wanted, node, found);
        },
        _ => {},
    }
}

/// Adds to `found` what one pair of a section in map form mentions.
fn collect_from_pair(wanted: Wanted, pair: &(String, Node), found: &mut Vec<String>)
    ensures
        names_of(final(found)@) == with_names(
            names_of(old(found)@),
            pair_mentions(wanted, (pair.0@, pair.1@)),
        ),
{
    if starts_with(pair.0.as_str(), "${{") {
        collect_from_node(wanted, &pair.1, found);
    } else {
        match wanted {
            Wanted::Groups => {},
            Wanted::Names => {
                push_unique(found, pair.0.as_str());
                proof {
                    lemma_with_names_single(names_of(old(found)@), pair.0@);
                }
            },
        }
    }
}

/// Adds to `found` what a section mentions.
pub fn collect_from_section(wanted: Wanted, section: &Option<Variables>, found: &mut Vec<String>)
    ensures
        names_of(final(found)@) == with_names(
            names_of(old(found)@),
            section_mentions(wanted, section_of(*section)),
        ),
{
    let ghost before = names_of(found@);
    match section {
        Some(Variables::List(entries)) => {
            let ghost parts = entries_of(entries@).map_values(
                |e: EntryView| entry_mentions(wanted, e),
            );
            assert(parts.take(0) =~= Seq::<Seq<Seq<char>>>::empty());
            let mut i: usize = 0;
            while i < entries.len()
                invariant
                    i <= entries.len(),
                    parts == entries_of(entries@).map_values(
                        |e: EntryView| entry_mentions(wanted, e),
                    ),
                    names_of(found@) == with_names(before, concat_all(parts.take(i as int))),
                decreases entries.len() - i,
            {
                collect_from_entry(wanted, &entries[i], found);
                proof {
                    lemma_concat_all_take(parts, i as int);
                    lemma_with_names_concat(before, concat_all(parts.take(i as int)), parts[i as int]);
                }
                i += 1;
            }
            assert(parts.take(entries.len() as int) =~= parts);
        },
        Some(Variables::Mapping(pairs)) => {
            let ghost parts = pairs_of(pairs@).map_values(
                |p: (Seq<char>, Tree)| pair_mentions(wanted, p),
            );
            assert(parts.take(0) =~= Seq::<Seq<Seq<char>>>::empty());
            let mut i: usize = 0;
            while i < pairs.len()
                invariant
                    i <= pairs.len(),
                    parts == pairs_of(pairs@).map_values(
                        |p: (Seq<char>, Tree)| pair_mentions(wanted, p),
                    ),
                    names_of(found@) == with_names(before, concat_all(parts.take(i as int))),
                decreases pairs.len() - i,
            {
                collect_from_pair(wanted, &pairs[i], found);
                proof {
                    lemma_concat_all_take(parts, i as int);
                    lemma_with_names_concat(before, concat_all(parts.take(i as int)), parts[i as int]);
                }
                i += 1;
            }
            assert(parts.take(pairs.len() as int) =~= parts);
        },
        None => {},
    }
}

/// Adds to `found` what a stage mentions.
fn collect_from_stage(wanted: Wanted, stage: &Stage, found: &mut Vec<String>)
    ensures
        names_of(final(found)@) == with_names(
            names_of(old(found)@),
            stage_mentions(wanted, stage@),
        ),
{
    let ghost before = names_of(found@);
    let ghost own = section_mentions(wanted, stage@.variables);
    collect_from_section(wanted, &stage.variables, found);
    match &stage.jobs {
        Some(jobs) => {
            let ghost parts = jobs_of(jobs@).map_values(
                |j: JobView| section_mentions(wanted, j.variables),
            );
            assert(parts.take(0) =~= Seq::<Seq<Seq<char>>>::empty());
            assert(own + concat_all(parts.take(0)) =~= own);
            let mut i: usize = 0;
            while i < jobs.len()
                invariant
                    i <= jobs.len(),
                    parts == jobs_of(jobs@).map_values(
                        |j: JobView| section_mentions(wanted, j.variables),
                    ),
                    names_of(found@) == with_names(before, own + concat_all(parts.take(i as int))),
                decreases jobs.len() - i,
            {
                collect_from_section(wanted, &jobs[i].variables, found);
                proof {
                    lemma_concat_all_take(parts, i as int);
                    lemma_with_names_concat(
                        before,
                        own + concat_all(parts.take(i as int)),
                        parts[i as int],
                    );
                    assert(own + concat_all(parts.take(i + 1)) =~= own + concat_all(
                        parts.take(i as int),
                    ) + parts[i as int]);
                }
                i += 1;
            }
            assert(parts.take(jobs.len() as int) =~= parts);
        },
        None => {
            assert(own + Seq::<Seq<char>>::empty() =~= own);
        },
    }
}

/// Everything of one kind that a pipeline mentions, each name once, in the
/// order of first mention.
pub fn collect_from_pipeline(wanted: Wanted, pipeline: &Pipeline) -> (found: Vec<String>)
    ensures
        names_of(found@) == distinct(pipeline_mentions(wanted, pipeline@)),
{
    let mut found: Vec<String> = Vec::new();
    let ghost before = names_of(found@);
    assert(before =~= Seq::<Seq<char>>::empty());
    let ghost own = section_mentions(wanted, pipeline@.variables);
    collect_from_section(wanted, &pipeline.variables, &mut found);
    match &pipeline.stages {
        Some(stages) => {
            let ghost parts = stages_of(stages@).map_values(
                |s: StageView| stage_mentions(wanted, s),
            );
            assert(parts.take(0) =~= Seq::<Seq<Seq<char>>>::empty());
            assert(own + concat_all(parts.take(0)) =~= own);
            let mut i: usize = 0;
            while i < stages.len()
                invariant
                    i <= stages.len(),
                    parts == stages_of(stages@).map_values(
                        |s: StageView| stage_mentions(wanted, s),
                    ),
                    names_of(found@) == with_names(before, own + concat_all(parts.take(i as int))),
                decreases stages.len() - i,
            {
                collect_from_stage(wanted, &stages[i], &mut found);
                proof {
                    lemma_concat_all_take(parts, i as int);
                    lemma_with_names_concat(
                        before,
                        own + concat_all(parts.take(i as int)),
                        parts[i as int],
                    );
                    assert(own + concat_all(parts.take(i + 1)) =~= own + concat_all(
                        parts.take(i as int),
                    ) + parts[i as int]);
                }
                i += 1;
            }
            assert(parts.take(stages.len() as int) =~= parts);
        },
        None => {
            assert(own + Seq::<Seq<char>>::empty() =~= own);
        },
    }
    found
}

} // verus!
