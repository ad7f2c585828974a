//! What holds of extraction and classification for every document.

use vstd::prelude::*;
use crate::names::{
    distinct, lemma_concat_all_contains, lemma_distinct_contains, lemma_distinct_no_duplicates,
    lemma_with_names_concat, lemma_with_names_keeps_front, lemma_with_names_known, names_of,
};
use crate::extraction::{
    entry_mentions, inline_variable_names, is_conditional_key, is_special_key, jobs_mentions,
    key_mentions, mentions, mentions_in_entries, mentions_in_items, own_mentions, pair_mentions,
    pipeline_mentions, section_mentions, stage_mentions, stages_mentions, variable_groups,
    Wanted,
};
use crate::parser::{
    entry_of, keys_are_text, listed_entries, named_pairs, named_value, pipeline_of, stages_at,
    variables_at, variables_of, EntryView, JobView, Pipeline, PipelineView, StageView,
    VariablesView,
};
use crate::references::{is_skipped_name, kept_tokens, reference_names};
use crate::template::is_template_root;
use crate::tree::{
    entry_at, has_key, lemma_entry_at_first, lemma_entry_at_other_value, lemma_has_key, text_at,
    Tree,
};

verus! {

/// A block that a template expression opens: a mapping with the one key
/// `condition`, and `body` under it.
pub open spec fn conditional_block(condition: Seq<char>, body: Tree) -> Tree {
    Tree::Dict(seq![(Tree::Text(condition), body)])
}

/// A reference to the variable group `group`, as an item of a list.
pub open spec fn group_reference(group: Seq<char>) -> Tree {
    Tree::Dict(seq![(Tree::Text("group"@), Tree::Text(group))])
}

/// The definition of the variable `name` with the value `value`, as an item
/// of a list.
pub open spec fn variable_definition(name: Seq<char>, value: Seq<char>) -> Tree {
    Tree::Dict(seq![(Tree::Text("name"@), Tree::Text(name)), (Tree::Text("value"@), Tree::Text(value))])
}

/// `inner` inside one block for each of `conditions`, the first outermost;
/// the body of each block is a list with one item.
pub open spec fn nested(conditions: Seq<Seq<char>>, inner: Tree) -> Tree
    decreases conditions.len(),
{
    if conditions.len() == 0 {
        inner
    } else {
        conditional_block(conditions[0], Tree::List(seq![nested(conditions.drop_first(), inner)]))
    }
}

/// Whether `inner` stands in `outer`, `depth` steps down through items of
/// sequences and values of mappings.
pub open spec fn within(outer: Tree, inner: Tree, depth: nat) -> bool
    decreases depth,
{
    if depth == 0 {
        outer == inner
    } else {
        match outer {
            Tree::List(items) => exists|i: int|
                0 <= i < items.len() && within(#[trigger] items[i], inner, (depth - 1) as nat),
            Tree::Dict(entries) => exists|i: int|
                0 <= i < entries.len() && within(
                    (#[trigger] entries[i]).1,
                    inner,
                    (depth - 1) as nat,
                ),
            _ => false,
        }
    }
}

/// The variables `pairs`, each a name with its value, written as a mapping.
pub open spec fn variables_as_map(pairs: Seq<(Seq<char>, Seq<char>)>) -> Tree {
    Tree::Dict(pairs.map_values(|p: (Seq<char>, Seq<char>)| (Tree::Text(p.0), Tree::Text(p.1))))
}

/// The variables `pairs`, each a name with its value, written as a list of
/// definitions.
pub open spec fn variables_as_list(pairs: Seq<(Seq<char>, Seq<char>)>) -> Tree {
    Tree::List(pairs.map_values(|p: (Seq<char>, Seq<char>)| variable_definition(p.0, p.1)))
}

/// A template expression is none of the keys that give an entry its shape.
proof fn lemma_conditional_key_is_not_special(key: Seq<char>)
    requires
        is_conditional_key(key),
    ensures
        !is_special_key(key),
        key != "variables"@,
{
    reveal_strlit("${{");
    reveal_strlit("name");
    reveal_strlit("value");
    reveal_strlit("group");
    reveal_strlit("template");
    reveal_strlit("readonly");
    reveal_strlit("isSecret");
    reveal_strlit("variables");
    assert(key.subrange(0, 3)[0] == '$');
    assert(key[0] == '$');
}

/// The one item of a list mentions what the list mentions.
proof fn lemma_single_item(wanted: Wanted, item: Tree)
    ensures
        mentions(wanted, Tree::List(seq![item])) == mentions(wanted, item),
{
    let items = seq![item];
    assert(items.drop_last() =~= Seq::<Tree>::empty());
    assert(items.last() == item);
    assert(mentions_in_items(wanted, items.drop_last()) =~= Seq::<Seq<char>>::empty());
    assert(mentions_in_items(wanted, items) =~= mentions(wanted, item));
}

/// A mapping with one entry mentions what stands under its marker key, what
/// the key mentions and what the value mentions.
proof fn lemma_single_entry(wanted: Wanted, key: Tree, value: Tree)
    ensures
        mentions(wanted, Tree::Dict(seq![(key, value)])) == own_mentions(
            wanted,
            seq![(key, value)],
        ) + key_mentions(wanted, key) + mentions(wanted, value),
{
    let entries = seq![(key, value)];
    assert(entries.drop_last() =~= Seq::<(Tree, Tree)>::empty());
    assert(entries.last() == (key, value));
    assert(mentions_in_entries(wanted, entries.drop_last()) =~= Seq::<Seq<char>>::empty());
    assert(mentions_in_entries(wanted, entries) =~= key_mentions(wanted, key) + mentions(
        wanted,
        value,
    ));
}

/// In a mapping with one entry only that entry's key leads to a value.
proof fn lemma_entry_at_single(key: Tree, value: Tree, wanted_key: Seq<char>)
    ensures
        entry_at(seq![(key, value)], wanted_key) == if key == Tree::Text(wanted_key) {
            Some(value)
        } else {
            None
        },
{
    let entries = seq![(key, value)];
    assert(entries[0] == (key, value));
    assert(entries.drop_first() =~= Seq::<(Tree, Tree)>::empty());
    assert(entry_at(entries.drop_first(), wanted_key) is None);
}

/// One more entry at the end adds what its key and its value mention.
proof fn lemma_entries_push(wanted: Wanted, entries: Seq<(Tree, Tree)>, last: (Tree, Tree))
    ensures
        mentions_in_entries(wanted, entries.push(last)) == mentions_in_entries(wanted, entries)
            + key_mentions(wanted, last.0) + mentions(wanted, last.1),
{
    assert(entries.push(last).drop_last() =~= entries);
    assert(entries.push(last).last() == last);
}

/// A block under a template expression mentions exactly what the one item
/// of its body mentions.
pub proof fn lemma_block_is_transparent(wanted: Wanted, condition: Seq<char>, item: Tree)
    requires
        is_conditional_key(condition),
    ensures
        mentions(wanted, conditional_block(condition, Tree::List(seq![item]))) == mentions(
            wanted,
            item,
        ),
        entry_of(conditional_block(condition, Tree::List(seq![item]))) == EntryView::Conditional(
            conditional_block(condition, Tree::List(seq![item])),
        ),
{
    let body = Tree::List(seq![item]);
    let key = Tree::Text(condition);
    lemma_conditional_key_is_not_special(condition);
    lemma_single_entry(wanted, key, body);
    lemma_single_item(wanted, item);
    lemma_entry_at_single(key, body, "group"@);
    lemma_entry_at_single(key, body, "name"@);
    lemma_entry_at_single(key, body, "template"@);
    assert(own_mentions(wanted, seq![(key, body)]) =~= Seq::<Seq<char>>::empty());
    assert(key_mentions(wanted, key) =~= Seq::<Seq<char>>::empty());
    assert(Seq::<Seq<char>>::empty() + Seq::<Seq<char>>::empty() + mentions(wanted, item)
        =~= mentions(wanted, item));
}

/// Blocks around an item, however many, mention exactly what the item
/// mentions.
pub proof fn lemma_nesting_is_transparent(wanted: Wanted, conditions: Seq<Seq<char>>, inner: Tree)
    requires
        forall|i: int| 0 <= i < conditions.len() ==> is_conditional_key(#[trigger] conditions[i]),
    ensures
        mentions(wanted, nested(conditions, inner)) == mentions(wanted, inner),
    decreases conditions.len(),
{
    if conditions.len() > 0 {
        let rest = conditions.drop_first();
        assert forall|i: int| 0 <= i < rest.len() implies is_conditional_key(#[trigger] rest[i]) by {
            assert(rest[i] == conditions[i + 1]);
        }
        lemma_nesting_is_transparent(wanted, rest, inner);
        lemma_block_is_transparent(wanted, conditions[0], nested(rest, inner));
    }
}

/// A group reference is an entry of its own and mentions its group, as an
/// entry and as a value that is searched.
pub proof fn lemma_group_reference(group: Seq<char>)
    ensures
        entry_of(group_reference(group)) == (EntryView::Group { group }),
        mentions(Wanted::Groups, group_reference(group)) == seq![group],
{
    let key = Tree::Text("group"@);
    let value = Tree::Text(group);
    lemma_entry_at_single(key, value, "group"@);
    lemma_single_entry(Wanted::Groups, key, value);
    assert(seq![group] + Seq::<Seq<char>>::empty() + Seq::<Seq<char>>::empty() =~= seq![group]);
}

/// A definition is an entry of its own and mentions its name, as an entry
/// and as a value that is searched.
pub proof fn lemma_variable_definition(name: Seq<char>, value: Seq<char>)
    ensures
        entry_of(variable_definition(name, value)) == (EntryView::Named {
            name,
            value: Some(value),
        }),
        mentions(Wanted::Names, variable_definition(name, value)) == seq![name],
{
    reveal_strlit("name");
    reveal_strlit("value");
    reveal_strlit("group");
    reveal_strlit("template");
    let entries = variable_definition(name, value)->Dict_0;
    let rest = entries.drop_first();
    assert(entries[0] == (Tree::Text("name"@), Tree::Text(name)));
    assert(entries[1] == (Tree::Text("value"@), Tree::Text(value)));
    assert(rest =~= seq![(Tree::Text("value"@), Tree::Text(value))]);
    assert("name"@ != "group"@) by {
        assert("name"@[0] == 'n');
        assert("group"@[0] == 'g');
    }
    assert("value"@ != "group"@) by {
        assert("value"@[0] == 'v');
        assert("group"@[0] == 'g');
    }
    assert("name"@ != "value"@) by {
        assert("name"@[0] == 'n');
        assert("value"@[0] == 'v');
    }
    lemma_entry_at_single(Tree::Text("value"@), Tree::Text(value), "group"@);
    lemma_entry_at_single(Tree::Text("value"@), Tree::Text(value), "value"@);
    assert(entry_at(entries, "group"@) is None);
    assert(entry_at(entries, "name"@) == Some(Tree::Text(name)));
    assert(entry_at(entries, "value"@) == Some(Tree::Text(value)));
    assert(named_value(entries) == Some(Some(value)));

    let none = Seq::<(Tree, Tree)>::empty();
    let first = (Tree::Text("name"@), Tree::Text(name));
    let second = (Tree::Text("value"@), Tree::Text(value));
    assert(entries =~= none.push(first).push(second));
    assert(is_special_key("name"@));
    assert(is_special_key("value"@));
    lemma_entries_push(Wanted::Names, none, first);
    lemma_entries_push(Wanted::Names, none.push(first), second);
    assert(mentions_in_entries(Wanted::Names, none) =~= Seq::<Seq<char>>::empty());
    assert(key_mentions(Wanted::Names, first.0) =~= Seq::<Seq<char>>::empty());
    assert(key_mentions(Wanted::Names, second.0) =~= Seq::<Seq<char>>::empty());
    assert(mentions(Wanted::Names, first.1) =~= Seq::<Seq<char>>::empty());
    assert(mentions(Wanted::Names, second.1) =~= Seq::<Seq<char>>::empty());
    assert(mentions_in_entries(Wanted::Names, entries) =~= Seq::<Seq<char>>::empty());
    assert(own_mentions(Wanted::Names, entries) =~= seq![name]);
    assert(seq![name] + Seq::<Seq<char>>::empty() =~= seq![name]);
}

/// A group reference inside blocks of template expressions, at any depth,
/// is one entry of a list that mentions the group and nothing else, exactly
/// as the reference by itself.
pub proof fn lemma_conditional_group_entry(conditions: Seq<Seq<char>>, group: Seq<char>)
    requires
        forall|i: int| 0 <= i < conditions.len() ==> is_conditional_key(#[trigger] conditions[i]),
    ensures
        entry_mentions(Wanted::Groups, entry_of(nested(conditions, group_reference(group))))
            == seq![group],
        entry_mentions(Wanted::Groups, entry_of(group_reference(group))) == seq![group],
{
    lemma_group_reference(group);
    if conditions.len() > 0 {
        let rest = conditions.drop_first();
        assert forall|i: int| 0 <= i < rest.len() implies is_conditional_key(#[trigger] rest[i]) by {
            assert(rest[i] == conditions[i + 1]);
        }
        lemma_block_is_transparent(Wanted::Groups, conditions[0], nested(rest, group_reference(group)));
        lemma_nesting_is_transparent(Wanted::Groups, conditions, group_reference(group));
    }
}

/// A definition inside blocks of template expressions, at any depth, is one
/// entry of a list that mentions the name and nothing else, exactly as the
/// definition by itself.
pub proof fn lemma_conditional_definition_entry(
    conditions: Seq<Seq<char>>,
    name: Seq<char>,
    value: Seq<char>,
)
    requires
        forall|i: int| 0 <= i < conditions.len() ==> is_conditional_key(#[trigger] conditions[i]),
    ensures
        entry_mentions(Wanted::Names, entry_of(nested(conditions, variable_definition(name, value))))
            == seq![name],
        entry_mentions(Wanted::Names, entry_of(variable_definition(name, value))) == seq![name],
{
    lemma_variable_definition(name, value);
    if conditions.len() > 0 {
        let rest = conditions.drop_first();
        assert forall|i: int| 0 <= i < rest.len() implies is_conditional_key(#[trigger] rest[i]) by {
            assert(rest[i] == conditions[i + 1]);
        }
        lemma_block_is_transparent(
            Wanted::Names,
            conditions[0],
            nested(rest, variable_definition(name, value)),
        );
        lemma_nesting_is_transparent(Wanted::Names, conditions, variable_definition(name, value));
    }
}

/// Replacing an item of a `variables` list by one that mentions the same
/// leaves what the section mentions as it was.
proof fn lemma_item_replaced(wanted: Wanted, items: Seq<Tree>, at: int, replacement: Tree)
    requires
        0 <= at < items.len(),
        entry_mentions(wanted, entry_of(replacement)) == entry_mentions(
            wanted,
            entry_of(items[at]),
        ),
    ensures
        section_mentions(wanted, variables_of(Tree::List(items.update(at, replacement))))
            == section_mentions(wanted, variables_of(Tree::List(items))),
{
    let replaced = items.update(at, replacement);
    let old_parts = listed_entries(items).map_values(|e: EntryView| entry_mentions(wanted, e));
    let new_parts = listed_entries(replaced).map_values(|e: EntryView| entry_mentions(wanted, e));
    assert(new_parts =~= old_parts) by {
        assert forall|i: int| 0 <= i < items.len() implies new_parts[i] == old_parts[i] by {
            if i != at {
                assert(replaced[i] == items[i]);
            }
        }
    }
}

/// Conditional transparency. Putting one group reference of a `variables`
/// list inside blocks of template expressions, however deep, changes nothing
/// in what the section mentions: the reference is extracted exactly as if
/// it stood there without a condition.
pub proof fn lemma_conditional_transparency(
    items: Seq<Tree>,
    at: int,
    conditions: Seq<Seq<char>>,
    group: Seq<char>,
)
    requires
        0 <= at < items.len(),
        items[at] == group_reference(group),
        forall|i: int| 0 <= i < conditions.len() ==> is_conditional_key(#[trigger] conditions[i]),
    ensures
        section_mentions(
            Wanted::Groups,
            variables_of(Tree::List(items.update(at, nested(conditions, group_reference(group))))),
        ) == section_mentions(Wanted::Groups, variables_of(Tree::List(items))),
{
    lemma_conditional_group_entry(conditions, group);
    lemma_item_replaced(Wanted::Groups, items, at, nested(conditions, group_reference(group)));
}

/// Conditional transparency, for a whole document. Where the `variables`
/// of a document are a list, putting one of its group references inside
/// blocks of template expressions, however deep, leaves the groups that are
/// extracted from the document exactly as they were.
pub proof fn lemma_conditional_transparency_of_documents(
    fields: Seq<(Tree, Tree)>,
    section: int,
    items: Seq<Tree>,
    at: int,
    conditions: Seq<Seq<char>>,
    group: Seq<char>,
)
    requires
        0 <= section < fields.len(),
        fields[section] == (Tree::Text("variables"@), Tree::List(items)),
        forall|j: int| 0 <= j < section ==> fields[j].0 != Tree::Text("variables"@),
        0 <= at < items.len(),
        items[at] == group_reference(group),
        forall|i: int| 0 <= i < conditions.len() ==> is_conditional_key(#[trigger] conditions[i]),
    ensures
        variable_groups(
            pipeline_of(
                Tree::Dict(
                    fields.update(
                        section,
                        (
                            Tree::Text("variables"@),
                            Tree::List(items.update(at, nested(conditions, group_reference(group)))),
                        ),
                    ),
                ),
            ),
        ) == variable_groups(pipeline_of(Tree::Dict(fields))),
{
    let wrapped = Tree::List(items.update(at, nested(conditions, group_reference(group))));
    let changed = fields.update(section, (Tree::Text("variables"@), wrapped));
    reveal_strlit("variables");
    reveal_strlit("stages");
    assert("variables"@ != "stages"@) by {
        assert("variables"@[0] == 'v');
        assert("stages"@[0] == 's');
    }
    lemma_entry_at_first(fields, "variables"@, section);
    assert forall|j: int| 0 <= j < section implies changed[j].0 != Tree::Text("variables"@) by {
        assert(changed[j] == fields[j]);
    }
    lemma_entry_at_first(changed, "variables"@, section);
    lemma_entry_at_other_value(fields, section, wrapped, "stages"@);
    assert(stages_at(changed) == stages_at(fields));
    lemma_conditional_transparency(items, at, conditions, group);
}

/// The same holds of a definition: inside blocks of template expressions,
/// however deep, it defines its variable exactly as without a condition.
pub proof fn lemma_conditional_definition_transparency(
    items: Seq<Tree>,
    at: int,
    conditions: Seq<Seq<char>>,
    name: Seq<char>,
    value: Seq<char>,
)
    requires
        0 <= at < items.len(),
        items[at] == variable_definition(name, value),
        forall|i: int| 0 <= i < conditions.len() ==> is_conditional_key(#[trigger] conditions[i]),
    ensures
        section_mentions(
            Wanted::Names,
            variables_of(
                Tree::List(items.update(at, nested(conditions, variable_definition(name, value)))),
            ),
        ) == section_mentions(Wanted::Names, variables_of(Tree::List(items))),
{
    lemma_conditional_definition_entry(conditions, name, value);
    lemma_item_replaced(
        Wanted::Names,
        items,
        at,
        nested(conditions, variable_definition(name, value)),
    );
}

/// What stands anywhere inside a value is mentioned by the value: a mapping
/// with a text under the marker key, at whatever depth, has that text among
/// the mentions of the whole.
pub proof fn lemma_mentions_reach_every_depth(
    wanted: Wanted,
    outer: Tree,
    entries: Seq<(Tree, Tree)>,
    name: Seq<char>,
    depth: nat,
)
    requires
        within(outer, Tree::Dict(entries), depth),
        own_mentions(wanted, entries) == seq![name],
    ensures
        mentions(wanted, outer).contains(name),
    decreases depth,
{
    if depth == 0 {
        let all = own_mentions(wanted, entries) + mentions_in_entries(wanted, entries);
        assert(all[0] == name);
    } else {
        match outer {
            Tree::List(items) => {
                let i = choose|i: int|
                    0 <= i < items.len() && within(
                        #[trigger] items[i],
                        Tree::Dict(entries),
                        (depth - 1) as nat,
                    );
                lemma_mentions_reach_every_depth(wanted, items[i], entries, name, (depth - 1) as nat);
                lemma_item_mentions(wanted, items, i, name);
            },
            Tree::Dict(fields) => {
                let i = choose|i: int|
                    0 <= i < fields.len() && within(
                        (#[trigger] fields[i]).1,
                        Tree::Dict(entries),
                        (depth - 1) as nat,
                    );
                lemma_mentions_reach_every_depth(
                    wanted,
                    fields[i].1,
                    entries,
                    name,
                    (depth - 1) as nat,
                );
                lemma_value_mentions(wanted, fields, i, name);
                let own = own_mentions(wanted, fields);
                let rest = mentions_in_entries(wanted, fields);
                let k = choose|k: int| 0 <= k < rest.len() && rest[k] == name;
                assert((own + rest)[own.len() + k] == name);
            },
            _ => {},
        }
    }
}

/// What an item mentions, the sequence mentions.
proof fn lemma_item_mentions(wanted: Wanted, items: Seq<Tree>, i: int, name: Seq<char>)
    requires
        0 <= i < items.len(),
        mentions(wanted, items[i]).contains(name),
    ensures
        mentions_in_items(wanted, items).contains(name),
    decreases items.len(),
{
    let front = mentions_in_items(wanted, items.drop_last());
    let last = mentions(wanted, items.last());
    if i == items.len() - 1 {
        let k = choose|k: int| 0 <= k < last.len() && last[k] == name;
        assert((front + last)[front.len() + k] == name);
    } else {
        assert(items.drop_last()[i] == items[i]);
        lemma_item_mentions(wanted, items.drop_last(), i, name);
        let k = choose|k: int| 0 <= k < front.len() && front[k] == name;
        assert((front + last)[k] == name);
    }
}

/// What the value of an entry mentions, the entries mention.
proof fn lemma_value_mentions(
    wanted: Wanted,
    entries: Seq<(Tree, Tree)>,
    i: int,
    name: Seq<char>,
)
    requires
        0 <= i < entries.len(),
        mentions(wanted, entries[i].1).contains(name),
    ensures
        mentions_in_entries(wanted, entries).contains(name),
    decreases entries.len(),
{
    let front = mentions_in_entries(wanted, entries.drop_last());
    let by_key = key_mentions(wanted, entries.last().0);
    let by_value = mentions(wanted, entries.last().1);
    if i == entries.len() - 1 {
        let k = choose|k: int| 0 <= k < by_value.len() && by_value[k] == name;
        assert((front + by_key + by_value)[front.len() + by_key.len() + k] == name);
    } else {
        assert(entries.drop_last()[i] == entries[i]);
        lemma_value_mentions(wanted, entries.drop_last(), i, name);
        let k = choose|k: int| 0 <= k < front.len() && front[k] == name;
        assert((front + by_key + by_value)[k] == name);
    }
}

/// No group is lost to a condition. A group that a mapping names, at any
/// depth inside a kept entry of the pipeline's own `variables` list, is
/// among the groups of the pipeline.
pub proof fn lemma_conditional_group_is_extracted(
    pipeline: PipelineView,
    at: int,
    entries: Seq<(Tree, Tree)>,
    group: Seq<char>,
    depth: nat,
)
    requires
        pipeline.variables is Some,
        pipeline.variables->0 is List,
        0 <= at < pipeline.variables->0->List_0.len(),
        pipeline.variables->0->List_0[at] is Conditional,
        within(pipeline.variables->0->List_0[at]->Conditional_0, Tree::Dict(entries), depth),
        text_at(entries, "group"@) == Some(group),
    ensures
        variable_groups(pipeline).contains(group),
{
    let listed = pipeline.variables->0->List_0;
    lemma_kept_entry_is_searched(Wanted::Groups, listed, at, entries, group, depth);
    lemma_own_section_counts(Wanted::Groups, pipeline, group);
}

/// Every level is searched: a name that the pipeline's own section
/// mentions is among what is extracted.
pub proof fn lemma_own_section_counts(wanted: Wanted, pipeline: PipelineView, name: Seq<char>)
    requires
        section_mentions(wanted, pipeline.variables).contains(name),
    ensures
        distinct(pipeline_mentions(wanted, pipeline)).contains(name),
{
    let own = section_mentions(wanted, pipeline.variables);
    let later = stages_mentions(wanted, pipeline.stages);
    let k = choose|k: int| 0 <= k < own.len() && own[k] == name;
    assert((own + later)[k] == name);
    lemma_distinct_contains(pipeline_mentions(wanted, pipeline), name);
}

/// Every level is searched: a name that the section of a stage mentions is
/// among what is extracted.
pub proof fn lemma_stage_section_counts(
    wanted: Wanted,
    pipeline: PipelineView,
    stage: int,
    name: Seq<char>,
)
    requires
        pipeline.stages is Some,
        0 <= stage < pipeline.stages->0.len(),
        section_mentions(wanted, pipeline.stages->0[stage].variables).contains(name),
    ensures
        distinct(pipeline_mentions(wanted, pipeline)).contains(name),
{
    let the_stage = pipeline.stages->0[stage];
    let own = section_mentions(wanted, the_stage.variables);
    let of_jobs = jobs_mentions(wanted, the_stage.jobs);
    let k = choose|k: int| 0 <= k < own.len() && own[k] == name;
    assert((own + of_jobs)[k] == name);
    lemma_stage_counts(wanted, pipeline, stage, name);
}

/// Every level is searched: a name that the section of a job mentions is
/// among what is extracted.
pub proof fn lemma_job_section_counts(
    wanted: Wanted,
    pipeline: PipelineView,
    stage: int,
    job: int,
    name: Seq<char>,
)
    requires
        pipeline.stages is Some,
        0 <= stage < pipeline.stages->0.len(),
        pipeline.stages->0[stage].jobs is Some,
        0 <= job < pipeline.stages->0[stage].jobs->0.len(),
        section_mentions(wanted, pipeline.stages->0[stage].jobs->0[job].variables).contains(name),
    ensures
        distinct(pipeline_mentions(wanted, pipeline)).contains(name),
{
    let the_stage = pipeline.stages->0[stage];
    let jobs = the_stage.jobs->0;
    let parts = jobs.map_values(|j: JobView| section_mentions(wanted, j.variables));
    assert(parts[job] == section_mentions(wanted, jobs[job].variables));
    lemma_concat_all_contains(parts, job, name);
    let own = section_mentions(wanted, the_stage.variables);
    let of_jobs = jobs_mentions(wanted, the_stage.jobs);
    let k = choose|k: int| 0 <= k < of_jobs.len() && of_jobs[k] == name;
    assert((own + of_jobs)[own.len() + k] == name);
    lemma_stage_counts(wanted, pipeline, stage, name);
}

/// A name that a stage mentions is among what is extracted.
proof fn lemma_stage_counts(wanted: Wanted, pipeline: PipelineView, stage: int, name: Seq<char>)
    requires
        pipeline.stages is Some,
        0 <= stage < pipeline.stages->0.len(),
        stage_mentions(wanted, pipeline.stages->0[stage]).contains(name),
    ensures
        distinct(pipeline_mentions(wanted, pipeline)).contains(name),
{
    let stages = pipeline.stages->0;
    let parts = stages.map_values(|s: StageView| stage_mentions(wanted, s));
    assert(parts[stage] == stage_mentions(wanted, stages[stage]));
    lemma_concat_all_contains(parts, stage, name);
    let own = section_mentions(wanted, pipeline.variables);
    let later = stages_mentions(wanted, pipeline.stages);
    let k = choose|k: int| 0 <= k < later.len() && later[k] == name;
    assert((own + later)[own.len() + k] == name);
    lemma_distinct_contains(pipeline_mentions(wanted, pipeline), name);
}

/// Nothing is lost to a condition. What a mapping gives under the marker
/// key, at any depth inside a kept entry of a section, the section
/// mentions.
pub proof fn lemma_kept_entry_is_searched(
    wanted: Wanted,
    listed: Seq<EntryView>,
    at: int,
    entries: Seq<(Tree, Tree)>,
    name: Seq<char>,
    depth: nat,
)
    requires
        0 <= at < listed.len(),
        listed[at] is Conditional,
        within(listed[at]->Conditional_0, Tree::Dict(entries), depth),
        own_mentions(wanted, entries) == seq![name],
    ensures
        section_mentions(wanted, Some(VariablesView::List(listed))).contains(name),
{
    let kept = listed[at]->Conditional_0;
    lemma_mentions_reach_every_depth(wanted, kept, entries, name, depth);
    let parts = listed.map_values(|e: EntryView| entry_mentions(wanted, e));
    assert(parts[at] == mentions(wanted, kept));
    lemma_concat_all_contains(parts, at, name);
}

/// Map and list say the same. Variables written as a mapping from names to
/// values define the same names, in the same order, as the same variables
/// written as a list of definitions, as long as no name is a template
/// expression.
pub proof fn lemma_map_and_list_agree(pairs: Seq<(Seq<char>, Seq<char>)>)
    requires
        forall|i: int| 0 <= i < pairs.len() ==> !is_conditional_key((#[trigger] pairs[i]).0),
    ensures
        section_mentions(Wanted::Names, variables_of(variables_as_map(pairs))) == section_mentions(
            Wanted::Names,
            variables_of(variables_as_list(pairs)),
        ),
        distinct(section_mentions(Wanted::Names, variables_of(variables_as_map(pairs)))).to_set()
            == distinct(
            section_mentions(Wanted::Names, variables_of(variables_as_list(pairs))),
        ).to_set(),
{
    let as_map = variables_as_map(pairs)->Dict_0;
    let as_list = variables_as_list(pairs)->List_0;
    assert(keys_are_text(as_map));
    let map_parts = named_pairs(as_map).map_values(
        |p: (Seq<char>, Tree)| pair_mentions(Wanted::Names, p),
    );
    let list_parts = listed_entries(as_list).map_values(
        |e: EntryView| entry_mentions(Wanted::Names, e),
    );
    assert(map_parts =~= list_parts) by {
        assert forall|i: int| 0 <= i < pairs.len() implies map_parts[i] == list_parts[i] by {
            lemma_variable_definition(pairs[i].0, pairs[i].1);
            assert(as_list[i] == variable_definition(pairs[i].0, pairs[i].1));
            assert(named_pairs(as_map)[i] == (pairs[i].0, Tree::Text(pairs[i].1)));
        }
    }
}

/// Template classification. A mapping that declares `parameters` and has
/// neither `trigger` nor `pr` is a template, and stops being one as soon as
/// a `trigger` key is added, wherever it is put.
pub proof fn lemma_trigger_makes_a_pipeline(entries: Seq<(Tree, Tree)>, at: int, trigger: Tree)
    requires
        has_key(entries, "parameters"@),
        !has_key(entries, "trigger"@),
        !has_key(entries, "pr"@),
        0 <= at <= entries.len(),
    ensures
        is_template_root(Tree::Dict(entries)),
        !is_template_root(Tree::Dict(entries.insert(at, (Tree::Text("trigger"@), trigger)))),
{
    let with_trigger = entries.insert(at, (Tree::Text("trigger"@), trigger));
    assert(with_trigger[at].0 == Tree::Text("trigger"@));
    lemma_has_key(with_trigger, "trigger"@);
}

/// The tokens that are kept are exactly those that took part in a match and
/// are not skipped.
proof fn lemma_kept_tokens(tokens: Seq<Option<Seq<char>>>, name: Seq<char>)
    ensures
        kept_tokens(tokens).contains(name) <==> (tokens.contains(Some(name)) && !is_skipped_name(
            name,
        )),
    decreases tokens.len(),
{
    if tokens.len() > 0 {
        let front = tokens.drop_last();
        lemma_kept_tokens(front, name);
        let kept = kept_tokens(front);
        if front.contains(Some(name)) {
            let i = choose|i: int| 0 <= i < front.len() && front[i] == Some(name);
            assert(tokens[i] == Some(name));
        }
        if tokens.contains(Some(name)) {
            let i = choose|i: int| 0 <= i < tokens.len() && tokens[i] == Some(name);
            if i < front.len() {
                assert(front[i] == Some(name));
            }
        }
        assert(tokens[tokens.len() - 1] == tokens.last());
        match tokens.last() {
            Some(last) => {
                if !is_skipped_name(last) {
                    let all = kept.push(last);
                    assert(all[kept.len() as int] == last);
                    if kept.contains(name) {
                        let i = choose|i: int| 0 <= i < kept.len() && kept[i] == name;
                        assert(all[i] == name);
                    }
                }
            },
            None => {},
        }
    }
}

/// The filter is complete and lets nothing else through. A name is among
/// the usages that are reported exactly if a match gave it and none of the
/// rules skips it.
pub proof fn lemma_filter_is_exact(tokens: Seq<Option<Seq<char>>>, name: Seq<char>)
    ensures
        reference_names(tokens).contains(name) <==> (tokens.contains(Some(name))
            && !is_skipped_name(name)),
{
    lemma_kept_tokens(tokens, name);
    lemma_distinct_contains(kept_tokens(tokens), name);
}

/// The first mention wins. What is extracted from the beginning of the
/// mentions stays in front, in its order, whatever is mentioned later.
pub proof fn lemma_first_mention_wins(earlier: Seq<Seq<char>>, later: Seq<Seq<char>>)
    ensures
        distinct(earlier).is_prefix_of(distinct(earlier + later)),
{
    lemma_with_names_concat(Seq::empty(), earlier, later);
    lemma_with_names_keeps_front(distinct(earlier), later);
}

/// Mentioning again what was mentioned before changes nothing.
pub proof fn lemma_repeats_add_nothing(earlier: Seq<Seq<char>>, later: Seq<Seq<char>>)
    requires
        forall|i: int| 0 <= i < later.len() ==> earlier.contains(#[trigger] later[i]),
    ensures
        distinct(earlier + later) == distinct(earlier),
{
    lemma_with_names_concat(Seq::empty(), earlier, later);
    assert forall|i: int| 0 <= i < later.len() implies distinct(earlier).contains(
        #[trigger] later[i],
    ) by {
        lemma_distinct_contains(earlier, later[i]);
    }
    lemma_with_names_known(distinct(earlier), later);
}

/// Determinism. The names extracted from a pipeline depend on nothing but
/// the pipeline: two extractions from pipelines with the same content give
/// the same names in the same order.
pub proof fn lemma_extraction_is_determined(
    first: Pipeline,
    second: Pipeline,
    first_groups: Vec<String>,
    second_groups: Vec<String>,
    first_names: Vec<String>,
    second_names: Vec<String>,
)
    requires
        first@ == second@,
        names_of(first_groups@) == variable_groups(first@),
        names_of(second_groups@) == variable_groups(second@),
        names_of(first_names@) == inline_variable_names(first@),
        names_of(second_names@) == inline_variable_names(second@),
    ensures
        names_of(first_groups@) == names_of(second_groups@),
        names_of(first_names@) == names_of(second_names@),
{
}

/// No duplicates. What is extracted from a pipeline holds each name once:
/// it has as many entries as it has different names.
pub proof fn lemma_extraction_has_no_duplicates(pipeline: PipelineView)
    ensures
        variable_groups(pipeline).no_duplicates(),
        variable_groups(pipeline).to_set().len() == variable_groups(pipeline).len(),
        inline_variable_names(pipeline).no_duplicates(),
        inline_variable_names(pipeline).to_set().len() == inline_variable_names(pipeline).len(),
{
    lemma_distinct_no_duplicates(pipeline_mentions(Wanted::Groups, pipeline));
    lemma_distinct_no_duplicates(pipeline_mentions(Wanted::Names, pipeline));
}

} // verus!
