//! Matching what a pipeline refers to against what is known to exist.

use vstd::prelude::*;
use vstd::string::StringExecFns;
use crate::names::{contains_name, names_of};
use crate::text::same_text;

verus! {

/// What was found out about one variable group.
#[derive(Debug)]
pub struct GroupValidationResult {
    /// Name of the group.
    pub group_name: String,
    /// Whether the group exists.
    pub exists: bool,
    /// Why the lookup failed, where it did.
    pub error: Option<String>,
    /// The group's id, where it was found.
    pub group_id: Option<i32>,
}

/// Where a variable comes from.
#[derive(Debug, PartialEq)]
pub enum VariableSource {
    /// A variable group, by name.
    Group(String),
    /// A definition in the pipeline itself.
    Inline,
    /// Nowhere.
    NotFound,
}

/// What was found out about one variable usage.
#[derive(Debug)]
pub struct VariableValidationResult {
    /// Name of the variable.
    pub variable_name: String,
    /// The group that holds it, where one does.
    pub group_name: Option<String>,
    /// Whether the variable is defined anywhere.
    pub exists: bool,
    /// Why it counts as missing, where it does.
    pub error: Option<String>,
    /// Where it comes from.
    pub source: VariableSource,
}

impl Clone for VariableSource {
    fn clone(&self) -> (copy: VariableSource)
        ensures
            copy == *self,
    {
        match self {
            VariableSource::Group(name) => VariableSource::Group(name.clone()),
            VariableSource::Inline => VariableSource::Inline,
            VariableSource::NotFound => VariableSource::NotFound,
        }
    }
}

/// A `GroupValidationResult` as contracts speak of it.
pub struct GroupResultView {
    pub group_name: Seq<char>,
    pub exists: bool,
    pub error: Option<Seq<char>>,
    pub group_id: Option<i32>,
}

/// A `VariableSource` as contracts speak of it.
pub enum SourceView {
    Group(Seq<char>),
    Inline,
    NotFound,
}

/// A `VariableValidationResult` as contracts speak of it.
pub struct VariableResultView {
    pub variable_name: Seq<char>,
    pub group_name: Option<Seq<char>>,
    pub exists: bool,
    pub error: Option<Seq<char>>,
    pub source: SourceView,
}

/// The characters of an optional text.
pub open spec fn text_view(text: Option<String>) -> Option<Seq<char>> {
    match text {
        Some(s) => Some(s@),
        None => None,
    }
}

impl View for GroupValidationResult {
    type V = GroupResultView;

    open spec fn view(&self) -> GroupResultView {
        GroupResultView {
            group_name: self.group_name@,
            exists: self.exists,
            error: text_view(self.error),
            group_id: self.group_id,
        }
    }
}

impl View for VariableSource {
    type V = SourceView;

    open spec fn view(&self) -> SourceView {
        match self {
            VariableSource::Group(name) => SourceView::Group(name@),
            VariableSource::Inline => SourceView::Inline,
            VariableSource::NotFound => SourceView::NotFound,
        }
    }
}

impl View for VariableValidationResult {
    type V = VariableResultView;

    open spec fn view(&self) -> VariableResultView {
        VariableResultView {
            variable_name: self.variable_name@,
            group_name: text_view(self.group_name),
            exists: self.exists,
            error: text_view(self.error),
            source: self.source@,
        }
    }
}

/// Pairs of a variable's name and its group's name, each as its characters.
pub open spec fn pairs_of(pairs: Seq<(String, String)>) -> Seq<(Seq<char>, Seq<char>)> {
    pairs.map_values(|p: (String, String)| (p.0@, p.1@))
}

/// The views of a list of group results.
pub open spec fn group_results_of(results: Seq<GroupValidationResult>) -> Seq<GroupResultView> {
    results.map_values(|r: GroupValidationResult| r@)
}

/// The outcome of looking one group up: its id, or why there is none.
pub open spec fn lookup_of(lookup: Result<i32, String>) -> Result<i32, Seq<char>> {
    match lookup {
        Ok(id) => Ok(id),
        Err(message) => Err(message@),
    }
}

/// The member lists that were fetched, as contracts speak of them.
pub open spec fn members_of(members: Seq<Option<Vec<String>>>) -> Seq<Option<Seq<Seq<char>>>> {
    members.map_values(
        |m: Option<Vec<String>>|
            match m {
                Some(names) => Some(names_of(names@)),
                None => None,
            },
    )
}

/// What is recorded for a group after its lookup: found groups exist and
/// carry their id, the others carry the reason.
pub open spec fn group_verdict(name: Seq<char>, lookup: Result<i32, Seq<char>>) -> GroupResultView {
    match lookup {
        Ok(id) => GroupResultView { group_name: name, exists: true, error: None, group_id: Some(id) },
        Err(message) => GroupResultView {
            group_name: name,
            exists: false,
            error: Some(message),
            group_id: None,
        },
    }
}

/// The group of the first pair in `available` that holds the variable `name`.
pub open spec fn group_holding(available: Seq<(Seq<char>, Seq<char>)>, name: Seq<char>) -> Option<
    Seq<char>,
>
    decreases available.len(),
{
    if available.len() == 0 {
        None
    } else if available[0].0 == name {
        Some(available[0].1)
    } else {
        group_holding(available.drop_first(), name)
    }
}

/// What is recorded for a usage of `name`: an inline definition comes first,
/// then the first group that holds the name; otherwise it is missing.
pub open spec fn variable_verdict(
    name: Seq<char>,
    available: Seq<(Seq<char>, Seq<char>)>,
    inline: Seq<Seq<char>>,
) -> VariableResultView {
    if inline.contains(name) {
        VariableResultView {
            variable_name: name,
            group_name: None,
            exists: true,
            error: None,
            source: SourceView::Inline,
        }
    } else {
        match group_holding(available, name) {
            Some(group) => VariableResultView {
                variable_name: name,
                group_name: Some(group),
                exists: true,
                error: None,
                source: SourceView::Group(group),
            },
            None => VariableResultView {
                variable_name: name,
                group_name: None,
                exists: false,
                error: Some("Variable not found in any referenced variable group"@),
                source: SourceView::NotFound,
            },
        }
    }
}

/// The id under which a group's members can be asked for: that of a group
/// that exists and whose id is known.
pub open spec fn fetchable_id(result: GroupResultView) -> Option<i32> {
    if result.exists {
        result.group_id
    } else {
        None
    }
}

/// Each of `names` with the name of its group.
pub open spec fn paired_with(names: Seq<Seq<char>>, group: Seq<char>) -> Seq<
    (Seq<char>, Seq<char>),
> {
    names.map_values(|n: Seq<char>| (n, group))
}

/// The pairs that one group contributes: each fetched member with the
/// group's name. A group that cannot be fetched, or was not, gives none.
pub open spec fn pairs_from_group(result: GroupResultView, members: Option<Seq<Seq<char>>>) -> Seq<
    (Seq<char>, Seq<char>),
> {
    match (fetchable_id(result), members) {
        (Some(_), Some(names)) => paired_with(names, result.group_name),
        _ => Seq::empty(),
    }
}

/// The pairs that the first `count` groups contribute, group after group. A
/// group without an entry in `members` counts as not fetched.
pub open spec fn pairs_from_groups(
    results: Seq<GroupResultView>,
    members: Seq<Option<Seq<Seq<char>>>>,
    count: nat,
) -> Seq<(Seq<char>, Seq<char>)>
    decreases count,
{
    if count == 0 || count > results.len() {
        Seq::empty()
    } else {
        let i = (count - 1) as int;
        pairs_from_groups(results, members, (count - 1) as nat) + pairs_from_group(
            results[i],
            if i < members.len() {
                members[i]
            } else {
                None
            },
        )
    }
}

/// All pairs that the groups contribute.
pub open spec fn available_from(
    results: Seq<GroupResultView>,
    members: Seq<Option<Seq<Seq<char>>>>,
) -> Seq<(Seq<char>, Seq<char>)> {
    pairs_from_groups(results, members, results.len())
}

/// The first pair with the name decides, whatever follows it.
pub proof fn lemma_group_holding_first(
    available: Seq<(Seq<char>, Seq<char>)>,
    name: Seq<char>,
    i: int,
)
    requires
        0 <= i < available.len(),
        available[i].0 == name,
        forall|j: int| 0 <= j < i ==> available[j].0 != name,
    ensures
        group_holding(available, name) == Some(available[i].1),
    decreases i,
{
    if i > 0 {
        let rest = available.drop_first();
        assert(rest[i - 1] == available[i]);
        assert forall|j: int| 0 <= j < i - 1 implies rest[j].0 != name by {
            assert(rest[j] == available[j + 1]);
        }
        lemma_group_holding_first(rest, name, i - 1);
    }
}

/// Without a pair of that name there is no group.
pub proof fn lemma_group_holding_absent(available: Seq<(Seq<char>, Seq<char>)>, name: Seq<char>)
    requires
        forall|j: int| 0 <= j < available.len() ==> available[j].0 != name,
    ensures
        group_holding(available, name) is None,
    decreases available.len(),
{
    if available.len() > 0 {
        let rest = available.drop_first();
        assert forall|j: int| 0 <= j < rest.len() implies rest[j].0 != name by {
            assert(rest[j] == available[j + 1]);
        }
        lemma_group_holding_absent(rest, name);
    }
}

/// The group of the first pair in `available` that holds `name`.
fn find_group<'a>(available: &'a [(String, String)], name: &str) -> (found: Option<&'a String>)
    ensures
        match found {
            Some(group) => group_holding(pairs_of(available@), name@) == Some(group@),
            None => group_holding(pairs_of(available@), name@) is None,
        },
{
    let mut i: usize = 0;
    while i < available.len()
        invariant
            i <= available.len(),
            forall|j: int| 0 <= j < i ==> pairs_of(available@)[j].0 != name@,
        decreases available.len() - i,
    {
        if same_text(available[i].0.as_str(), name) {
            proof {
                lemma_group_holding_first(pairs_of(available@), name@, i as int);
            }
            return Some(&available[i].1);
        }
        i += 1;
    }
    proof {
        lemma_group_holding_absent(pairs_of(available@), name@);
    }
    None
}

/// Records, for each group that was looked up, whether it exists.
pub fn validate_variable_groups(lookups: Vec<(String, Result<i32, String>)>) -> (results: Vec<
    GroupValidationResult,
>)
    ensures
        results@.len() == lookups@.len(),
        forall|i: int|
            0 <= i < lookups@.len() ==> (#[trigger] results@[i])@ == group_verdict(
                lookups@[i].0@,
                lookup_of(lookups@[i].1),
            ),
{
    let mut results: Vec<GroupValidationResult> = Vec::new();
    let mut i: usize = 0;
    while i < lookups.len()
        invariant
            i <= lookups.len(),
            results@.len() == i,
            forall|j: int|
                0 <= j < i ==> (#[trigger] results@[j])@ == group_verdict(
                    lookups@[j].0@,
                    lookup_of(lookups@[j].1),
                ),
        decreases lookups.len() - i,
    {
        let group_name = lookups[i].0.clone();
        let result = match &lookups[i].1 {
            Ok(id) => GroupValidationResult {
                group_name,
                exists: true,
                error: None,
                group_id: Some(*id),
            },
            Err(message) => GroupValidationResult {
                group_name,
                exists: false,
                error: Some(message.clone()),
                group_id: None,
            },
        };
        results.push(result);
        i += 1;
    }
    results
}

/// The id under which the members of a group can be asked for, if any.
pub fn fetchable_group_id(result: &GroupValidationResult) -> (id: Option<i32>)
    ensures
        id == fetchable_id(result@),
{
    if result.exists {
        result.group_id
    } else {
        None
    }
}

/// The variables that the groups make available, each with its group's name,
/// from the member lists that were fetched for them.
pub fn collect_available(
    group_validation_results: &[GroupValidationResult],
    group_members: &[Option<Vec<String>>],
) -> (available: Vec<(String, String)>)
    ensures
        pairs_of(available@) == available_from(
            group_results_of(group_validation_results@),
            members_of(group_members@),
        ),
{
    let ghost results = group_results_of(group_validation_results@);
    let ghost members = members_of(group_members@);
    let mut available: Vec<(String, String)> = Vec::new();
    let mut i: usize = 0;
    assert(pairs_of(available@) =~= pairs_from_groups(results, members, 0));
    while i < group_validation_results.len()
        invariant
            i <= group_validation_results.len(),
            results == group_results_of(group_validation_results@),
            members == members_of(group_members@),
            pairs_of(available@) == pairs_from_groups(results, members, i as nat),
        decreases group_validation_results.len() - i,
    {
        let result = &group_validation_results[i];
        let ghost before = pairs_of(available@);
        let ghost fetched = if i < members.len() {
            members[i as int]
        } else {
            None
        };
        if i < group_members.len() {
            if let Some(id) = fetchable_group_id(result) {
                if let Some(names) = &group_members[i] {
                    let mut k: usize = 0;
                    assert(pairs_of(available@) =~= before + paired_with(
                        names_of(names@).take(0),
                        result.group_name@,
                    ));
                    while k < names.len()
                        invariant
                            k <= names.len(),
                            pairs_of(available@) == before + paired_with(
                                names_of(names@).take(k as int),
                                result.group_name@,
                            ),
                        decreases names.len() - k,
                    {
                        let ghost prev = pairs_of(available@);
                        available.push((names[k].clone(), result.group_name.clone()));
                        proof {
                            assert(pairs_of(available@) =~= prev.push(
                                (names@[k as int]@, result.group_name@),
                            ));
                            assert(names_of(names@).take(k + 1) =~= names_of(names@).take(
                                k as int,
                            ).push(names@[k as int]@));
                            assert(paired_with(names_of(names@).take(k + 1), result.group_name@)
                                =~= paired_with(
                                names_of(names@).take(k as int),
                                result.group_name@,
                            ).push((names@[k as int]@, result.group_name@)));
                        }
                        k += 1;
                    }
                    assert(names_of(names@).take(names.len() as int) =~= names_of(names@));
                }
            }
        }
        assert(pairs_of(available@) =~= before + pairs_from_group(results[i as int], fetched));
        i += 1;
    }
    available
}

/// Decides, for each usage, where its variable comes from: an inline
/// definition, a group, or nowhere.
pub fn validate_variables_against_available_with_inline(
    variable_references: Vec<String>,
    available_variables: &[(String, String)],
    inline_variables: &[String],
) -> (results: Vec<VariableValidationResult>)
    ensures
        results@.len() == variable_references@.len(),
        forall|i: int|
            0 <= i < variable_references@.len() ==> (#[trigger] results@[i])@ == variable_verdict(
                variable_references@[i]@,
                pairs_of(available_variables@),
                names_of(inline_variables@),
            ),
{
    let mut results: Vec<VariableValidationResult> = Vec::new();
    let mut i: usize = 0;
    while i < variable_references.len()
        invariant
            i <= variable_references.len(),
            results@.len() == i,
            forall|j: int|
                0 <= j < i ==> (#[trigger] results@[j])@ == variable_verdict(
                    variable_references@[j]@,
                    pairs_of(available_variables@),
                    names_of(inline_variables@),
                ),
        decreases variable_references.len() - i,
    {
        let variable_name = variable_references[i].clone();
        let result = if contains_name(inline_variables, variable_name.as_str()) {
            VariableValidationResult {
                variable_name,
                group_name: None,
                exists: true,
                error: None,
                source: VariableSource::Inline,
            }
        } else {
            match find_group(available_variables, variable_name.as_str()) {
                Some(group) => VariableValidationResult {
                    variable_name,
                    group_name: Some(group.clone()),
                    exists: true,
                    error: None,
                    source: VariableSource::Group(group.clone()),
                },
                None => VariableValidationResult {
                    variable_name,
                    group_name: None,
                    exists: false,
                    error: Some(
                        String::from_str("Variable not found in any referenced variable group"),
                    ),
                    source: VariableSource::NotFound,
                },
            }
        };
        results.push(result);
        i += 1;
    }
    results
}

/// Decides, for each usage, whether a group holds its variable.
pub fn validate_variables_against_available(
    variable_references: Vec<String>,
    available_variables: &[(String, String)],
) -> (results: Vec<VariableValidationResult>)
    ensures
        results@.len() == variable_references@.len(),
        forall|i: int|
            0 <= i < variable_references@.len() ==> (#[trigger] results@[i])@ == variable_verdict(
                variable_references@[i]@,
                pairs_of(available_variables@),
                Seq::empty(),
            ),
{
    let none: Vec<String> = Vec::new();
    assert(names_of(none@) =~= Seq::empty());
    validate_variables_against_available_with_inline(
        variable_references,
        available_variables,
        none.as_slice(),
    )
}

/// Decides, for each usage, where its variable comes from, given the groups
/// that were validated and the member lists that were fetched for them:
/// `group_members[i]` belongs to `group_validation_results[i]`.
pub fn validate_variables(
    variable_references: Vec<String>,
    group_validation_results: &[GroupValidationResult],
    inline_variables: &[String],
    group_members: &[Option<Vec<String>>],
) -> (results: Vec<VariableValidationResult>)
    ensures
        results@.len() == variable_references@.len(),
        forall|i: int|
            0 <= i < variable_references@.len() ==> (#[trigger] results@[i])@ == variable_verdict(
                variable_references@[i]@,
                available_from(
                    group_results_of(group_validation_results@),
                    members_of(group_members@),
                ),
                names_of(inline_variables@),
            ),
{
    let available = collect_available(group_validation_results, group_members);
    validate_variables_against_available_with_inline(
        variable_references,
        available.as_slice(),
        inline_variables,
    )
}

} // verus!
