//! The document model and what is extracted from it.

use azdo_linter::extraction::{collect_from_node, is_special_yaml_key, Wanted};
use azdo_linter::parser::{
    detect_template, extract_variable_references_from_content, is_system_variable,
    parse_pipeline_file, Job, Pipeline, Stage, TemplateInfo, VariableEntry, Variables,
};
use azdo_linter::references::{
    is_runtime_output_variable, looks_like_shell_command, select_variable_references,
    should_skip_variable,
};
use azdo_linter::template::extract_parameter_names;
use azdo_linter::tree::{find_entry, find_text, Node};

fn text(s: &str) -> Node {
    Node::String(s.to_string())
}

fn mapping(entries: Vec<(&str, Node)>) -> Node {
    Node::Mapping(entries.into_iter().map(|(k, v)| (text(k), v)).collect())
}

fn parse(content: &str) -> Pipeline {
    parse_pipeline_file("pipeline.yml", content).expect("well-formed")
}

fn names(list: &[&str]) -> Vec<String> {
    list.iter().map(|s| s.to_string()).collect()
}

#[test]
fn groups_and_names_of_a_staged_pipeline() {
    let pipeline = parse(
        "variables:
  - group: Secrets
  - name: Mode
    value: Release
stages:
  - stage: Build
    variables:
      - group: BuildVars
",
    );
    assert_eq!(pipeline.get_variable_groups(), names(&["Secrets", "BuildVars"]));
    assert_eq!(pipeline.get_inline_variable_names(), names(&["Mode"]));
}

#[test]
fn usages_are_filtered_completely() {
    let content = "steps:
  - script: echo $(Build.BuildNumber) $(Date:yyyyMMdd) $(outputs.registryName)
  - script: echo $($env:FOO) $(git merge-base main HEAD) $(CustomVar)
";
    assert_eq!(extract_variable_references_from_content(content).unwrap(), names(&["CustomVar"]));
}

#[test]
fn extraction_is_repeatable() {
    let pipeline = parse(
        "variables:
  - group: B
  - group: A
  - name: Z
  - name: Y
",
    );
    assert_eq!(pipeline.get_variable_groups(), pipeline.get_variable_groups());
    assert_eq!(pipeline.get_variable_groups(), names(&["B", "A"]));
    assert_eq!(pipeline.get_inline_variable_names(), pipeline.get_inline_variable_names());
    assert_eq!(pipeline.get_inline_variable_names(), names(&["Z", "Y"]));
}

#[test]
fn names_occur_once_whatever_the_level() {
    let pipeline = parse(
        "variables:
  - group: Shared
  - name: Mode
  - group: Shared
stages:
  - stage: A
    variables:
      - group: Shared
      - group: OnlyA
      - name: Mode
    jobs:
      - job: J
        variables:
          - group: OnlyA
          - group: Shared
          - name: Mode
          - name: Extra
",
    );
    let groups = pipeline.get_variable_groups();
    assert_eq!(groups, names(&["Shared", "OnlyA"]));
    let unique = groups.iter().collect::<std::collections::HashSet<_>>().len();
    assert_eq!(unique, groups.len());
    let inline = pipeline.get_inline_variable_names();
    assert_eq!(inline, names(&["Mode", "Extra"]));
    let unique = inline.iter().collect::<std::collections::HashSet<_>>().len();
    assert_eq!(unique, inline.len());
}

#[test]
fn a_condition_hides_no_group() {
    let plain = parse(
        "variables:
  - group: Deep
",
    );
    let once = parse(
        "variables:
  - ${{ if eq(a, b) }}:
    - group: Deep
",
    );
    let twice = parse(
        "variables:
  - ${{ if eq(a, b) }}:
    - ${{ if eq(c, d) }}:
      - group: Deep
",
    );
    assert_eq!(plain.get_variable_groups(), names(&["Deep"]));
    assert_eq!(once.get_variable_groups(), plain.get_variable_groups());
    assert_eq!(twice.get_variable_groups(), plain.get_variable_groups());
}

#[test]
fn a_condition_hides_no_definition() {
    let twice = parse(
        "variables:
  - ${{ if eq(a, b) }}:
    - ${{ if eq(c, d) }}:
      - name: Deep
        value: x
",
    );
    assert_eq!(twice.get_inline_variable_names(), names(&["Deep"]));
}

#[test]
fn map_and_list_define_the_same_names() {
    let as_map = parse(
        "variables:
  A: \"1\"
  B: \"2\"
",
    );
    let as_list = parse(
        "variables:
  - name: A
    value: \"1\"
  - name: B
    value: \"2\"
",
    );
    let from_map: std::collections::HashSet<String> =
        as_map.get_inline_variable_names().into_iter().collect();
    let from_list: std::collections::HashSet<String> =
        as_list.get_inline_variable_names().into_iter().collect();
    assert_eq!(from_map, from_list);
    assert_eq!(from_map.len(), 2);
    assert!(from_map.contains("A") && from_map.contains("B"));
}

#[test]
fn parameters_without_trigger_make_a_template() {
    let template = "parameters:
  - name: environment
    type: string
  - type: string
  - name: region
steps:
  - script: echo hi
";
    let info = detect_template("t.yml", template).unwrap();
    assert!(info.is_template);
    assert_eq!(info.parameter_names, names(&["environment", "region"]));

    let with_trigger = format!("trigger:\n  - main\n{}", template);
    let info = detect_template("t.yml", &with_trigger).unwrap();
    assert!(!info.is_template);
    assert!(info.parameter_names.is_empty());

    let with_pr = format!("{}pr:\n  - main\n", template);
    let info = detect_template("t.yml", &with_pr).unwrap();
    assert!(!info.is_template);
    assert!(info.parameter_names.is_empty());
}

#[test]
fn documents_without_parameters_are_no_templates() {
    let info = detect_template("p.yml", "steps:\n  - script: echo hi\n").unwrap();
    assert!(!info.is_template);
    assert!(info.parameter_names.is_empty());
    let info = detect_template("p.yml", "- just\n- a list\n").unwrap();
    assert!(!info.is_template);
    let info = detect_template("p.yml", "plain text").unwrap();
    assert!(!info.is_template);
}

#[test]
fn parameters_in_another_shape_declare_no_names() {
    let info = detect_template("t.yml", "parameters:\n  environment: dev\n").unwrap();
    assert!(info.is_template);
    assert!(info.parameter_names.is_empty());
    let info = detect_template("t.yml", "parameters:\n  - name: 5\n  - [name, x]\n  - name: ok\n  - name: ok\n").unwrap();
    assert!(info.is_template);
    assert_eq!(info.parameter_names, names(&["ok", "ok"]));
}

#[test]
fn tags_do_not_hide_a_template() {
    let root = Node::Tagged(
        "!t".to_string(),
        Box::new(mapping(vec![(
            "parameters",
            Node::Tagged(
                "!p".to_string(),
                Box::new(Node::Sequence(vec![
                    Node::Tagged("!i".to_string(), Box::new(mapping(vec![("name", text("a"))]))),
                    mapping(vec![("name", Node::Tagged("!n".to_string(), Box::new(text("b"))))]),
                ])),
            ),
        )])),
    );
    let info = TemplateInfo::from_node(&root);
    assert!(info.is_template);
    assert_eq!(info.parameter_names, names(&["a"]));
    assert_eq!(extract_parameter_names(&root), names(&["a"]));
}

#[test]
fn malformed_text_is_reported_with_its_file() {
    let error = parse_pipeline_file("broken.yml", "variables: [unclosed\n").unwrap_err();
    assert_eq!(error.file_path, "broken.yml");
    assert!(!error.message.is_empty());
    assert!(error.to_string().starts_with("Failed to parse pipeline file 'broken.yml': "));

    let error = detect_template("broken.yml", "a: b: c: [\n").unwrap_err();
    assert_eq!(error.file_path, "broken.yml");
    assert!(!error.message.is_empty());
}

#[test]
fn scalars_and_nesting_are_read_as_they_are() {
    let pipeline = parse(
        "variables:
  - 5
  - true
  - ~
  - text
  - [a, 1.5]
  - k: v
    7: seven
",
    );
    let variables = pipeline.variables.expect("a list");
    let entries = variables.iter();
    assert_eq!(entries.len(), 6);
    let kept: Vec<&Node> = entries
        .iter()
        .map(|e| match e {
            VariableEntry::Conditional(node) => node,
            other => panic!("kept as it is, not {:?}", other),
        })
        .collect();
    assert_eq!(*kept[0], Node::Number("5".to_string()));
    assert_eq!(*kept[1], Node::Bool(true));
    assert_eq!(*kept[2], Node::Null);
    assert_eq!(*kept[3], text("text"));
    assert_eq!(*kept[4], Node::Sequence(vec![text("a"), Node::Number("1.5".to_string())]));
    assert_eq!(
        *kept[5],
        Node::Mapping(vec![(text("k"), text("v")), (Node::Number("7".to_string()), text("seven"))])
    );
}

#[test]
fn entries_take_the_first_shape_that_fits() {
    let group = VariableEntry::from_node(&mapping(vec![("group", text("G")), ("name", text("N"))]));
    assert!(matches!(group, VariableEntry::Group { group } if group == "G"));

    let named = VariableEntry::from_node(&mapping(vec![("name", text("N")), ("value", text("V"))]));
    assert!(
        matches!(named, VariableEntry::Named { name, value } if name == "N" && value == Some("V".to_string()))
    );

    let bare = VariableEntry::from_node(&mapping(vec![("name", text("N"))]));
    assert!(matches!(bare, VariableEntry::Named { name, value } if name == "N" && value.is_none()));

    let empty = VariableEntry::from_node(&mapping(vec![("name", text("N")), ("value", Node::Null)]));
    assert!(matches!(empty, VariableEntry::Named { name, value } if name == "N" && value.is_none()));

    let template = VariableEntry::from_node(&mapping(vec![("template", text("vars.yml"))]));
    assert!(matches!(template, VariableEntry::Template { template } if template == "vars.yml"));

    let numbered = mapping(vec![("name", text("N")), ("value", Node::Number("5".to_string()))]);
    assert!(
        matches!(VariableEntry::from_node(&numbered), VariableEntry::Conditional(node) if node == numbered)
    );

    let falls_to_template = mapping(vec![
        ("name", text("N")),
        ("value", Node::Bool(true)),
        ("template", text("t.yml")),
    ]);
    assert!(
        matches!(VariableEntry::from_node(&falls_to_template), VariableEntry::Template { template } if template == "t.yml")
    );

    let number_group = mapping(vec![("group", Node::Number("5".to_string()))]);
    assert!(matches!(VariableEntry::from_node(&number_group), VariableEntry::Conditional(_)));

    assert!(matches!(VariableEntry::from_node(&text("x")), VariableEntry::Conditional(_)));
}

#[test]
fn a_definition_with_another_value_still_counts() {
    let pipeline = parse(
        "variables:
  - name: Retries
    value: 5
  - name: Verbose
    value: true
",
    );
    assert_eq!(pipeline.get_inline_variable_names(), names(&["Retries", "Verbose"]));
    assert_eq!(pipeline.variables.unwrap().len(), 2);
}

#[test]
fn sections_of_another_shape_are_absent() {
    assert!(parse("variables: text\n").variables.is_none());
    assert!(parse("variables: 5\n").variables.is_none());
    assert!(parse("variables: ~\n").variables.is_none());
    assert!(parse("steps: []\n").variables.is_none());
    assert!(parse("variables:\n  1: one\n  B: two\n").variables.is_none());
    assert!(Variables::from_node(&Node::Bool(false)).is_none());

    let empty_list = parse("variables: []\n").variables.expect("a list");
    assert!(matches!(empty_list, Variables::List(_)));
    assert!(empty_list.is_empty());
    assert_eq!(empty_list.len(), 0);

    let empty_map = parse("variables: {}\n").variables.expect("a mapping");
    assert!(matches!(empty_map, Variables::Mapping(_)));
    assert!(empty_map.is_empty());
}

#[test]
fn a_section_in_map_form_keeps_its_order() {
    let variables = parse("variables:\n  B: two\n  A: 1\n").variables.expect("a mapping");
    assert_eq!(variables.len(), 2);
    assert!(!variables.is_empty());
    assert!(variables.iter().is_empty());
    match variables {
        Variables::Mapping(pairs) => {
            assert_eq!(
                pairs,
                vec![("B".to_string(), text("two")), ("A".to_string(), Node::Number("1".to_string()))]
            );
        },
        Variables::List(_) => panic!("a mapping was written"),
    }
}

#[test]
fn documents_of_another_shape_are_empty_pipelines() {
    for content in ["- a\n- b\n", "just text", "5", "~"] {
        let pipeline = parse(content);
        assert!(pipeline.variables.is_none());
        assert!(pipeline.stages.is_none());
        assert!(pipeline.get_variable_groups().is_empty());
        assert!(pipeline.get_inline_variable_names().is_empty());
    }
    let pipeline = parse("stages: none\n");
    assert!(pipeline.stages.is_none());
}

#[test]
fn stages_and_jobs_of_another_shape_are_empty() {
    let pipeline = parse(
        "stages:
  - text
  - stage: 5
    jobs: none
  - stage: Named
    variables:
      - group: G
    jobs:
      - text
      - variables:
          X: 1
",
    );
    let stages = pipeline.stages.as_ref().expect("a list");
    assert_eq!(stages.len(), 3);
    assert!(stages[0].stage.is_none() && stages[0].variables.is_none() && stages[0].jobs.is_none());
    assert!(stages[1].stage.is_none() && stages[1].jobs.is_none());
    assert_eq!(stages[2].stage.as_deref(), Some("Named"));
    let jobs = stages[2].jobs.as_ref().expect("a list");
    assert_eq!(jobs.len(), 2);
    assert!(jobs[0].variables.is_none());
    assert_eq!(jobs[1].variables.as_ref().map(|v| v.len()), Some(1));
    assert_eq!(pipeline.get_variable_groups(), names(&["G"]));
    assert_eq!(pipeline.get_inline_variable_names(), names(&["X"]));

    assert!(Stage::from_node(&Node::Null).jobs.is_none());
    assert!(Job::from_node(&Node::Null).variables.is_none());
}

#[test]
fn conditions_in_map_form_are_searched() {
    let pipeline = parse(
        "variables:
  Plain: 1
  ${{ if eq(a, b) }}:
    Inner: 2
    ${{ if eq(c, d) }}:
      Deepest: 3
    name: Listed
  ${{ if ne(a, b) }}:
    - group: FromMap
    - name: FromList
      value: x
",
    );
    assert_eq!(
        pipeline.get_inline_variable_names(),
        names(&["Plain", "Listed", "Inner", "Deepest", "FromList"])
    );
    assert_eq!(pipeline.get_variable_groups(), names(&["FromMap"]));
}

#[test]
fn shape_keys_are_no_names_inside_a_block() {
    let pipeline = parse(
        "variables:
  - ${{ if eq(a, b) }}:
      name: Real
      value: v
      group: G
      template: t.yml
      readonly: true
      isSecret: false
      Other: o
",
    );
    assert_eq!(pipeline.get_inline_variable_names(), names(&["Real", "Other"]));
    assert_eq!(pipeline.get_variable_groups(), names(&["G"]));
}

#[test]
fn keys_of_a_section_in_map_form_are_names() {
    let pipeline = parse("variables:\n  name: x\n  Other: y\n");
    assert_eq!(pipeline.get_inline_variable_names(), names(&["name", "Other"]));
    assert!(pipeline.get_variable_groups().is_empty());
}

#[test]
fn a_group_entry_is_not_searched_further() {
    let pipeline = parse(
        "variables:
  - group: Outer
    extra:
      group: Hidden
  - name: N
    more:
      name: AlsoHidden
  - template: t.yml
    group: 5
",
    );
    assert_eq!(pipeline.get_variable_groups(), names(&["Outer"]));
    assert_eq!(pipeline.get_inline_variable_names(), names(&["N"]));
}

#[test]
fn a_search_goes_through_every_depth() {
    let node = Node::Sequence(vec![
        mapping(vec![(
            "a",
            Node::Sequence(vec![mapping(vec![("b", mapping(vec![("group", text("Deep"))]))])]),
        )]),
        Node::Tagged("!t".to_string(), Box::new(mapping(vec![("group", text("Tagged"))]))),
        Node::Mapping(vec![(Node::Number("1".to_string()), mapping(vec![("group", text("Keyed"))]))]),
        mapping(vec![("group", Node::Number("5".to_string()))]),
    ]);
    let mut groups = vec!["Before".to_string()];
    collect_from_node(Wanted::Groups, &node, &mut groups);
    assert_eq!(groups, names(&["Before", "Deep", "Keyed"]));

    let mut found = Vec::new();
    collect_from_node(Wanted::Names, &node, &mut found);
    assert_eq!(found, names(&["a", "b"]));
}

#[test]
fn the_first_entry_of_a_key_decides() {
    let entries = vec![
        (text("other"), text("x")),
        (text("key"), Node::Number("1".to_string())),
        (text("key"), text("second")),
    ];
    assert_eq!(find_entry(&entries, "key"), Some(&Node::Number("1".to_string())));
    assert_eq!(find_text(&entries, "key"), None);
    assert_eq!(find_text(&entries, "other"), Some(&"x".to_string()));
    assert_eq!(find_entry(&entries, "missing"), None);
    assert_eq!(find_entry(&Vec::new(), "key"), None);
}

#[test]
fn values_are_copied_and_untagged() {
    let inner = mapping(vec![("k", Node::Sequence(vec![Node::Null, Node::Bool(false)]))]);
    let tagged =
        Node::Tagged("!a".to_string(), Box::new(Node::Tagged("!b".to_string(), Box::new(inner.duplicate()))));
    assert_eq!(tagged.duplicate(), tagged);
    assert_eq!(*tagged.untagged(), inner);
    assert_eq!(*inner.untagged(), inner);
}

#[test]
fn system_variables_are_known_by_their_prefix() {
    for name in [
        "Build.BuildNumber",
        "System.DefaultWorkingDirectory",
        "Agent.MachineName",
        "Pipeline.Workspace",
        "Environment.Name",
        "Checks.StageAttempt",
        "Release.ReleaseId",
        "Task.DisplayName",
        "Resources.TriggeringAlias",
        "Build.",
    ] {
        assert!(is_system_variable(name), "{}", name);
    }
    for name in ["Build", "build.Number", "MyBuild.Number", "Systems.X", "", "Buil.d"] {
        assert!(!is_system_variable(name), "{}", name);
    }
}

#[test]
fn runtime_outputs_have_a_dot_and_no_system_prefix() {
    assert!(is_runtime_output_variable("outputs.registryName"));
    assert!(is_runtime_output_variable("agentIp.value"));
    assert!(is_runtime_output_variable("."));
    assert!(is_runtime_output_variable("My.Custom.Variable"));
    assert!(!is_runtime_output_variable("Build.BuildNumber"));
    assert!(!is_runtime_output_variable("NoDot"));
    assert!(!is_runtime_output_variable(""));
}

#[test]
fn shell_commands_have_a_space() {
    assert!(looks_like_shell_command("git rev-parse HEAD"));
    assert!(looks_like_shell_command(" "));
    assert!(!looks_like_shell_command("git"));
    assert!(!looks_like_shell_command("a\tb"));
}

#[test]
fn each_rule_skips_by_itself() {
    assert!(should_skip_variable("$env:FOO"));
    assert!(should_skip_variable("$"));
    assert!(should_skip_variable("[variables.x]"));
    assert!(should_skip_variable("System.TeamProject"));
    assert!(should_skip_variable("Date:yyyyMMdd"));
    assert!(should_skip_variable("Rev:r"));
    assert!(should_skip_variable("step.output"));
    assert!(should_skip_variable("two words"));
    assert!(!should_skip_variable("CustomVar"));
    assert!(!should_skip_variable("Date"));
    assert!(!should_skip_variable("Rev"));
    assert!(!should_skip_variable("date:x"));
    assert!(!should_skip_variable("a$b"));
    assert!(!should_skip_variable("a[b]"));
    assert!(!should_skip_variable("under_score-dash"));
    assert!(!should_skip_variable(""));
}

#[test]
fn shape_keys_are_a_fixed_set() {
    for key in ["name", "value", "group", "template", "readonly", "isSecret"] {
        assert!(is_special_yaml_key(key), "{}", key);
    }
    for key in ["Name", "names", "issecret", "", "variables", "parameters"] {
        assert!(!is_special_yaml_key(key), "{}", key);
    }
}

#[test]
fn tokens_are_selected_in_order_and_once() {
    let tokens = vec![
        Some("b".to_string()),
        None,
        Some("Build.X".to_string()),
        Some("a".to_string()),
        Some("b".to_string()),
        Some("a b".to_string()),
        Some("A".to_string()),
    ];
    assert_eq!(select_variable_references(&tokens), names(&["b", "a", "A"]));
    assert!(select_variable_references(&Vec::new()).is_empty());
    assert!(select_variable_references(&vec![None, None]).is_empty());
}

#[test]
fn usages_are_found_between_the_brackets() {
    let found = extract_variable_references_from_content("$(a)$(b) $() $(c $(d) ) (e) $f $(g").unwrap();
    assert_eq!(found, names(&["a", "b"]));
    let found = extract_variable_references_from_content("$( $(x)").unwrap();
    assert!(found.is_empty());
    let found = extract_variable_references_from_content("$()$(x)").unwrap();
    assert_eq!(found, names(&["x"]));
    assert!(extract_variable_references_from_content("").unwrap().is_empty());
    let found = extract_variable_references_from_content("$(first)\n$(second)$(first)").unwrap();
    assert_eq!(found, names(&["first", "second"]));
}

#[test]
fn nesting_without_end_is_refused() {
    let deep = format!("{}{}", "[".repeat(500), "]".repeat(500));
    let error = parse_pipeline_file("deep.yml", &deep).unwrap_err();
    assert_eq!(error.file_path, "deep.yml");
    assert!(error.message.contains("recursion limit exceeded"), "{}", error.message);
    assert!(detect_template("deep.yml", &deep).is_err());

    let shallow = format!("variables: {}{}", "[".repeat(50), "]".repeat(50));
    assert!(parse_pipeline_file("shallow.yml", &shallow).is_ok());
}

#[test]
fn a_name_that_is_a_template_expression_differs_by_form() {
    let as_map = parse("variables:\n  \"${{ if x }}\": kept\n");
    assert!(as_map.get_inline_variable_names().is_empty());
    let as_list = parse("variables:\n  - name: \"${{ if x }}\"\n    value: kept\n");
    assert_eq!(as_list.get_inline_variable_names(), names(&["${{ if x }}"]));
}

#[test]
fn tags_are_kept_with_their_values() {
    let pipeline = parse("variables:\n  - !secret hidden\n  - !list [a]\n");
    let variables = pipeline.variables.expect("a list");
    let entries = variables.iter();
    assert_eq!(entries.len(), 2);
    assert!(matches!(
        &entries[0],
        VariableEntry::Conditional(Node::Tagged(tag, inner))
            if tag == "!secret" && **inner == text("hidden")
    ));
    assert!(matches!(
        &entries[1],
        VariableEntry::Conditional(Node::Tagged(tag, inner))
            if tag == "!list" && **inner == Node::Sequence(vec![text("a")])
    ));
}
