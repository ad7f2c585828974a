//! The wording of errors and of report lines.

use azdo_linter::error::{
    AzureCliError, OutputFormatter, PatternError, PipelineParseError, ValidationError,
    VariableGroupNotFoundError, VariableNotFoundError,
};

#[test]
fn parse_error_names_file_and_cause() {
    let error = PipelineParseError {
        file_path: "azure-pipelines.yml".to_string(),
        message: "mapping values are not allowed".to_string(),
    };
    assert_eq!(
        error.to_string(),
        "Failed to parse pipeline file 'azure-pipelines.yml': mapping values are not allowed\n\nSuggestion: Ensure the file exists and contains valid Azure DevOps YAML syntax."
    );
}

#[test]
fn pattern_error_names_the_cause() {
    let error = PatternError { message: "unclosed group".to_string() };
    assert_eq!(error.to_string(), "Failed to compile variable reference regex: unclosed group");
}

#[test]
fn cli_error_gives_advice() {
    let error = AzureCliError { message: "az not found".to_string() };
    assert_eq!(
        error.to_string(),
        "Azure CLI error: az not found\n\nSuggestion: Ensure Azure CLI is installed and you are logged in with 'az login'. Also verify the Azure DevOps extension is installed with 'az extension add --name azure-devops'."
    );
}

#[test]
fn missing_group_names_where_it_was_sought() {
    let error = VariableGroupNotFoundError {
        group_name: "Secrets".to_string(),
        organization: "contoso".to_string(),
        project: "shop".to_string(),
    };
    assert_eq!(
        error.to_string(),
        "Variable group 'Secrets' not found in organization 'contoso', project 'shop'.\n\nSuggestion: Verify the variable group name is correct and exists in Azure DevOps. You can create it at: https://dev.azure.com/contoso/shop/_library?itemType=VariableGroups"
    );
}

#[test]
fn missing_variable_without_groups() {
    let error =
        VariableNotFoundError { variable_name: "ApiKey".to_string(), searched_groups: Vec::new() };
    assert_eq!(
        error.to_string(),
        "Variable 'ApiKey' not found: No variable groups are referenced in the pipeline.\n\nSuggestion: Add a variable group reference to your pipeline YAML, or define the variable inline."
    );
}

#[test]
fn missing_variable_lists_the_groups() {
    let error = VariableNotFoundError {
        variable_name: "ApiKey".to_string(),
        searched_groups: vec!["A".to_string(), "B".to_string(), "C".to_string()],
    };
    assert_eq!(
        error.to_string(),
        "Variable 'ApiKey' not found in any of the referenced variable groups: A, B, C.\n\nSuggestion: Add this variable to one of the referenced groups, or verify the variable name is spelled correctly."
    );
    let one = VariableNotFoundError {
        variable_name: "K".to_string(),
        searched_groups: vec!["Only".to_string()],
    };
    assert_eq!(
        one.to_string(),
        "Variable 'K' not found in any of the referenced variable groups: Only.\n\nSuggestion: Add this variable to one of the referenced groups, or verify the variable name is spelled correctly."
    );
}

#[test]
fn validation_error_names_context_and_cause() {
    let error = ValidationError {
        context: "fetching groups".to_string(),
        message: "timeout".to_string(),
    };
    assert_eq!(
        error.to_string(),
        "Validation error while fetching groups: timeout\n\nSuggestion: Check your Azure DevOps connection and permissions."
    );
}

#[test]
fn report_lines_carry_their_mark() {
    assert_eq!(OutputFormatter::success("done"), "  [PASS] done");
    assert_eq!(OutputFormatter::failure("broken"), "  [FAIL] broken");
    assert_eq!(OutputFormatter::info("note"), "  [INFO] note");
    assert_eq!(OutputFormatter::success(""), "  [PASS] ");
}

#[test]
fn section_is_underlined_byte_for_byte() {
    assert_eq!(OutputFormatter::section("Variable Groups"), "\nVariable Groups\n---------------");
    assert_eq!(OutputFormatter::section(""), "\n\n");
    assert_eq!(OutputFormatter::section("é"), "\né\n--");
}

#[test]
fn summary_of_a_clean_run() {
    assert_eq!(
        OutputFormatter::summary(5, 0),
        "\n================================\nRESULT: PASSED\nAll 5 check(s) passed successfully.\n================================"
    );
    assert_eq!(
        OutputFormatter::summary(0, 0),
        "\n================================\nRESULT: PASSED\nAll 0 check(s) passed successfully.\n================================"
    );
}

#[test]
fn summary_of_a_failed_run() {
    assert_eq!(
        OutputFormatter::summary(8, 4),
        "\n================================\nRESULT: FAILED\n4 of 12 check(s) failed.\n================================"
    );
    assert_eq!(
        OutputFormatter::summary(0, 100),
        "\n================================\nRESULT: FAILED\n100 of 100 check(s) failed.\n================================"
    );
}
