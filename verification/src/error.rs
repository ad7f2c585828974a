//! What can go wrong, and how results are worded for the reader.

use vstd::prelude::*;
use vstd::string::{StringExecFns, StringSliceAdditionalSpecFns};
use crate::text::{dashes, decimal, decimal_text, join, joined, repeated};

verus! {

/// A pipeline file could not be read as a document.
#[derive(Debug)]
pub struct PipelineParseError {
    /// Path of the file.
    pub file_path: String,
    /// What the reader said.
    pub message: String,
}

impl PipelineParseError {
    /// The wording of this error.
    pub open spec fn text(&self) -> Seq<char> {
        "Failed to parse pipeline file '"@ + self.file_path@ + "': "@ + self.message@
            + "\n\nSuggestion: Ensure the file exists and contains valid Azure DevOps YAML syntax."@
    }

    /// This error in words.
    pub fn to_string(&self) -> (text: String)
        ensures
            text@ == self.text(),
    {
        let mut text = String::from_str("Failed to parse pipeline file '");
        text.append(self.file_path.as_str());
        text.append("': ");
        text.append(self.message.as_str());
        text.append(
            "\n\nSuggestion: Ensure the file exists and contains valid Azure DevOps YAML syntax.",
        );
        text
    }
}

/// The pattern that finds `$(name)` usages was not accepted.
#[derive(Debug)]
pub struct PatternError {
    /// What the pattern compiler said.
    pub message: String,
}

impl PatternError {
    /// The wording of this error.
    pub open spec fn text(&self) -> Seq<char> {
        "Failed to compile variable reference regex: "@ + self.message@
    }

    /// This error in words.
    pub fn to_string(&self) -> (text: String)
        ensures
            text@ == self.text(),
    {
        let mut text = String::from_str("Failed to compile variable reference regex: ");
        text.append(self.message.as_str());
        text
    }
}

/// The Azure command line is missing or not set up.
#[derive(Debug)]
pub struct AzureCliError {
    /// What was met.
    pub message: String,
}

impl AzureCliError {
    /// The wording of this error.
    pub open spec fn text(&self) -> Seq<char> {
        "Azure CLI error: "@ + self.message@
            + "\n\nSuggestion: Ensure Azure CLI is installed and you are logged in with 'az login'. Also verify the Azure DevOps extension is installed with 'az extension add --name azure-devops'."@
    }

    /// This error in words.
    pub fn to_string(&self) -> (text: String)
        ensures
            text@ == self.text(),
    {
        let mut text = String::from_str("Azure CLI error: ");
        text.append(self.message.as_str());
        text.append(
            "\n\nSuggestion: Ensure Azure CLI is installed and you are logged in with 'az login'. Also verify the Azure DevOps extension is installed with 'az extension add --name azure-devops'.",
        );
        text
    }
}

/// A variable group does not exist where it was looked for.
#[derive(Debug)]
pub struct VariableGroupNotFoundError {
    /// Name of the group.
    pub group_name: String,
    /// Organization that was searched.
    pub organization: String,
    /// Project that was searched.
    pub project: String,
}

impl VariableGroupNotFoundError {
    /// The wording of this error.
    pub open spec fn text(&self) -> Seq<char> {
        "Variable group '"@ + self.group_name@ + "' not found in organization '"@
            + self.organization@ + "', project '"@ + self.project@
            + "'.\n\nSuggestion: Verify the variable group name is correct and exists in Azure DevOps. You can create it at: https://dev.azure.com/"@
            + self.organization@ + "/"@ + self.project@ + "/_library?itemType=VariableGroups"@
    }

    /// This error in words.
    pub fn to_string(&self) -> (text: String)
        ensures
            text@ == self.text(),
    {
        let mut text = String::from_str("Variable group '");
        text.append(self.group_name.as_str());
        text.append("' not found in organization '");
        text.append(self.organization.as_str());
        text.append("', project '");
        text.append(self.project.as_str());
        text.append(
            "'.\n\nSuggestion: Verify the variable group name is correct and exists in Azure DevOps. You can create it at: https://dev.azure.com/",
        );
        text.append(self.organization.as_str());
        text.append("/");
        text.append(self.project.as_str());
        text.append("/_library?itemType=VariableGroups");
        text
    }
}

/// A variable is in none of the groups that the pipeline refers to.
#[derive(Debug)]
pub struct VariableNotFoundError {
    /// Name of the variable.
    pub variable_name: String,
    /// The groups that were searched.
    pub searched_groups: Vec<String>,
}

impl VariableNotFoundError {
    /// The wording of this error: one form where no group was searched,
    /// another that lists the groups.
    pub open spec fn text(&self) -> Seq<char> {
        if self.searched_groups@.len() == 0 {
            "Variable '"@ + self.variable_name@
                + "' not found: No variable groups are referenced in the pipeline.\n\nSuggestion: Add a variable group reference to your pipeline YAML, or define the variable inline."@
        } else {
            "Variable '"@ + self.variable_name@
                + "' not found in any of the referenced variable groups: "@ + joined(
                self.searched_groups@.map_values(|s: String| s@),
                ", "@,
            )
                + ".\n\nSuggestion: Add this variable to one of the referenced groups, or verify the variable name is spelled correctly."@
        }
    }

    /// This error in words.
    pub fn to_string(&self) -> (text: String)
        ensures
            text@ == self.text(),
    {
        let mut text = String::from_str("Variable '");
        text.append(self.variable_name.as_str());
        if self.searched_groups.len() == 0 {
            text.append(
                "' not found: No variable groups are referenced in the pipeline.\n\nSuggestion: Add a variable group reference to your pipeline YAML, or define the variable inline.",
            );
        } else {
            text.append("' not found in any of the referenced variable groups: ");
            let groups = join(&self.searched_groups, ", ");
            text.append(groups.as_str());
            text.append(
                ".\n\nSuggestion: Add this variable to one of the referenced groups, or verify the variable name is spelled correctly.",
            );
        }
        text
    }
}

/// Something unexpected happened while validating.
#[derive(Debug)]
pub struct ValidationError {
    /// What was being validated.
    pub context: String,
    /// What happened.
    pub message: String,
}

impl ValidationError {
    /// The wording of this error.
    pub open spec fn text(&self) -> Seq<char> {
        "Validation error while "@ + self.context@ + ": "@ + self.message@
            + "\n\nSuggestion: Check your Azure DevOps connection and permissions."@
    }

    /// This error in words.
    pub fn to_string(&self) -> (text: String)
        ensures
            text@ == self.text(),
    {
        let mut text = String::from_str("Validation error while ");
        text.append(self.context.as_str());
        text.append(": ");
        text.append(self.message.as_str());
        text.append("\n\nSuggestion: Check your Azure DevOps connection and permissions.");
        text
    }
}

/// The lines of a validation report.
pub struct OutputFormatter;

impl OutputFormatter {
    /// The closing block of a report over `passed` and `failed` checks.
    pub open spec fn summary_text(passed: nat, failed: nat) -> Seq<char> {
        if failed == 0 {
            "\n================================\nRESULT: PASSED\nAll "@ + decimal(passed + failed)
                + " check(s) passed successfully.\n================================"@
        } else {
            "\n================================\nRESULT: FAILED\n"@ + decimal(failed) + " of "@
                + decimal(passed + failed) + " check(s) failed.\n================================"@
        }
    }

    /// A line that reports a success.
    pub fn success(message: &str) -> (line: String)
        ensures
            line@ == "  [PASS] "@ + message@,
    {
        let mut line = String::from_str("  [PASS] ");
        line.append(message);
        line
    }

    /// A line that reports a failure.
    pub fn failure(message: &str) -> (line: String)
        ensures
            line@ == "  [FAIL] "@ + message@,
    {
        let mut line = String::from_str("  [FAIL] ");
        line.append(message);
        line
    }

    /// A line that gives information.
    pub fn info(message: &str) -> (line: String)
        ensures
            line@ == "  [INFO] "@ + message@,
    {
        let mut line = String::from_str("  [INFO] ");
        line.append(message);
        line
    }

    /// A section header: the title on a line of its own, underlined with one
    /// dash for each byte of the title.
    pub fn section(title: &str) -> (header: String)
        ensures
            header@ == "\n"@ + title@ + "\n"@ + repeated('-', title.spec_bytes().len()),
    {
        let mut header = String::from_str("\n");
        header.append(title);
        header.append("\n");
        let underline = dashes(title.as_bytes().len());
        header.append(underline.as_str());
        header
    }

    /// The closing block of a report.
    pub fn summary(passed: usize, failed: usize) -> (block: String)
        requires
            passed + failed <= usize::MAX,
        ensures
            block@ == Self::summary_text(passed as nat, failed as nat),
    {
        let total = passed + failed;
        let total_text = decimal_text(total as u64);
        if failed == 0 {
            let mut block = String::from_str(
                "\n================================\nRESULT: PASSED\nAll ",
            );
            block.append(total_text.as_str());
            block.append(" check(s) passed successfully.\n================================");
            block
        } else {
            let failed_text = decimal_text(failed as u64);
            let mut block = String::from_str("\n================================\nRESULT: FAILED\n");
            block.append(failed_text.as_str());
            block.append(" of ");
            block.append(total_text.as_str());
            block.append(" check(s) failed.\n================================");
            block
        }
    }
}

} // verus!
