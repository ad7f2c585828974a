//! Talking to Azure DevOps: what is asked, and how the answers are read.
//! Sending the requests is left to the caller.

use vstd::prelude::*;
use vstd::string::{StringExecFns, StringSliceAdditionalSpecFns};
use vstd::utf8::encode_utf8;
use crate::names::names_of;
use crate::text::{decimal, decimal_text, same_text, signed_decimal, signed_decimal_text, starts_with};

verus! {

/// The value of a variable in a variable group.
#[derive(Debug)]
pub struct VariableValue {
    /// The value; a secret has none.
    pub value: Option<String>,
    /// Whether the variable is secret.
    pub is_secret: Option<bool>,
}

/// A variable group as the service describes it.
#[derive(Debug)]
pub struct VariableGroupData {
    /// The group's id.
    pub id: i32,
    /// The group's name.
    pub name: String,
    /// The group's variables, each name with its value.
    pub variables: Vec<(String, VariableValue)>,
}

/// The value of a variable in a pipeline definition.
#[derive(Debug)]
pub struct PipelineVariableValue {
    /// The value; a secret has none.
    pub value: Option<String>,
    /// Whether the variable is secret.
    pub is_secret: Option<bool>,
    /// Whether the value can be set when a run is queued.
    pub allow_override: bool,
}

/// A pipeline as the list of pipelines names it.
#[derive(Debug)]
pub struct PipelineInfo {
    /// The pipeline's id.
    pub id: i32,
    /// The pipeline's name.
    pub name: String,
}

/// What a client needs to know to ask: where, and as whom.
#[derive(Debug)]
pub struct AzureDevOpsClient {
    /// The organization's URL.
    pub organization: String,
    /// The project's name.
    pub project: String,
    /// The value of the `Authorization` header.
    pub auth_header: String,
}

/// The names of named things, in their order.
pub open spec fn keys_of<T>(pairs: Seq<(String, T)>) -> Seq<Seq<char>> {
    pairs.map_values(|p: (String, T)| p.0@)
}

impl VariableGroupData {
    /// A group holds no variable twice.
    pub open spec fn well_formed(&self) -> bool {
        keys_of(self.variables@).no_duplicates()
    }
}

/// The standard base64 encoding, with padding, of `bytes`.
pub uninterp spec fn base64_standard(bytes: Seq<u8>) -> Seq<char>;

/// Whether a byte stands for itself in a URL: an ASCII letter or digit, or
/// one of `-`, `.`, `_` and `~`.
pub open spec fn is_unreserved(byte: u8) -> bool {
    ||| 0x30 <= byte <= 0x39
    ||| 0x41 <= byte <= 0x5a
    ||| 0x61 <= byte <= 0x7a
    ||| byte == 0x2d
    ||| byte == 0x2e
    ||| byte == 0x5f
    ||| byte == 0x7e
}

/// The hexadecimal digit of a number below sixteen, in capitals.
pub open spec fn hex_digit(digit: u8) -> char {
    if digit < 10 {
        (0x30 + digit) as char
    } else {
        (0x41 + digit - 10) as char
    }
}

/// How one byte is written in a URL: an unreserved byte as it is, any other
/// as a percent sign and its two hexadecimal digits.
pub open spec fn percent_encoded_byte(byte: u8) -> Seq<char> {
    if is_unreserved(byte) {
        seq![byte as char]
    } else {
        seq!['%', hex_digit(byte / 16), hex_digit(byte % 16)]
    }
}

/// How bytes are written in a URL, byte after byte.
pub open spec fn percent_encoded(bytes: Seq<u8>) -> Seq<char>
    decreases bytes.len(),
{
    if bytes.len() == 0 {
        Seq::empty()
    } else {
        percent_encoded(bytes.drop_last()) + percent_encoded_byte(bytes.last())
    }
}

/// The usual reason phrase of an HTTP status, where it has one.
pub uninterp spec fn canonical_reason(status: u16) -> Option<Seq<char>>;

/// Whether an input of this length can be encoded without the length of
/// the result leaving the range of `usize`.
pub open spec fn encodable(length: nat) -> bool {
    length / 3 * 4 + 4 <= usize::MAX
}

/// Calls `encode` of `base64::engine::general_purpose::STANDARD`. Trusted:
/// the encoding depends on the bytes alone, so it is the named
/// `base64_standard`. The call panics where the length of the result leaves
/// the range of `usize`; such inputs are kept out.
#[verifier::external_body]
fn encode_base64(bytes: &[u8]) -> (text: String)
    requires
        encodable(bytes@.len()),
    ensures
        text@ == base64_standard(bytes@),
{
    base64::Engine::encode(&base64::engine::general_purpose::STANDARD, bytes)
}

/// Calls `urlencoding::encode`. Trusted: every byte of the text's UTF-8
/// form comes out percent-encoded, but for letters, digits, `-`, `.`, `_`
/// and `~`, which stay; the hexadecimal digits are capitals.
#[verifier::external_body]
fn encode_for_url(text: &str) -> (encoded: String)
    ensures
        encoded@ == percent_encoded(text.spec_bytes()),
{
    urlencoding::encode(text).into_owned()
}

/// Calls `reqwest::StatusCode::from_u16` and, on a status in range,
/// `canonical_reason`. Trusted: the phrase depends on the number alone, so
/// it is the named `canonical_reason`; a number out of range has none.
#[verifier::external_body]
fn reason_phrase(status: u16) -> (reason: Option<String>)
    ensures
        match reason {
            Some(text) => canonical_reason(status) == Some(text@),
            None => canonical_reason(status) is None,
        },
{
    match reqwest::StatusCode::from_u16(status) {
        Ok(code) => code.canonical_reason().map(|phrase| phrase.to_string()),
        Err(_) => None,
    }
}

/// The URL of an organization: a URL as it is, a bare name under
/// `https://dev.azure.com/`.
pub open spec fn organization_url(organization: Seq<char>) -> Seq<char> {
    if "https://"@.is_prefix_of(organization) || "http://"@.is_prefix_of(organization) {
        organization
    } else {
        "https://dev.azure.com/"@ + organization
    }
}

/// The credentials that a token stands for: an empty user name, a colon and
/// the token, as bytes.
pub open spec fn credentials(token: Seq<char>) -> Seq<u8> {
    encode_utf8(":"@ + token)
}

/// The `Authorization` header for a token: basic authentication with an
/// empty user name and the token as password.
pub open spec fn basic_authorization(token: Seq<char>) -> Seq<char> {
    "Basic "@ + base64_standard(credentials(token))
}

/// What is said where no token is given.
pub open spec fn missing_token_message() -> Seq<char> {
    "No authentication token provided. Set AZDO_PAT environment variable or use --pat argument."@
}

/// What is said where no header can be made of the token.
pub open spec fn header_failure_message() -> Seq<char> {
    "Failed to create authorization header"@
}

/// What is said of a response that is no success. `context` names what was
/// asked for.
pub open spec fn response_error_message(status: u16, context: Seq<char>) -> Seq<char> {
    if status == 401 {
        "Authentication failed for "@ + context
            + ". Check that your PAT is valid and not expired."@
    } else if status == 403 {
        "Access denied for "@ + context
            + ". Check that your PAT has sufficient permissions (Variable Groups Read, Build Read)."@
    } else if status == 404 {
        context + " not found."@
    } else {
        "HTTP "@ + decimal(status as nat) + " error for "@ + context + ": "@ + match canonical_reason(
            status,
        ) {
            Some(reason) => reason,
            None => "Unknown error"@,
        }
    }
}

/// Whether a status reports success.
pub open spec fn is_success(status: u16) -> bool {
    200 <= status < 300
}

impl AzureDevOpsClient {
    /// The URL of the project.
    pub open spec fn project_url_text(&self) -> Seq<char> {
        self.organization@ + "/"@ + self.project@
    }

    /// A client for a project, authenticated by a personal access token.
    /// Without a token there is no client, nor with a token too long to be
    /// encoded.
    pub fn new(organization: String, project: String, pat: Option<String>) -> (outcome: Result<
        AzureDevOpsClient,
        String,
    >)
        ensures
            match pat {
                None => outcome is Err && outcome->Err_0@ == missing_token_message(),
                Some(token) => if encodable(credentials(token@).len()) {
                    &&& outcome is Ok
                    &&& outcome->Ok_0.organization@ == organization_url(organization@)
                    &&& outcome->Ok_0.project@ == project@
                    &&& outcome->Ok_0.auth_header@ == basic_authorization(token@)
                } else {
                    outcome is Err && outcome->Err_0@ == header_failure_message()
                },
            },
    {
        let organization_url = if starts_with(organization.as_str(), "https://") || starts_with(
            organization.as_str(),
            "http://",
        ) {
            organization
        } else {
            let mut url = String::from_str("https://dev.azure.com/");
            url.append(organization.as_str());
            url
        };
        let token = match pat {
            Some(token) => token,
            None => {
                return Err(
                    String::from_str(
                        "No authentication token provided. Set AZDO_PAT environment variable or use --pat argument.",
                    ),
                );
            },
        };
        let mut auth = String::from_str(":");
        auth.append(token.as_str());
        let bytes = auth.as_str().as_bytes();
        if bytes.len() / 3 > (usize::MAX - 4) / 4 {
            return Err(String::from_str("Failed to create authorization header"));
        }
        let encoded = encode_base64(bytes);
        let mut auth_header = String::from_str("Basic ");
        auth_header.append(encoded.as_str());
        Ok(AzureDevOpsClient { organization: organization_url, project, auth_header })
    }

    /// The URL of the project.
    pub fn project_url(&self) -> (url: String)
        ensures
            url@ == self.project_url_text(),
    {
        let mut url = self.organization.clone();
        url.append("/");
        url.append(self.project.as_str());
        url
    }

    /// What is said of a response that is no success.
    pub fn handle_response_error(&self, status: u16, context: &str) -> (message: String)
        ensures
            message@ == response_error_message(status, context@),
    {
        if status == 401 {
            let mut message = String::from_str("Authentication failed for ");
            message.append(context);
            message.append(". Check that your PAT is valid and not expired.");
            message
        } else if status == 403 {
            let mut message = String::from_str("Access denied for ");
            message.append(context);
            message.append(
                ". Check that your PAT has sufficient permissions (Variable Groups Read, Build Read).",
            );
            message
        } else if status == 404 {
            let mut message = String::from_str(context);
            message.append(" not found.");
            message
        } else {
            let mut message = String::from_str("HTTP ");
            let number = decimal_text(status as u64);
            message.append(number.as_str());
            message.append(" error for ");
            message.append(context);
            message.append(": ");
            match reason_phrase(status) {
                Some(reason) => {
                    message.append(reason.as_str());
                },
                None => {
                    message.append("Unknown error");
                },
            }
            message
        }
    }

    /// Accepts a response that reports success, and says what is wrong with
    /// any other.
    pub fn check_status(&self, status: u16, context: &str) -> (outcome: Result<(), String>)
        ensures
            is_success(status) ==> outcome is Ok,
            !is_success(status) ==> outcome is Err && outcome->Err_0@ == response_error_message(
                status,
                context@,
            ),
    {
        if 200 <= status && status < 300 {
            Ok(())
        } else {
            Err(self.handle_response_error(status, context))
        }
    }

    /// Where the variable groups of the given name are asked for.
    pub fn variable_group_query_url(&self, group_name: &str) -> (url: String)
        ensures
            url@ == self.project_url_text() + "/_apis/distributedtask/variablegroups?groupName="@
                + percent_encoded(group_name.spec_bytes()) + "&api-version=7.0"@,
    {
        let mut url = self.project_url();
        url.append("/_apis/distributedtask/variablegroups?groupName=");
        let encoded = encode_for_url(group_name);
        url.append(encoded.as_str());
        url.append("&api-version=7.0");
        url
    }

    /// Where the variable group of the given id is asked for.
    pub fn variable_group_url(&self, group_id: i32) -> (url: String)
        ensures
            url@ == self.project_url_text() + "/_apis/distributedtask/variablegroups/"@
                + signed_decimal(group_id as int) + "?api-version=7.0"@,
    {
        let mut url = self.project_url();
        url.append("/_apis/distributedtask/variablegroups/");
        let id = signed_decimal_text(group_id as i64);
        url.append(id.as_str());
        url.append("?api-version=7.0");
        url
    }

    /// Where the list of pipelines is asked for.
    pub fn pipelines_url(&self) -> (url: String)
        ensures
            url@ == self.project_url_text() + "/_apis/pipelines?api-version=7.0"@,
    {
        let mut url = self.project_url();
        url.append("/_apis/pipelines?api-version=7.0");
        url
    }

    /// Where the build definition of the given pipeline is asked for.
    pub fn build_definition_url(&self, pipeline_id: i32) -> (url: String)
        ensures
            url@ == self.project_url_text() + "/_apis/build/definitions/"@ + signed_decimal(
                pipeline_id as int,
            ) + "?api-version=7.0"@,
    {
        let mut url = self.project_url();
        url.append("/_apis/build/definitions/");
        let id = signed_decimal_text(pipeline_id as i64);
        url.append(id.as_str());
        url.append("?api-version=7.0");
        url
    }
}

/// The index of the first of `names` that is `name`.
pub open spec fn first_named(names: Seq<Seq<char>>, name: Seq<char>) -> Option<int>
    decreases names.len(),
{
    if names.len() == 0 {
        None
    } else {
        match first_named(names.drop_last(), name) {
            Some(i) => Some(i),
            None => if names.last() == name {
                Some(names.len() - 1)
            } else {
                None
            },
        }
    }
}

/// The first of `names` that is `name` is the one before which none is.
pub proof fn lemma_first_named(names: Seq<Seq<char>>, name: Seq<char>)
    ensures
        match first_named(names, name) {
            Some(i) => 0 <= i < names.len() && names[i] == name && forall|j: int|
                0 <= j < i ==> names[j] != name,
            None => forall|j: int| 0 <= j < names.len() ==> names[j] != name,
        },
    decreases names.len(),
{
    if names.len() > 0 {
        lemma_first_named(names.drop_last(), name);
        match first_named(names.drop_last(), name) {
            Some(i) => {
                assert(names.drop_last()[i] == names[i]);
                assert forall|j: int| 0 <= j < i implies names[j] != name by {
                    assert(names.drop_last()[j] == names[j]);
                }
            },
            None => {
                assert forall|j: int| 0 <= j < names.len() - 1 implies names[j] != name by {
                    assert(names.drop_last()[j] == names[j]);
                }
            },
        }
    }
}

/// The names of variable groups, in their order.
pub open spec fn group_names(groups: Seq<VariableGroupData>) -> Seq<Seq<char>> {
    groups.map_values(|g: VariableGroupData| g.name@)
}

/// The names of pipelines, in their order.
pub open spec fn pipeline_names(pipelines: Seq<PipelineInfo>) -> Seq<Seq<char>> {
    pipelines.map_values(|p: PipelineInfo| p.name@)
}

/// Picks, among the groups that the service returned for a name, the one
/// that has exactly that name: the first, where several have it.
pub fn select_variable_group(groups: Vec<VariableGroupData>, group_name: &str) -> (outcome: Result<
    VariableGroupData,
    String,
>)
    ensures
        match first_named(group_names(groups@), group_name@) {
            Some(i) => outcome == Ok::<VariableGroupData, String>(groups@[i]),
            None => outcome is Err && outcome->Err_0@ == "Variable group '"@ + group_name@
                + "' not found"@,
        },
{
    let mut candidates = groups;
    let ghost all = candidates@;
    let mut i: usize = 0;
    while i < candidates.len()
        invariant
            i <= candidates.len(),
            candidates@ == all,
            all == groups@,
            forall|j: int| 0 <= j < i ==> group_names(all)[j] != group_name@,
        decreases candidates.len() - i,
    {
        if same_text(candidates[i].name.as_str(), group_name) {
            proof {
                lemma_first_named(group_names(all), group_name@);
                assert(group_names(all)[i as int] == group_name@);
            }
            return Ok(candidates.remove(i));
        }
        i += 1;
    }
    proof {
        lemma_first_named(group_names(all), group_name@);
        if first_named(group_names(all), group_name@) is Some {
            let k = first_named(group_names(all), group_name@)->0;
            assert(group_names(all)[k] == group_name@);
        }
    }
    let mut message = String::from_str("Variable group '");
    message.append(group_name);
    message.append("' not found");
    Err(message)
}

/// The id of the pipeline that has exactly the given name: the first, where
/// several have it.
pub fn find_pipeline_id(pipelines: &[PipelineInfo], pipeline_name: &str) -> (outcome: Result<
    i32,
    String,
>)
    ensures
        match first_named(pipeline_names(pipelines@), pipeline_name@) {
            Some(i) => outcome == Ok::<i32, String>(pipelines@[i].id),
            None => outcome is Err && outcome->Err_0@ == "Pipeline '"@ + pipeline_name@
                + "' not found"@,
        },
{
    let mut i: usize = 0;
    while i < pipelines.len()
        invariant
            i <= pipelines.len(),
            forall|j: int| 0 <= j < i ==> pipeline_names(pipelines@)[j] != pipeline_name@,
        decreases pipelines.len() - i,
    {
        if same_text(pipelines[i].name.as_str(), pipeline_name) {
            proof {
                lemma_first_named(pipeline_names(pipelines@), pipeline_name@);
                assert(pipeline_names(pipelines@)[i as int] == pipeline_name@);
            }
            return Ok(pipelines[i].id);
        }
        i += 1;
    }
    proof {
        lemma_first_named(pipeline_names(pipelines@), pipeline_name@);
        if first_named(pipeline_names(pipelines@), pipeline_name@) is Some {
            let k = first_named(pipeline_names(pipelines@), pipeline_name@)->0;
            assert(pipeline_names(pipelines@)[k] == pipeline_name@);
        }
    }
    let mut message = String::from_str("Pipeline '");
    message.append(pipeline_name);
    message.append("' not found");
    Err(message)
}

/// The names of the variables in a list of named values, in their order.
pub fn variable_names<T>(variables: &[(String, T)]) -> (names: Vec<String>)
    ensures
        names_of(names@) == keys_of(variables@),
        keys_of(variables@).no_duplicates() ==> names_of(names@).no_duplicates(),
{
    let mut names: Vec<String> = Vec::new();
    let mut i: usize = 0;
    while i < variables.len()
        invariant
            i <= variables.len(),
            names@.len() == i,
            forall|j: int| 0 <= j < i ==> names@[j]@ == variables@[j].0@,
        decreases variables.len() - i,
    {
        names.push(variables[i].0.clone());
        i += 1;
    }
    assert(names_of(names@) =~= keys_of(variables@));
    names
}

} // verus!
