//! The result that a saga hands to its caller, and the requests of the
//! out-of-process agent plugin.

use vstd::prelude::*;
use crate::names::{forward_slashes, with_forward_slashes};
use crate::outside::{empty_object, field_names, insert_string, no_fields, string_fields};

verus! {

/// What a saga reports when it is over.
#[derive(Debug, Clone, PartialEq, Eq)]
pub struct AgentResponse {
    pub success: bool,
    pub message: String,
    pub file_modified: Option<String>,
    pub document_content: Option<String>,
    pub error: Option<String>,
}

/// The mathematical value of an [`AgentResponse`].
pub struct ResponseModel {
    pub success: bool,
    pub message: Seq<char>,
    pub file_modified: Option<Seq<char>>,
    pub document_content: Option<Seq<char>>,
    pub error: Option<Seq<char>>,
}

impl View for AgentResponse {
    type V = ResponseModel;

    open spec fn view(&self) -> ResponseModel {
        ResponseModel {
            success: self.success,
            message: self.message@,
            file_modified: self.file_modified.deep_view(),
            document_content: self.document_content.deep_view(),
            error: self.error.deep_view(),
        }
    }
}

/// What the plugin is asked when a requirement document is to be updated.
#[derive(Debug, Clone, PartialEq, Eq)]
pub struct RequirementUpdateRequest {
    pub user_input: String,
    pub project_path: String,
    pub current_content: String,
}

/// What the plugin is asked when files are to be created.
#[derive(Debug, Clone, PartialEq, Eq)]
pub struct CreateFilesRequest {
    pub user_input: String,
    pub project_path: String,
    pub requirement_path: String,
}

/// The agent plugin, which runs in a scripting runtime of its own.
#[derive(Debug, Clone, PartialEq, Eq)]
pub struct ClaudeAgentNode {
    pub plugin_path: String,
}

/// The script that loads the plugin at `plugin`, calls its function
/// `function` on the arguments read from the file `arguments`, and prints
/// the result as JSON, or the error on the error stream. Paths are written
/// with forward slashes.
pub open spec fn plugin_script(plugin: Seq<char>, arguments: Seq<char>, function: Seq<char>) -> Seq<char> {
    "const plugin = require('"@ + forward_slashes(plugin) + "'); const args = require('"@
        + forward_slashes(arguments) + "'); plugin[\""@ + function
        + "\"](args).then(r => console.log(JSON.stringify(r))).catch(e => console.error(JSON.stringify({error: e.message})));"@
}

/// The arguments of the plugin's `updateRequirement`, and no other.
pub open spec fn requirement_arguments(req: RequirementUpdateRequest) -> Map<Seq<char>, Seq<char>> {
    no_fields().insert("prompt"@, req.user_input@).insert("projectPath"@, req.project_path@).insert(
        "currentContent"@,
        req.current_content@,
    )
}

/// The arguments of the plugin's `createFiles`, and no other.
pub open spec fn files_arguments(req: CreateFilesRequest) -> Map<Seq<char>, Seq<char>> {
    no_fields().insert("prompt"@, req.user_input@).insert("projectPath"@, req.project_path@).insert(
        "requirementPath"@,
        req.requirement_path@,
    )
}

impl ClaudeAgentNode {
    /// The plugin installed at `plugin_path`.
    pub fn new(plugin_path: String) -> (node: ClaudeAgentNode)
        ensures
            node.plugin_path == plugin_path,
    {
        ClaudeAgentNode { plugin_path }
    }

    /// The script that calls `function` of the plugin on the arguments in
    /// the file `arguments_path`.
    pub fn script(&self, arguments_path: &str, function: &str) -> (r: String)
        ensures
            r@ == plugin_script(self.plugin_path@, arguments_path@, function@),
    {
        let plugin = with_forward_slashes(self.plugin_path.as_str());
        let arguments = with_forward_slashes(arguments_path);
        let mut r = String::from_str("const plugin = require('");
        r.append(plugin.as_str());
        r.append("'); const args = require('");
        r.append(arguments.as_str());
        r.append("'); plugin[\"");
        r.append(function);
        r.append(
            "\"](args).then(r => console.log(JSON.stringify(r))).catch(e => console.error(JSON.stringify({error: e.message})));",
        );
        r
    }

    /// The arguments for updating a requirement document.
    pub fn update_requirement(&self, req: RequirementUpdateRequest) -> (r: serde_json::Map<String, serde_json::Value>)
        ensures
            string_fields(r) == requirement_arguments(req),
            field_names(r) == requirement_arguments(req).dom(),
    {
        let mut r = empty_object();
        insert_string(&mut r, "prompt", req.user_input);
        insert_string(&mut r, "projectPath", req.project_path);
        insert_string(&mut r, "currentContent", req.current_content);
        assert(field_names(r) =~= string_fields(r).dom());
        r
    }

    /// The arguments for creating files.
    pub fn create_files(&self, req: CreateFilesRequest) -> (r: serde_json::Map<String, serde_json::Value>)
        ensures
            string_fields(r) == files_arguments(req),
            field_names(r) == files_arguments(req).dom(),
    {
        let mut r = empty_object();
        insert_string(&mut r, "prompt", req.user_input);
        insert_string(&mut r, "projectPath", req.project_path);
        insert_string(&mut r, "requirementPath", req.requirement_path);
        assert(field_names(r) =~= string_fields(r).dom());
        r
    }
}

/// The message for a plugin run that ended in failure: it holds what the
/// run wrote on its error stream.
pub open spec fn plugin_failure(errors: Seq<char>) -> Seq<char> {
    "Node.js execution failed: "@ + errors
}

/// The message for plugin output that is not JSON: it holds the cause and
/// the output.
pub open spec fn plugin_output_failure(cause: Seq<char>, output: Seq<char>) -> Seq<char> {
    "Failed to parse Node.js output: "@ + cause + " - Output: "@ + output
}

/// What a run of the plugin gave: its output, to be read as JSON, or the
/// message of the failure.
pub fn plugin_output(succeeded: bool, output: String, errors: &str) -> (r: Result<String, String>)
    ensures
        match r {
            Ok(text) => succeeded && text == output,
            Err(message) => !succeeded && message@ == plugin_failure(errors@),
        },
{
    if succeeded {
        Ok(output)
    } else {
        Err(crate::text::concat2("Node.js execution failed: ", errors))
    }
}

/// The message for plugin output that could not be read as JSON.
pub fn plugin_output_error(cause: &str, output: &str) -> (r: String)
    ensures
        r@ == plugin_output_failure(cause@, output@),
{
    let mut r = String::from_str("Failed to parse Node.js output: ");
    r.append(cause);
    r.append(" - Output: ");
    r.append(output);
    r
}

} // verus!
