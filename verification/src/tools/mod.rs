//! The tool catalogue offered to the model, and the decoding of a tool call
//! into the request it stands for.

pub mod file;
pub mod memory;
pub mod shell;
pub mod web_fetch;
pub mod web_search;

use vstd::prelude::*;
use crate::text::{str_eq, trim};
use memory::{
    law_confirmation_word,
    deletion_report, fresh_store, is_confirmation, search_report, stats_report, store_with_entry,
    without_type, MemoryManager,
};

verus! {

/// One string parameter of a tool.
pub struct ParameterSpec {
    pub name: String,
    pub param_type: String,
    pub description: String,
}

/// The JSON-schema object that describes a tool's parameters.
pub struct ToolParameters {
    /// The schema's `type` member: always `"object"`.
    pub schema_type: String,
    pub properties: Vec<ParameterSpec>,
    pub required: Vec<String>,
}

/// The function part of a tool definition.
pub struct FunctionDefinition {
    pub name: String,
    pub description: String,
    pub parameters: ToolParameters,
}

/// A tool definition as sent to the model.
pub struct ToolDefinition {
    pub tool_type: String,
    pub function: FunctionDefinition,
}

/// The mathematical value of a [`ParameterSpec`].
pub struct ParamView {
    pub name: Seq<char>,
    pub param_type: Seq<char>,
    pub description: Seq<char>,
}

/// The mathematical value of a [`ToolDefinition`].
pub struct DefView {
    pub tool_type: Seq<char>,
    pub name: Seq<char>,
    pub description: Seq<char>,
    pub schema_type: Seq<char>,
    pub properties: Seq<ParamView>,
    pub required: Seq<Seq<char>>,
}

impl View for ParameterSpec {
    type V = ParamView;

    open spec fn view(&self) -> ParamView {
        ParamView { name: self.name@, param_type: self.param_type@, description: self.description@ }
    }
}

impl View for ToolDefinition {
    type V = DefView;

    open spec fn view(&self) -> DefView {
        DefView {
            tool_type: self.tool_type@,
            name: self.function.name@,
            description: self.function.description@,
            schema_type: self.function.parameters.schema_type@,
            properties: self.function.parameters.properties@.map_values(|p: ParameterSpec| p@),
            required: self.function.parameters.required@.map_values(|s: String| s@),
        }
    }
}

/// A string parameter.
pub open spec fn param(name: Seq<char>, description: Seq<char>) -> ParamView {
    ParamView { name, param_type: "string"@, description }
}

/// A function tool.
pub open spec fn def(
    name: Seq<char>,
    description: Seq<char>,
    properties: Seq<ParamView>,
    required: Seq<Seq<char>>,
) -> DefView {
    DefView { tool_type: "function"@, name, description, schema_type: "object"@, properties, required }
}

/// The tools offered to the model, in order.
pub open spec fn catalog() -> Seq<DefView> {
    seq![
        def(
            "terminal"@,
            "Execute a shell command in bash and return the output. Use this to run system commands, view files, manage processes, etc."@,
            seq![param("command"@, "The shell command to execute"@)],
            seq!["command"@],
        ),
        def(
            "read_file"@,
            "Read the content of a file given its path."@,
            seq![param("file_path"@, "Path to the file to read"@)],
            seq!["file_path"@],
        ),
        def(
            "write_file"@,
            "Write content to a file. Creates the file if it doesn't exist, overwrites if it does."@,
            seq![
                param("file_path"@, "Path to the file to write"@),
                param("text"@, "Content to write to the file"@),
            ],
            seq!["file_path"@, "text"@],
        ),
        def(
            "list_directory"@,
            "List files and directories in a given path."@,
            seq![param("path"@, "Directory path to list (defaults to current directory)"@)],
            seq![],
        ),
        def(
            "remember_info"@,
            "Save important information to persistent memory. Use when the user asks you to remember something."@,
            seq![param("content"@, "The information to remember"@)],
            seq!["content"@],
        ),
        def(
            "search_memory"@,
            "Search for previously stored information in memory by keyword."@,
            seq![param("query"@, "Search query or keywords"@)],
            seq!["query"@],
        ),
        def(
            "memory_stats"@,
            "Get statistics about the memory database."@,
            seq![],
            seq![],
        ),
        def(
            "clear_memory"@,
            "Clear all memories. Input 'confirm' to proceed."@,
            seq![param("confirm"@, "Must be 'confirm' to proceed"@)],
            seq!["confirm"@],
        ),
        def(
            "delete_memory_type"@,
            "Delete all memories of a specific type."@,
            seq![
                param(
                    "memory_type"@,
                    "The memory type to delete (e.g. 'user_note', 'system_context')"@,
                ),
            ],
            seq!["memory_type"@],
        ),
    ]
}

fn make_param(name: &str, description: &str) -> (p: ParameterSpec)
    ensures
        p@ == param(name@, description@),
{
    ParameterSpec {
        name: name.to_owned(),
        param_type: "string".to_owned(),
        description: description.to_owned(),
    }
}

fn make_def(name: &str, description: &str, properties: Vec<ParameterSpec>, required: Vec<String>) -> (d: ToolDefinition)
    ensures
        d@ == def(
            name@,
            description@,
            properties@.map_values(|p: ParameterSpec| p@),
            required@.map_values(|s: String| s@),
        ),
{
    ToolDefinition {
        tool_type: "function".to_owned(),
        function: FunctionDefinition {
            name: name.to_owned(),
            description: description.to_owned(),
            parameters: ToolParameters { schema_type: "object".to_owned(), properties, required },
        },
    }
}

fn one_param(name: &str, description: &str) -> (v: Vec<ParameterSpec>)
    ensures
        v@.map_values(|p: ParameterSpec| p@) == seq![param(name@, description@)],
{
    let mut v = Vec::new();
    v.push(make_param(name, description));
    assert(v@.map_values(|p: ParameterSpec| p@) =~= seq![param(name@, description@)]);
    v
}

fn names(list: &[&str]) -> (v: Vec<String>)
    ensures
        v@.map_values(|s: String| s@) == list@.map_values(|s: &str| s@),
{
    let mut v: Vec<String> = Vec::new();
    let mut i: usize = 0;
    while i < list.len()
        invariant
            i <= list.len(),
            v@.map_values(|s: String| s@) == list@.map_values(|s: &str| s@).take(i as int),
        decreases list.len() - i,
    {
        let item = list[i].to_owned();
        let ghost before = v@;
        v.push(item);
        proof {
            assert(item@ == list@[i as int]@);
            assert(v@.map_values(|s: String| s@) =~= before.map_values(|s: String| s@).push(item@));
            assert(list@.map_values(|s: &str| s@).take(i + 1) =~= list@.map_values(|s: &str| s@).take(i as int).push(list@[i as int]@));
        }
        i = i + 1;
    }
    assert(list@.map_values(|s: &str| s@).take(list.len() as int) =~= list@.map_values(|s: &str| s@));
    v
}

/// The tool definitions sent to the model with every request.
pub fn tool_definitions() -> (r: Vec<ToolDefinition>)
    ensures
        r@.map_values(|d: ToolDefinition| d@) == catalog(),
{
    let mut r: Vec<ToolDefinition> = Vec::new();
    r.push(make_def(
        "terminal",
        "Execute a shell command in bash and return the output. Use this to run system commands, view files, manage processes, etc.",
        one_param("command", "The shell command to execute"),
        names(&["command"]),
    ));
    r.push(make_def(
        "read_file",
        "Read the content of a file given its path.",
        one_param("file_path", "Path to the file to read"),
        names(&["file_path"]),
    ));
    let mut write_params = Vec::new();
    write_params.push(make_param("file_path", "Path to the file to write"));
    write_params.push(make_param("text", "Content to write to the file"));
    r.push(make_def(
        "write_file",
        "Write content to a file. Creates the file if it doesn't exist, overwrites if it does.",
        write_params,
        names(&["file_path", "text"]),
    ));
    r.push(make_def(
        "list_directory",
        "List files and directories in a given path.",
        one_param("path", "Directory path to list (defaults to current directory)"),
        Vec::new(),
    ));
    r.push(make_def(
        "remember_info",
        "Save important information to persistent memory. Use when the user asks you to remember something.",
        one_param("content", "The information to remember"),
        names(&["content"]),
    ));
    r.push(make_def(
        "search_memory",
        "Search for previously stored information in memory by keyword.",
        one_param("query", "Search query or keywords"),
        names(&["query"]),
    ));
    r.push(make_def(
        "memory_stats",
        "Get statistics about the memory database.",
        Vec::new(),
        Vec::new(),
    ));
    r.push(make_def(
        "clear_memory",
        "Clear all memories. Input 'confirm' to proceed.",
        one_param("confirm", "Must be 'confirm' to proceed"),
        names(&["confirm"]),
    ));
    r.push(make_def(
        "delete_memory_type",
        "Delete all memories of a specific type.",
        one_param("memory_type", "The memory type to delete (e.g. 'user_note', 'system_context')"),
        names(&["memory_type"]),
    ));
    proof {
        let v = r@.map_values(|d: ToolDefinition| d@);
        assert(v[2].properties =~= catalog()[2].properties);
        assert(v[2].required =~= catalog()[2].required);
        assert(v[3].required =~= catalog()[3].required);
        assert(v[6].properties =~= catalog()[6].properties);
        assert(v[6].required =~= catalog()[6].required);
        assert(v[0].required =~= catalog()[0].required);
        assert(v[1].required =~= catalog()[1].required);
        assert(v[4].required =~= catalog()[4].required);
        assert(v[5].required =~= catalog()[5].required);
        assert(v[7].required =~= catalog()[7].required);
        assert(v[8].required =~= catalog()[8].required);
        assert(v =~= catalog());
    }
    r
}


/// What `serde_json` finds under `key` when `text` is parsed as JSON: the
/// string value of that member of an object, or `None` when `text` is not
/// JSON, not an object, lacks the member, or the member is not a string.
pub uninterp spec fn json_string_field(text: Seq<char>, key: Seq<char>) -> Option<Seq<char>>;

/// Parses `text` with `serde_json::from_str` (an unparsable text counts as
/// `null`), indexes it by `key` and takes `as_str`.  The contract claims only
/// that the result is [`json_string_field`] of the two arguments.
#[verifier::external_body]
fn json_field(text: &str, key: &str) -> (r: Option<String>)
    ensures
        opt_text(r) == json_string_field(text@, key@),
{
    let value: serde_json::Value = serde_json::from_str(text).unwrap_or_default();
    value[key].as_str().map(|s| s.to_string())
}

/// The view of an optional string.
pub open spec fn opt_text(s: Option<String>) -> Option<Seq<char>> {
    match s {
        Some(t) => Some(t@),
        None => None,
    }
}

/// The string member `key` of the JSON arguments, or `default`.
pub open spec fn field_or(args: Seq<char>, key: Seq<char>, default: Seq<char>) -> Seq<char> {
    match json_string_field(args, key) {
        Some(v) => v,
        None => default,
    }
}

/// The request a tool call stands for.
pub enum ToolRequest {
    Terminal { command: String },
    ReadFile { file_path: String },
    WriteFile { file_path: String, text: String },
    ListDirectory { path: String },
    RememberInfo { content: String },
    SearchMemory { query: String },
    MemoryStats,
    ClearMemory { confirm: String },
    DeleteMemoryType { memory_type: String },
    Unknown { message: String },
}

/// The mathematical value of a [`ToolRequest`].
pub enum RequestView {
    Terminal { command: Seq<char> },
    ReadFile { file_path: Seq<char> },
    WriteFile { file_path: Seq<char>, text: Seq<char> },
    ListDirectory { path: Seq<char> },
    RememberInfo { content: Seq<char> },
    SearchMemory { query: Seq<char> },
    MemoryStats,
    ClearMemory { confirm: Seq<char> },
    DeleteMemoryType { memory_type: Seq<char> },
    Unknown { message: Seq<char> },
}

impl View for ToolRequest {
    type V = RequestView;

    open spec fn view(&self) -> RequestView {
        match self {
            ToolRequest::Terminal { command } => RequestView::Terminal { command: command@ },
            ToolRequest::ReadFile { file_path } => RequestView::ReadFile { file_path: file_path@ },
            ToolRequest::WriteFile { file_path, text } => RequestView::WriteFile {
                file_path: file_path@,
                text: text@,
            },
            ToolRequest::ListDirectory { path } => RequestView::ListDirectory { path: path@ },
            ToolRequest::RememberInfo { content } => RequestView::RememberInfo { content: content@ },
            ToolRequest::SearchMemory { query } => RequestView::SearchMemory { query: query@ },
            ToolRequest::MemoryStats => RequestView::MemoryStats,
            ToolRequest::ClearMemory { confirm } => RequestView::ClearMemory { confirm: confirm@ },
            ToolRequest::DeleteMemoryType { memory_type } => RequestView::DeleteMemoryType {
                memory_type: memory_type@,
            },
            ToolRequest::Unknown { message } => RequestView::Unknown { message: message@ },
        }
    }
}

/// The request for a call of tool `name` with JSON `args`.  A member that
/// is missing falls back to the raw arguments, to `"."` for a directory
/// listing, and to the empty string for writes and clears.
pub open spec fn planned_request(name: Seq<char>, args: Seq<char>) -> RequestView {
    if name == "terminal"@ {
        RequestView::Terminal { command: field_or(args, "command"@, args) }
    } else if name == "read_file"@ {
        RequestView::ReadFile { file_path: field_or(args, "file_path"@, args) }
    } else if name == "write_file"@ {
        RequestView::WriteFile {
            file_path: field_or(args, "file_path"@, ""@),
            text: field_or(args, "text"@, ""@),
        }
    } else if name == "list_directory"@ {
        RequestView::ListDirectory { path: field_or(args, "path"@, "."@) }
    } else if name == "remember_info"@ {
        RequestView::RememberInfo { content: field_or(args, "content"@, args) }
    } else if name == "search_memory"@ {
        RequestView::SearchMemory { query: field_or(args, "query"@, args) }
    } else if name == "memory_stats"@ {
        RequestView::MemoryStats
    } else if name == "clear_memory"@ {
        RequestView::ClearMemory { confirm: field_or(args, "confirm"@, ""@) }
    } else if name == "delete_memory_type"@ {
        RequestView::DeleteMemoryType { memory_type: field_or(args, "memory_type"@, args) }
    } else {
        RequestView::Unknown { message: "Unknown tool: "@ + name }
    }
}

fn member_or(args: &str, key: &str, default: &str) -> (r: String)
    ensures
        r@ == field_or(args@, key@, default@),
{
    match json_field(args, key) {
        Some(v) => v,
        None => default.to_owned(),
    }
}

/// Decodes a tool call of tool `name` with JSON `arguments`.
pub fn plan_tool_call(name: &str, arguments: &str) -> (r: ToolRequest)
    ensures
        r@ == planned_request(name@, arguments@),
{
    if str_eq(name, "terminal") {
        ToolRequest::Terminal { command: member_or(arguments, "command", arguments) }
    } else if str_eq(name, "read_file") {
        ToolRequest::ReadFile { file_path: member_or(arguments, "file_path", arguments) }
    } else if str_eq(name, "write_file") {
        ToolRequest::WriteFile {
            file_path: member_or(arguments, "file_path", ""),
            text: member_or(arguments, "text", ""),
        }
    } else if str_eq(name, "list_directory") {
        ToolRequest::ListDirectory { path: member_or(arguments, "path", ".") }
    } else if str_eq(name, "remember_info") {
        ToolRequest::RememberInfo { content: member_or(arguments, "content", arguments) }
    } else if str_eq(name, "search_memory") {
        ToolRequest::SearchMemory { query: member_or(arguments, "query", arguments) }
    } else if str_eq(name, "memory_stats") {
        ToolRequest::MemoryStats
    } else if str_eq(name, "clear_memory") {
        ToolRequest::ClearMemory { confirm: member_or(arguments, "confirm", "") }
    } else if str_eq(name, "delete_memory_type") {
        ToolRequest::DeleteMemoryType { memory_type: member_or(arguments, "memory_type", arguments) }
    } else {
        let mut message = "Unknown tool: ".to_owned();
        message.append(name);
        ToolRequest::Unknown { message }
    }
}

/// The names of the tools in the catalogue.
pub open spec fn catalog_names() -> Seq<Seq<char>> {
    catalog().map_values(|d: DefView| d.name)
}

/// Every tool the model is offered is understood: a call of any catalogue
/// tool decodes to a request of that tool, never to an unknown tool.
pub proof fn law_offered_tools_are_dispatched(i: int, args: Seq<char>)
    requires
        0 <= i < catalog().len(),
    ensures
        !(planned_request(catalog()[i].name, args) is Unknown),
{
}

/// A name outside the catalogue is answered as an unknown tool.
pub proof fn law_unknown_tools_are_reported(name: Seq<char>, args: Seq<char>)
    requires
        !catalog_names().contains(name),
    ensures
        planned_request(name, args) == (RequestView::Unknown { message: "Unknown tool: "@ + name }),
{
    assert(catalog_names()[0] == "terminal"@);
    assert(catalog_names()[1] == "read_file"@);
    assert(catalog_names()[2] == "write_file"@);
    assert(catalog_names()[3] == "list_directory"@);
    assert(catalog_names()[4] == "remember_info"@);
    assert(catalog_names()[5] == "search_memory"@);
    assert(catalog_names()[6] == "memory_stats"@);
    assert(catalog_names()[7] == "clear_memory"@);
    assert(catalog_names()[8] == "delete_memory_type"@);
}

proof fn lemma_tool_names_distinct()
    ensures
        "read_file"@ != "terminal"@,
        "write_file"@ != "terminal"@ && "write_file"@ != "read_file"@,
        "list_directory"@ != "terminal"@ && "list_directory"@ != "read_file"@ && "list_directory"@ != "write_file"@,
        "remember_info"@ != "terminal"@ && "remember_info"@ != "read_file"@ && "remember_info"@ != "write_file"@ && "remember_info"@ != "list_directory"@,
        "search_memory"@ != "terminal"@ && "search_memory"@ != "read_file"@ && "search_memory"@ != "write_file"@ && "search_memory"@ != "list_directory"@ && "search_memory"@ != "remember_info"@,
        "clear_memory"@ != "terminal"@ && "clear_memory"@ != "read_file"@ && "clear_memory"@ != "write_file"@ && "clear_memory"@ != "list_directory"@ && "clear_memory"@ != "remember_info"@ && "clear_memory"@ != "search_memory"@ && "clear_memory"@ != "memory_stats"@,
        "delete_memory_type"@ != "terminal"@ && "delete_memory_type"@ != "read_file"@ && "delete_memory_type"@ != "write_file"@ && "delete_memory_type"@ != "list_directory"@ && "delete_memory_type"@ != "remember_info"@ && "delete_memory_type"@ != "search_memory"@ && "delete_memory_type"@ != "memory_stats"@ && "delete_memory_type"@ != "clear_memory"@,
{
    assert("read_file"@ != "terminal"@) by {
        reveal_strlit("read_file");
        reveal_strlit("terminal");
        assert("read_file"@.len() != "terminal"@.len() || "read_file"@[0] != "terminal"@[0] || "read_file"@[1] != "terminal"@[1] || "read_file"@[2] != "terminal"@[2]);
    }
    assert("write_file"@ != "terminal"@ && "write_file"@ != "read_file"@) by {
        reveal_strlit("write_file");
        reveal_strlit("terminal");
        reveal_strlit("read_file");
        assert("write_file"@.len() != "terminal"@.len() || "write_file"@[0] != "terminal"@[0] || "write_file"@[1] != "terminal"@[1] || "write_file"@[2] != "terminal"@[2]);
        assert("write_file"@.len() != "read_file"@.len() || "write_file"@[0] != "read_file"@[0] || "write_file"@[1] != "read_file"@[1] || "write_file"@[2] != "read_file"@[2]);
    }
    assert("list_directory"@ != "terminal"@ && "list_directory"@ != "read_file"@ && "list_directory"@ != "write_file"@) by {
        reveal_strlit("list_directory");
        reveal_strlit("terminal");
        reveal_strlit("read_file");
        reveal_strlit("write_file");
        assert("list_directory"@.len() != "terminal"@.len() || "list_directory"@[0] != "terminal"@[0] || "list_directory"@[1] != "terminal"@[1] || "list_directory"@[2] != "terminal"@[2]);
        assert("list_directory"@.len() != "read_file"@.len() || "list_directory"@[0] != "read_file"@[0] || "list_directory"@[1] != "read_file"@[1] || "list_directory"@[2] != "read_file"@[2]);
        assert("list_directory"@.len() != "write_file"@.len() || "list_directory"@[0] != "write_file"@[0] || "list_directory"@[1] != "write_file"@[1] || "list_directory"@[2] != "write_file"@[2]);
    }
    assert("remember_info"@ != "terminal"@ && "remember_info"@ != "read_file"@ && "remember_info"@ != "write_file"@ && "remember_info"@ != "list_directory"@) by {
        reveal_strlit("remember_info");
        reveal_strlit("terminal");
        reveal_strlit("read_file");
        reveal_strlit("write_file");
        reveal_strlit("list_directory");
        assert("remember_info"@.len() != "terminal"@.len() || "remember_info"@[0] != "terminal"@[0] || "remember_info"@[1] != "terminal"@[1] || "remember_info"@[2] != "terminal"@[2]);
        assert("remember_info"@.len() != "read_file"@.len() || "remember_info"@[0] != "read_file"@[0] || "remember_info"@[1] != "read_file"@[1] || "remember_info"@[2] != "read_file"@[2]);
        assert("remember_info"@.len() != "write_file"@.len() || "remember_info"@[0] != "write_file"@[0] || "remember_info"@[1] != "write_file"@[1] || "remember_info"@[2] != "write_file"@[2]);
        assert("remember_info"@.len() != "list_directory"@.len() || "remember_info"@[0] != "list_directory"@[0] || "remember_info"@[1] != "list_directory"@[1] || "remember_info"@[2] != "list_directory"@[2]);
    }
    assert("search_memory"@ != "terminal"@ && "search_memory"@ != "read_file"@ && "search_memory"@ != "write_file"@ && "search_memory"@ != "list_directory"@ && "search_memory"@ != "remember_info"@) by {
        reveal_strlit("search_memory");
        reveal_strlit("terminal");
        reveal_strlit("read_file");
        reveal_strlit("write_file");
        reveal_strlit("list_directory");
        reveal_strlit("remember_info");
        assert("search_memory"@.len() != "terminal"@.len() || "search_memory"@[0] != "terminal"@[0] || "search_memory"@[1] != "terminal"@[1] || "search_memory"@[2] != "terminal"@[2]);
        assert("search_memory"@.len() != "read_file"@.len() || "search_memory"@[0] != "read_file"@[0] || "search_memory"@[1] != "read_file"@[1] || "search_memory"@[2] != "read_file"@[2]);
        assert("search_memory"@.len() != "write_file"@.len() || "search_memory"@[0] != "write_file"@[0] || "search_memory"@[1] != "write_file"@[1] || "search_memory"@[2] != "write_file"@[2]);
        assert("search_memory"@.len() != "list_directory"@.len() || "search_memory"@[0] != "list_directory"@[0] || "search_memory"@[1] != "list_directory"@[1] || "search_memory"@[2] != "list_directory"@[2]);
        assert("search_memory"@.len() != "remember_info"@.len() || "search_memory"@[0] != "remember_info"@[0] || "search_memory"@[1] != "remember_info"@[1] || "search_memory"@[2] != "remember_info"@[2]);
    }
    assert("clear_memory"@ != "terminal"@ && "clear_memory"@ != "read_file"@ && "clear_memory"@ != "write_file"@ && "clear_memory"@ != "list_directory"@ && "clear_memory"@ != "remember_info"@ && "clear_memory"@ != "search_memory"@ && "clear_memory"@ != "memory_stats"@) by {
        reveal_strlit("clear_memory");
        reveal_strlit("terminal");
        reveal_strlit("read_file");
        reveal_strlit("write_file");
        reveal_strlit("list_directory");
        reveal_strlit("remember_info");
        reveal_strlit("search_memory");
        reveal_strlit("memory_stats");
        assert("clear_memory"@.len() != "terminal"@.len() || "clear_memory"@[0] != "terminal"@[0] || "clear_memory"@[1] != "terminal"@[1] || "clear_memory"@[2] != "terminal"@[2]);
        assert("clear_memory"@.len() != "read_file"@.len() || "clear_memory"@[0] != "read_file"@[0] || "clear_memory"@[1] != "read_file"@[1] || "clear_memory"@[2] != "read_file"@[2]);
        assert("clear_memory"@.len() != "write_file"@.len() || "clear_memory"@[0] != "write_file"@[0] || "clear_memory"@[1] != "write_file"@[1] || "clear_memory"@[2] != "write_file"@[2]);
        assert("clear_memory"@.len() != "list_directory"@.len() || "clear_memory"@[0] != "list_directory"@[0] || "clear_memory"@[1] != "list_directory"@[1] || "clear_memory"@[2] != "list_directory"@[2]);
        assert("clear_memory"@.len() != "remember_info"@.len() || "clear_memory"@[0] != "remember_info"@[0] || "clear_memory"@[1] != "remember_info"@[1] || "clear_memory"@[2] != "remember_info"@[2]);
        assert("clear_memory"@.len() != "search_memory"@.len() || "clear_memory"@[0] != "search_memory"@[0] || "clear_memory"@[1] != "search_memory"@[1] || "clear_memory"@[2] != "search_memory"@[2]);
        assert("clear_memory"@.len() != "memory_stats"@.len() || "clear_memory"@[0] != "memory_stats"@[0] || "clear_memory"@[1] != "memory_stats"@[1] || "clear_memory"@[2] != "memory_stats"@[2]);
    }
    assert("delete_memory_type"@ != "terminal"@ && "delete_memory_type"@ != "read_file"@ && "delete_memory_type"@ != "write_file"@ && "delete_memory_type"@ != "list_directory"@ && "delete_memory_type"@ != "remember_info"@ && "delete_memory_type"@ != "search_memory"@ && "delete_memory_type"@ != "memory_stats"@ && "delete_memory_type"@ != "clear_memory"@) by {
        reveal_strlit("delete_memory_type");
        reveal_strlit("terminal");
        reveal_strlit("read_file");
        reveal_strlit("write_file");
        reveal_strlit("list_directory");
        reveal_strlit("remember_info");
        reveal_strlit("search_memory");
        reveal_strlit("memory_stats");
        reveal_strlit("clear_memory");
        assert("delete_memory_type"@.len() != "terminal"@.len() || "delete_memory_type"@[0] != "terminal"@[0] || "delete_memory_type"@[1] != "terminal"@[1] || "delete_memory_type"@[2] != "terminal"@[2]);
        assert("delete_memory_type"@.len() != "read_file"@.len() || "delete_memory_type"@[0] != "read_file"@[0] || "delete_memory_type"@[1] != "read_file"@[1] || "delete_memory_type"@[2] != "read_file"@[2]);
        assert("delete_memory_type"@.len() != "write_file"@.len() || "delete_memory_type"@[0] != "write_file"@[0] || "delete_memory_type"@[1] != "write_file"@[1] || "delete_memory_type"@[2] != "write_file"@[2]);
        assert("delete_memory_type"@.len() != "list_directory"@.len() || "delete_memory_type"@[0] != "list_directory"@[0] || "delete_memory_type"@[1] != "list_directory"@[1] || "delete_memory_type"@[2] != "list_directory"@[2]);
        assert("delete_memory_type"@.len() != "remember_info"@.len() || "delete_memory_type"@[0] != "remember_info"@[0] || "delete_memory_type"@[1] != "remember_info"@[1] || "delete_memory_type"@[2] != "remember_info"@[2]);
        assert("delete_memory_type"@.len() != "search_memory"@.len() || "delete_memory_type"@[0] != "search_memory"@[0] || "delete_memory_type"@[1] != "search_memory"@[1] || "delete_memory_type"@[2] != "search_memory"@[2]);
        assert("delete_memory_type"@.len() != "memory_stats"@.len() || "delete_memory_type"@[0] != "memory_stats"@[0] || "delete_memory_type"@[1] != "memory_stats"@[1] || "delete_memory_type"@[2] != "memory_stats"@[2]);
        assert("delete_memory_type"@.len() != "clear_memory"@.len() || "delete_memory_type"@[0] != "clear_memory"@[0] || "delete_memory_type"@[1] != "clear_memory"@[1] || "delete_memory_type"@[2] != "clear_memory"@[2]);
    }
}

/// A string member that the arguments hold is the one used: each tool's
/// request carries exactly the value of its member (`command`, `file_path`,
/// `text`, `path`, `content`, `query`, `confirm`, `memory_type`).
pub proof fn law_present_members_are_used(args: Seq<char>, v: Seq<char>, w: Seq<char>)
    ensures
        json_string_field(args, "command"@) == Some(v) ==> planned_request("terminal"@, args)
            == (RequestView::Terminal { command: v }),
        json_string_field(args, "file_path"@) == Some(v) ==> planned_request("read_file"@, args)
            == (RequestView::ReadFile { file_path: v }),
        json_string_field(args, "file_path"@) == Some(v) && json_string_field(args, "text"@) == Some(w)
            ==> planned_request("write_file"@, args) == (RequestView::WriteFile { file_path: v, text: w }),
        json_string_field(args, "path"@) == Some(v) ==> planned_request("list_directory"@, args)
            == (RequestView::ListDirectory { path: v }),
        json_string_field(args, "content"@) == Some(v) ==> planned_request("remember_info"@, args)
            == (RequestView::RememberInfo { content: v }),
        json_string_field(args, "query"@) == Some(v) ==> planned_request("search_memory"@, args)
            == (RequestView::SearchMemory { query: v }),
        json_string_field(args, "confirm"@) == Some(v) ==> planned_request("clear_memory"@, args)
            == (RequestView::ClearMemory { confirm: v }),
        json_string_field(args, "memory_type"@) == Some(v) ==> planned_request(
            "delete_memory_type"@,
            args,
        ) == (RequestView::DeleteMemoryType { memory_type: v }),
{
    lemma_tool_names_distinct();
}

/// Arguments that are not JSON, or lack the tool's member, fall back: the
/// raw arguments for a command, a path to read, a memory, a query or a
/// type; `"."` for a listing; the empty text for a write and for a clear,
/// which then clears nothing.
pub proof fn law_missing_members_fall_back(args: Seq<char>)
    ensures
        json_string_field(args, "command"@) is None ==> planned_request("terminal"@, args)
            == (RequestView::Terminal { command: args }),
        json_string_field(args, "file_path"@) is None ==> planned_request("read_file"@, args)
            == (RequestView::ReadFile { file_path: args }),
        json_string_field(args, "file_path"@) is None && json_string_field(args, "text"@) is None
            ==> planned_request("write_file"@, args) == (RequestView::WriteFile {
            file_path: ""@,
            text: ""@,
        }),
        json_string_field(args, "path"@) is None ==> planned_request("list_directory"@, args)
            == (RequestView::ListDirectory { path: "."@ }),
        json_string_field(args, "content"@) is None ==> planned_request("remember_info"@, args)
            == (RequestView::RememberInfo { content: args }),
        json_string_field(args, "query"@) is None ==> planned_request("search_memory"@, args)
            == (RequestView::SearchMemory { query: args }),
        json_string_field(args, "confirm"@) is None ==> planned_request("clear_memory"@, args)
            == (RequestView::ClearMemory { confirm: ""@ }) && !writes_store(
            planned_request("clear_memory"@, args),
        ),
        json_string_field(args, "memory_type"@) is None ==> planned_request(
            "delete_memory_type"@,
            args,
        ) == (RequestView::DeleteMemoryType { memory_type: args }),
{
    lemma_tool_names_distinct();
    law_confirmation_word(""@);
    reveal_strlit("");
    assert(trim(""@).len() == 0);
}

/// Each required parameter of a catalogue tool is one of its declared
/// properties.
pub proof fn law_required_parameters_are_declared(i: int, k: int)
    requires
        0 <= i < catalog().len(),
        0 <= k < catalog()[i].required.len(),
    ensures
        exists|j: int|
            0 <= j < catalog()[i].properties.len() && #[trigger] catalog()[i].properties[j].name
                == catalog()[i].required[k],
{
    if i == 2 && k == 1 {
        assert(catalog()[i].properties[1].name == catalog()[i].required[k]);
    } else {
        assert(catalog()[i].properties[0].name == catalog()[i].required[k]);
    }
}

/// Whether a request is served by the memory store.
pub open spec fn is_memory_request(r: RequestView) -> bool {
    ||| r is RememberInfo
    ||| r is SearchMemory
    ||| r is MemoryStats
    ||| r is ClearMemory
    ||| r is DeleteMemoryType
}

/// Whether serving a request changes the store, so that it must be written
/// back: an addition, a deletion, or a confirmed clear.
pub open spec fn writes_store(r: RequestView) -> bool {
    match r {
        RequestView::RememberInfo { .. } => true,
        RequestView::DeleteMemoryType { .. } => true,
        RequestView::ClearMemory { confirm } => is_confirmation(confirm),
        _ => false,
    }
}

/// Tells whether serving `request` changes the store.
pub fn request_writes_store(request: &ToolRequest) -> (b: bool)
    ensures
        b == writes_store(request@),
{
    match request {
        ToolRequest::RememberInfo { .. } => true,
        ToolRequest::DeleteMemoryType { .. } => true,
        ToolRequest::ClearMemory { confirm } => memory::confirms_clear(confirm.as_str()),
        _ => false,
    }
}

/// Serves a memory request at time `now`: the answer, and the store
/// afterwards.  Other requests get `None` and leave the store alone.
pub fn run_memory_tool_at(memory: &mut MemoryManager, request: &ToolRequest, now: String) -> (r: Option<String>)
    requires
        request@ is RememberInfo ==> old(memory)@.store.next_id < u64::MAX,
    ensures
        final(memory)@.file_path == old(memory)@.file_path,
        r is Some <==> is_memory_request(request@),
        !writes_store(request@) ==> final(memory)@ == old(memory)@,
        match request@ {
            RequestView::RememberInfo { content } => final(memory)@.store == store_with_entry(
                old(memory)@.store,
                content,
                "user_note"@,
                "medium"@,
                now@,
            ) && opt_text(r) == Some("Memory saved successfully."@),
            RequestView::SearchMemory { query } => final(memory)@ == old(memory)@
                && opt_text(r) == Some(search_report(old(memory)@.store.entries, query)),
            RequestView::MemoryStats => final(memory)@ == old(memory)@
                && opt_text(r) == Some(stats_report(old(memory)@.store)),
            RequestView::ClearMemory { confirm } => if is_confirmation(confirm) {
                final(memory)@.store == fresh_store(now@) && opt_text(r) == Some("All memories cleared."@)
            } else {
                final(memory)@ == old(memory)@ && opt_text(r) == Some(
                    "Please input 'confirm' to clear all memories."@,
                )
            },
            RequestView::DeleteMemoryType { memory_type } => final(memory)@.store.entries
                == without_type(old(memory)@.store.entries, trim(memory_type))
                && final(memory)@.store.next_id == old(memory)@.store.next_id
                && final(memory)@.store.last_updated == now@
                && opt_text(r) == Some(deletion_report(
                    (old(memory)@.store.entries.len() - final(memory)@.store.entries.len()) as nat,
                    memory_type,
                )),
            _ => final(memory)@ == old(memory)@,
        },
{
    match request {
        ToolRequest::RememberInfo { content } => Some(
            memory.add_memory_at(content.as_str(), "user_note", "medium", now),
        ),
        ToolRequest::SearchMemory { query } => Some(memory.search_memory(query.as_str())),
        ToolRequest::MemoryStats => Some(memory.get_stats()),
        ToolRequest::ClearMemory { confirm } => Some(memory.clear_memory_at(confirm.as_str(), now)),
        ToolRequest::DeleteMemoryType { memory_type } => Some(
            memory.delete_by_type_at(memory_type.as_str(), now),
        ),
        _ => None,
    }
}

/// [`run_memory_tool_at`] dated with the current time.
pub fn run_memory_tool(memory: &mut MemoryManager, request: &ToolRequest) -> (r: Option<String>)
    requires
        request@ is RememberInfo ==> old(memory)@.store.next_id < u64::MAX,
    ensures
        final(memory)@.file_path == old(memory)@.file_path,
        r is Some <==> is_memory_request(request@),
        !writes_store(request@) ==> final(memory)@ == old(memory)@,
        request@ is SearchMemory ==> final(memory)@ == old(memory)@ && opt_text(r) == Some(
            search_report(old(memory)@.store.entries, request@->SearchMemory_query),
        ),
        request@ is MemoryStats ==> final(memory)@ == old(memory)@ && opt_text(r) == Some(
            stats_report(old(memory)@.store),
        ),
        request@ is RememberInfo ==> final(memory)@.store == store_with_entry(
            old(memory)@.store,
            request@->RememberInfo_content,
            "user_note"@,
            "medium"@,
            final(memory)@.store.last_updated,
        ) && opt_text(r) == Some("Memory saved successfully."@),
        request@ is ClearMemory ==> if is_confirmation(request@->ClearMemory_confirm) {
            final(memory)@.store == fresh_store(final(memory)@.store.last_updated) && opt_text(r)
                == Some("All memories cleared."@)
        } else {
            final(memory)@ == old(memory)@ && opt_text(r) == Some(
                "Please input 'confirm' to clear all memories."@,
            )
        },
        request@ is DeleteMemoryType ==> final(memory)@.store.entries == without_type(
            old(memory)@.store.entries,
            trim(request@->DeleteMemoryType_memory_type),
        ) && final(memory)@.store.next_id == old(memory)@.store.next_id && opt_text(r) == Some(
            deletion_report(
                (old(memory)@.store.entries.len() - final(memory)@.store.entries.len()) as nat,
                request@->DeleteMemoryType_memory_type,
            ),
        ),
{
    run_memory_tool_at(memory, request, memory::clock_stamp())
}

} // verus!
