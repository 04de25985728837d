//! Tool registry and the per-tool validation and rendering logic. Each
//! tool's side effects (file reads and writes, process spawns, HTTP) run
//! outside the library; everything here decides, validates and formats.

use vstd::prelude::*;
use crate::jsonio::{
    json_as_array, json_as_str, json_elems, json_get, json_member, json_str, spec_str_field,
    str_field,
};
use crate::strutil::{spec_digits, str_eq, u64_to_string};

verus! {

/// Wall-clock limit for one shell command, in seconds.
pub const CMD_TIMEOUT_SECS: u64 = 5;
/// Cap on a shell command's combined output, in bytes.
pub const OUTPUT_LIMIT_BYTES: usize = 30 * 1024;
/// Cap on the file-read tool's output, in characters.
pub const FILE_READ_CAP: usize = 10000;
/// Cap on a web-search query, in characters.
pub const QUERY_CAP: usize = 200;

/// The concrete tools the model may invoke.
#[derive(Debug, Clone, Copy, PartialEq, Eq, Structural)]
pub enum ToolKind {
    WebSearch,
    FileRead,
    FileWrite,
    ShellExec,
}

/// A tool as published to the model.
#[derive(Debug, Clone)]
pub struct ToolMeta {
    pub name: String,
    pub description: String,
    /// A JSON-schema-like parameter specification, as JSON text.
    pub json_schema: String,
}

impl ToolKind {
    /// The registry name of the tool.
    pub fn name(&self) -> (r: &'static str)
        ensures
            r@ == self.spec_name(),
    {
        match self {
            ToolKind::WebSearch => "web_search",
            ToolKind::FileRead => "file_read",
            ToolKind::FileWrite => "file_write",
            ToolKind::ShellExec => "shell_exec",
        }
    }

    /// The registry name of the tool.
    pub open spec fn spec_name(&self) -> Seq<char> {
        match self {
            ToolKind::WebSearch => "web_search"@,
            ToolKind::FileRead => "file_read"@,
            ToolKind::FileWrite => "file_write"@,
            ToolKind::ShellExec => "shell_exec"@,
        }
    }

    /// The description published to the model.
    pub fn description(&self) -> (r: &'static str)
        ensures
            r@ == self.spec_description(),
    {
        match self {
            ToolKind::WebSearch => "Search the web and return brief results",
            ToolKind::FileRead => "Read a UTF-8 text file from the workspace",
            ToolKind::FileWrite => "Write text content to a file in the workspace",
            ToolKind::ShellExec => "Run simple read-only shell commands in the workspace",
        }
    }

    /// The description published to the model.
    pub open spec fn spec_description(&self) -> Seq<char> {
        match self {
            ToolKind::WebSearch => "Search the web and return brief results"@,
            ToolKind::FileRead => "Read a UTF-8 text file from the workspace"@,
            ToolKind::FileWrite => "Write text content to a file in the workspace"@,
            ToolKind::ShellExec => "Run simple read-only shell commands in the workspace"@,
        }
    }

    /// The parameter schema published to the model, as JSON text.
    pub fn json_schema(&self) -> (r: &'static str)
        ensures
            r@ == self.spec_json_schema(),
    {
        match self {
            ToolKind::WebSearch => "{\"type\":\"object\",\"properties\":{\"query\":{\"type\":\"string\",\"description\":\"Search phrase\"}},\"required\":[\"query\"]}",
            ToolKind::FileRead => "{\"type\":\"object\",\"properties\":{\"path\":{\"type\":\"string\",\"description\":\"Relative path inside workspace\"}},\"required\":[\"path\"]}",
            ToolKind::FileWrite => "{\"type\":\"object\",\"properties\":{\"path\":{\"type\":\"string\"},\"content\":{\"type\":\"string\"},\"mode\":{\"type\":\"string\",\"enum\":[\"overwrite\",\"append\"],\"default\":\"overwrite\"}},\"required\":[\"path\",\"content\"]}",
            ToolKind::ShellExec => "{\"type\":\"object\",\"properties\":{\"cmd\":{\"type\":\"string\",\"description\":\"Base command. Must be whitelisted.\"},\"args\":{\"type\":\"array\",\"items\":{\"type\":\"string\"},\"default\":[]}},\"required\":[\"cmd\"]}",
        }
    }

    /// The parameter schema published to the model, as JSON text.
    pub open spec fn spec_json_schema(&self) -> Seq<char> {
        match self {
            ToolKind::WebSearch => "{\"type\":\"object\",\"properties\":{\"query\":{\"type\":\"string\",\"description\":\"Search phrase\"}},\"required\":[\"query\"]}"@,
            ToolKind::FileRead => "{\"type\":\"object\",\"properties\":{\"path\":{\"type\":\"string\",\"description\":\"Relative path inside workspace\"}},\"required\":[\"path\"]}"@,
            ToolKind::FileWrite => "{\"type\":\"object\",\"properties\":{\"path\":{\"type\":\"string\"},\"content\":{\"type\":\"string\"},\"mode\":{\"type\":\"string\",\"enum\":[\"overwrite\",\"append\"],\"default\":\"overwrite\"}},\"required\":[\"path\",\"content\"]}"@,
            ToolKind::ShellExec => "{\"type\":\"object\",\"properties\":{\"cmd\":{\"type\":\"string\",\"description\":\"Base command. Must be whitelisted.\"},\"args\":{\"type\":\"array\",\"items\":{\"type\":\"string\"},\"default\":[]}},\"required\":[\"cmd\"]}"@,
        }
    }

    /// The published record for this tool.
    pub fn meta(&self) -> (r: ToolMeta)
        ensures
            r.name@ == self.spec_name(),
            r.description@ == self.spec_description(),
            r.json_schema@ == self.spec_json_schema(),
    {
        ToolMeta {
            name: self.name().to_owned(),
            description: self.description().to_owned(),
            json_schema: self.json_schema().to_owned(),
        }
    }
}

/// The name-addressed set of capabilities, populated once at startup.
pub struct ToolRegistry {
    tools: Vec<ToolKind>,
}

/// The tools of the default registry, in publication order.
pub open spec fn spec_default_tools() -> Seq<ToolKind> {
    seq![ToolKind::WebSearch, ToolKind::FileRead, ToolKind::FileWrite, ToolKind::ShellExec]
}

impl ToolRegistry {
    /// The registered tools.
    pub closed spec fn spec_tools(&self) -> Seq<ToolKind> {
        self.tools@
    }

    /// The registry with every concrete tool registered.
    pub fn new() -> (r: Self)
        ensures
            r.spec_tools() == spec_default_tools(),
    {
        let mut tools: Vec<ToolKind> = Vec::new();
        tools.push(ToolKind::WebSearch);
        tools.push(ToolKind::FileRead);
        tools.push(ToolKind::FileWrite);
        tools.push(ToolKind::ShellExec);
        proof {
            assert(tools@ =~= spec_default_tools());
        }
        ToolRegistry { tools }
    }

    /// The number of registered tools.
    pub fn len(&self) -> (r: usize)
        ensures
            r == self.spec_tools().len(),
    {
        self.tools.len()
    }

    /// The tool at one position of the registry.
    pub fn get(&self, i: usize) -> (r: ToolKind)
        requires
            i < self.spec_tools().len(),
        ensures
            r == self.spec_tools().index(i as int),
    {
        self.tools[i]
    }

    /// The published records of all registered tools, in order.
    pub fn tool_metas(&self) -> (r: Vec<ToolMeta>)
        ensures
            r@.len() == self.spec_tools().len(),
            forall|k: int|
                0 <= k < r@.len() ==> (#[trigger] r@.index(k)).name@ == self.spec_tools().index(
                    k,
                ).spec_name() && r@.index(k).description@ == self.spec_tools().index(
                    k,
                ).spec_description() && r@.index(k).json_schema@ == self.spec_tools().index(
                    k,
                ).spec_json_schema(),
    {
        let mut out: Vec<ToolMeta> = Vec::new();
        let mut i: usize = 0;
        while i < self.tools.len()
            invariant
                i <= self.tools@.len(),
                out@.len() == i,
                forall|k: int|
                    0 <= k < i ==> (#[trigger] out@.index(k)).name@ == self.tools@.index(
                        k,
                    ).spec_name() && out@.index(k).description@ == self.tools@.index(
                        k,
                    ).spec_description() && out@.index(k).json_schema@ == self.tools@.index(
                        k,
                    ).spec_json_schema(),
            decreases self.tools@.len() - i,
        {
            let t = self.tools[i];
            out.push(t.meta());
            i = i + 1;
        }
        out
    }
}

/// The web-search tool.
pub struct WebSearchTool;

impl WebSearchTool {
    /// Which capability this tool is.
    pub fn kind(&self) -> (r: ToolKind)
        ensures
            r == ToolKind::WebSearch,
    {
        ToolKind::WebSearch
    }
}

/// The file-read tool.
pub struct FileReadTool;

impl FileReadTool {
    /// Which capability this tool is.
    pub fn kind(&self) -> (r: ToolKind)
        ensures
            r == ToolKind::FileRead,
    {
        ToolKind::FileRead
    }
}

/// The file-write tool.
pub struct FileWriteTool;

impl FileWriteTool {
    /// Which capability this tool is.
    pub fn kind(&self) -> (r: ToolKind)
        ensures
            r == ToolKind::FileWrite,
    {
        ToolKind::FileWrite
    }
}

/// The shell-exec tool.
pub struct ShellExecTool;

impl ShellExecTool {
    /// Which capability this tool is.
    pub fn kind(&self) -> (r: ToolKind)
        ensures
            r == ToolKind::ShellExec,
    {
        ToolKind::ShellExec
    }
}

/// The fixed whitelist of read-only shell utilities.
pub open spec fn spec_whitelisted(cmd: Seq<char>) -> bool {
    cmd == "ls"@ || cmd == "cat"@ || cmd == "grep"@ || cmd == "echo"@ || cmd == "pwd"@ || cmd
        == "sed"@ || cmd == "awk"@
}

/// Whether a command is one of the whitelisted read-only utilities.
pub fn is_whitelisted(cmd: &str) -> (r: bool)
    ensures
        r == spec_whitelisted(cmd@),
{
    str_eq(cmd, "ls") || str_eq(cmd, "cat") || str_eq(cmd, "grep") || str_eq(cmd, "echo")
        || str_eq(cmd, "pwd") || str_eq(cmd, "sed") || str_eq(cmd, "awk")
}

/// A validated shell invocation: only these leave the sandbox for a spawn.
#[derive(Debug)]
pub struct ShellPlan {
    pub cmd: String,
    pub args: Vec<String>,
}

/// The command the arguments name: their string member `cmd`.
pub open spec fn spec_cmd_of(args: serde_json::Value) -> Option<Seq<char>> {
    spec_str_field(args, "cmd"@)
}

/// The string elements of an argument array, in order; anything that is
/// not a string is dropped.
pub open spec fn spec_str_items(elems: Seq<serde_json::Value>) -> Seq<Seq<char>>
    decreases elems.len(),
{
    if elems.len() == 0 {
        Seq::empty()
    } else {
        (match json_str(elems.first()) {
            Some(s) => seq![s],
            None => Seq::<Seq<char>>::empty(),
        }) + spec_str_items(elems.drop_first())
    }
}

/// The command-line arguments the tool arguments carry: the string
/// elements of their `args` array, empty when there is none.
pub open spec fn spec_shell_args_of(args: serde_json::Value) -> Seq<Seq<char>> {
    match json_member(args, "args"@) {
        Some(a) => match json_elems(a) {
            Some(es) => spec_str_items(es),
            None => Seq::empty(),
        },
        None => Seq::empty(),
    }
}

/// Validate shell-tool arguments. A plan comes out exactly when the
/// arguments name a whitelisted command, and it carries that command with
/// the arguments' string elements; any other command is rejected with a
/// `Command not permitted` error naming it, so no process is ever spawned
/// for it; arguments without a command are rejected as `missing cmd`.
pub fn shell_plan(args: &serde_json::Value) -> (r: Result<ShellPlan, String>)
    ensures
        match spec_cmd_of(*args) {
            Some(c) => if spec_whitelisted(c) {
                match r {
                    Ok(p) => p.cmd@ == c && p.args.deep_view() == spec_shell_args_of(*args),
                    Err(_) => false,
                }
            } else {
                match r {
                    Ok(_) => false,
                    Err(e) => e@ == "Command not permitted: "@ + c,
                }
            },
            None => match r {
                Ok(_) => false,
                Err(e) => e@ == "missing cmd"@,
            },
        },
{
    let cmd = match str_field(args, "cmd") {
        Some(c) => c,
        None => {
            return Err(String::from_str("missing cmd"));
        },
    };
    if !is_whitelisted(cmd.as_str()) {
        let mut e = String::from_str("Command not permitted: ");
        e.append(cmd.as_str());
        return Err(e);
    }
    let mut shell_args: Vec<String> = Vec::new();
    match json_get(args, "args") {
        Some(arr_v) => {
            match json_as_array(arr_v) {
                Some(arr) => {
                    let ghost elems = arr@;
                    let mut i: usize = 0;
                    proof {
                        assert(elems.skip(0) =~= elems);
                        assert(shell_args.deep_view() =~~= Seq::<Seq<char>>::empty());
                    }
                    while i < arr.len()
                        invariant
                            i <= arr@.len(),
                            elems == arr@,
                            spec_str_items(elems) == shell_args.deep_view() + spec_str_items(
                                elems.skip(i as int),
                            ),
                        decreases arr@.len() - i,
                    {
                        let ghost rest = elems.skip(i as int);
                        proof {
                            assert(rest.first() == elems.index(i as int));
                            assert(rest.drop_first() =~= elems.skip(i + 1));
                        }
                        match json_as_str(&arr[i]) {
                            Some(s) => {
                                let ghost old_args = shell_args.deep_view();
                                shell_args.push(s);
                                proof {
                                    assert(shell_args.deep_view() =~~= old_args.push(
                                        json_str(elems.index(i as int)).unwrap(),
                                    ));
                                    assert(old_args.push(json_str(elems.index(i as int)).unwrap())
                                        + spec_str_items(elems.skip(i + 1)) =~~= old_args + (seq![
                                        json_str(elems.index(i as int)).unwrap(),
                                    ] + spec_str_items(elems.skip(i + 1))));
                                }
                            },
                            None => {},
                        }
                        i = i + 1;
                    }
                    proof {
                        assert(elems.skip(elems.len() as int) =~= Seq::<serde_json::Value>::empty());
                        assert(shell_args.deep_view() + spec_str_items(
                            elems.skip(elems.len() as int),
                        ) =~~= shell_args.deep_view());
                    }
                },
                None => {},
            }
        },
        None => {},
    }
    Ok(ShellPlan { cmd, args: shell_args })
}

/// Whether a shell command's combined output has hit the byte cap.
pub fn output_cap_reached(collected_bytes: usize) -> (r: bool)
    ensures
        r == (collected_bytes > OUTPUT_LIMIT_BYTES),
{
    collected_bytes > OUTPUT_LIMIT_BYTES
}

/// The file-read tool's rendering of a file: text under the cap passes
/// through, longer text is truncated and marked.
pub fn render_file_read(data: &str) -> (r: String)
    ensures
        data@.len() <= FILE_READ_CAP ==> r@ == data@,
        data@.len() > FILE_READ_CAP ==> r@ == "(truncated) "@ + data@.take(FILE_READ_CAP as int),
{
    let n = data.unicode_len();
    if n > FILE_READ_CAP {
        let mut out = String::from_str("(truncated) ");
        let piece = data.substring_char(0, FILE_READ_CAP);
        out.append(piece);
        proof {
            assert(data@.subrange(0, FILE_READ_CAP as int) =~= data@.take(FILE_READ_CAP as int));
        }
        out
    } else {
        data.to_owned()
    }
}

/// The file-write tool's modes.
#[derive(Debug, Clone, Copy, PartialEq, Eq, Structural)]
pub enum WriteMode {
    Overwrite,
    Append,
}

/// The mode requested by the arguments: `append` appends, anything else
/// (or nothing) overwrites.
pub fn write_mode_of(mode: Option<&str>) -> (r: WriteMode)
    ensures
        r == (match mode {
            Some(m) => if m@ == "append"@ {
                WriteMode::Append
            } else {
                WriteMode::Overwrite
            },
            None => WriteMode::Overwrite,
        }),
{
    match mode {
        Some(m) => {
            if str_eq(m, "append") {
                WriteMode::Append
            } else {
                WriteMode::Overwrite
            }
        },
        None => WriteMode::Overwrite,
    }
}

/// The file-write tool's success report.
pub fn write_report(byte_count: u64, rel: &str) -> (r: String)
    ensures
        r@ == "Wrote "@ + spec_digits(byte_count as nat) + " bytes to "@ + rel@,
{
    let mut out = String::from_str("Wrote ");
    let digits = u64_to_string(byte_count);
    out.append(digits.as_str());
    out.append(" bytes to ");
    out.append(rel);
    out
}

/// Validate a web-search query: anything over the cap is rejected.
pub fn validate_query(q: &str) -> (r: Result<(), String>)
    ensures
        match r {
            Ok(_) => q@.len() <= QUERY_CAP,
            Err(e) => q@.len() > QUERY_CAP && e@ == "query too long"@,
        },
{
    if q.unicode_len() > QUERY_CAP {
        Err(String::from_str("query too long"))
    } else {
        Ok(())
    }
}

/// A tool failure as the model sees it: a plain-text warning that becomes
/// the tool's result, so the turn goes on.
pub fn render_tool_error(message: &str) -> (r: String)
    ensures
        r@ == "\u{26a0}\u{fe0f} "@ + message@,
{
    let mut out = String::from_str("\u{26a0}\u{fe0f} ");
    out.append(message);
    out
}

/// The result text for a tool name no registry entry matches.
pub fn render_unknown_tool(name: &str) -> (r: String)
    ensures
        r@ == "\u{26a0}\u{fe0f} unknown tool: "@ + name@,
{
    let mut out = String::from_str("\u{26a0}\u{fe0f} unknown tool: ");
    out.append(name);
    out
}

} // verus!
