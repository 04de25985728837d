//! Turn orchestration: the message list for one user turn, the
//! newline-delimited frame splitter for the model's streamed response,
//! frame decoding, the permission gate, and the bounded tool-call loop.
//! All network traffic happens outside the library; the engine is handed
//! bytes and parsed values and decides what happens next.

use vstd::prelude::*;
use crate::jsonio::{
    get_path2, json_as_array, json_as_bool, json_as_str, json_bool, json_clone, json_doc,
    json_elems, json_get, json_is_string, json_member, json_null, json_parse, json_str,
    spec_is_nullish, spec_member2,
};
use crate::strutil::str_eq;
use crate::tools::{ToolKind, ToolRegistry};

verus! {

/// Newline byte that ends one streamed frame.
pub const FRAME_DELIMITER: u8 = 10;

/// An accumulating buffer that cuts a raw byte stream into
/// newline-terminated lines, independent of the transport's chunking.
pub struct LineBuffer {
    buf: Vec<u8>,
}

/// Lines rejoined with their delimiters: what the buffer has consumed.
pub open spec fn spec_rejoin(lines: Seq<Seq<u8>>) -> Seq<u8>
    decreases lines.len(),
{
    if lines.len() == 0 {
        Seq::empty()
    } else {
        spec_rejoin(lines.drop_last()) + lines.last() + seq![FRAME_DELIMITER]
    }
}

/// No delimiter byte anywhere.
pub open spec fn spec_no_delim(s: Seq<u8>) -> bool {
    forall|i: int| 0 <= i < s.len() ==> #[trigger] s.index(i) != FRAME_DELIMITER
}

impl LineBuffer {
    /// The bytes received but not yet part of a complete line.
    pub closed spec fn spec_pending(&self) -> Seq<u8> {
        self.buf@
    }

    /// An empty buffer.
    pub fn new() -> (r: Self)
        ensures
            r.spec_pending() == Seq::<u8>::empty(),
    {
        LineBuffer { buf: Vec::new() }
    }

    /// Feed a transport chunk in; out come the lines completed by it, in
    /// order, without their delimiters. Everything fed in is either
    /// returned in a line, consumed as a delimiter, or still pending.
    pub fn push_bytes(&mut self, bytes: &[u8]) -> (lines: Vec<Vec<u8>>)
        requires
            spec_no_delim(old(self).spec_pending()),
        ensures
            spec_no_delim(final(self).spec_pending()),
            forall|i: int|
                0 <= i < lines.deep_view().len() ==> spec_no_delim(
                    #[trigger] lines.deep_view().index(i),
                ),
            spec_rejoin(lines.deep_view()) + final(self).spec_pending() == old(
                self,
            ).spec_pending() + bytes@,
    {
        let ghost total = self.buf@ + bytes@;
        let mut k: usize = 0;
        while k < bytes.len()
            invariant
                k <= bytes@.len(),
                self.buf@ == old(self).spec_pending() + bytes@.take(k as int),
            decreases bytes@.len() - k,
        {
            self.buf.push(bytes[k]);
            proof {
                assert(old(self).spec_pending() + bytes@.take(k + 1) =~= (old(
                    self,
                ).spec_pending() + bytes@.take(k as int)).push(bytes@.index(k as int)));
            }
            k = k + 1;
        }
        proof {
            assert(bytes@.take(bytes@.len() as int) =~= bytes@);
        }
        let mut lines: Vec<Vec<u8>> = Vec::new();
        proof {
            assert(lines.deep_view() =~~= Seq::<Seq<u8>>::empty());
            assert(spec_rejoin(lines.deep_view()) + self.buf@ =~= total);
        }
        let mut done: bool = false;
        while !done
            invariant
                spec_rejoin(lines.deep_view()) + self.buf@ == total,
                forall|i: int|
                    0 <= i < lines.deep_view().len() ==> spec_no_delim(
                        #[trigger] lines.deep_view().index(i),
                    ),
                done ==> spec_no_delim(self.buf@),
            decreases self.buf@.len(), (if done { 0int } else { 1int }),
        {
            // Find the first delimiter in the pending bytes.
            let mut p: usize = 0;
            let mut found: bool = false;
            while p < self.buf.len() && !found
                invariant
                    p <= self.buf@.len(),
                    !found ==> forall|i: int|
                        0 <= i < p ==> #[trigger] self.buf@.index(i) != FRAME_DELIMITER,
                    found ==> p < self.buf@.len() && self.buf@.index(p as int) == FRAME_DELIMITER
                        && forall|i: int|
                        0 <= i < p ==> #[trigger] self.buf@.index(i) != FRAME_DELIMITER,
                decreases self.buf@.len() - p, (if found { 0int } else { 1int }),
            {
                if self.buf[p] == FRAME_DELIMITER {
                    found = true;
                } else {
                    p = p + 1;
                }
            }
            if !found {
                done = true;
            } else {
            // Copy the line, then drop it and its delimiter.
            let mut line: Vec<u8> = Vec::new();
            let mut j: usize = 0;
            while j < p
                invariant
                    j <= p <= self.buf@.len(),
                    line@ == self.buf@.take(p as int).take(j as int),
                decreases p - j,
            {
                line.push(self.buf[j]);
                proof {
                    assert(self.buf@.take(p as int).take(j + 1) =~= self.buf@.take(
                        p as int,
                    ).take(j as int).push(self.buf@.index(j as int)));
                }
                j = j + 1;
            }
            proof {
                assert(self.buf@.take(p as int).take(p as int) =~= self.buf@.take(p as int));
            }
            let ghost pre_buf = self.buf@;
            let ghost pre_lines = lines.deep_view();
            let tail = self.buf.split_off(p + 1);
            self.buf = tail;
            lines.push(line);
            proof {
                assert(lines.deep_view() =~~= pre_lines.push(pre_buf.take(p as int)));
                assert(lines.deep_view().drop_last() =~~= pre_lines);
                assert(lines.deep_view().last() == pre_buf.take(p as int));
                assert(spec_rejoin(lines.deep_view()) == spec_rejoin(pre_lines) + pre_buf.take(
                    p as int,
                ) + seq![FRAME_DELIMITER]);
                assert(spec_rejoin(pre_lines) + pre_buf.take(p as int) + seq![FRAME_DELIMITER]
                    + self.buf@ =~= spec_rejoin(pre_lines) + pre_buf);
            }
            }
        }
        lines
    }
}

/// A tool invocation the model asked for.
pub struct ToolCall {
    pub name: String,
    pub arguments: serde_json::Value,
}

/// One decoded streamed frame: an incremental content fragment, an
/// optional tool-call request, and the final-frame flag.
pub struct Frame {
    pub content: Option<String>,
    pub tool_call: Option<ToolCall>,
    pub done: bool,
}

/// The incremental content fragment a frame carries: the string member
/// `message.content`.
pub open spec fn spec_frame_content(line: Seq<char>) -> Option<Seq<char>> {
    match json_doc(line) {
        Some(v) => match spec_member2(v, "message"@, "content"@) {
            Some(c) => json_str(c),
            None => None,
        },
        None => None,
    }
}

/// Whether a frame is the final one: its boolean member `done`.
pub open spec fn spec_frame_done(line: Seq<char>) -> bool {
    match json_doc(line) {
        Some(v) => match json_member(v, "done"@) {
            Some(d) => match json_bool(d) {
                Some(b) => b,
                None => false,
            },
            None => false,
        },
        None => false,
    }
}

/// The function name of a tool-call entry, empty when it has none.
pub open spec fn spec_call_name(tc: serde_json::Value) -> Seq<char> {
    match spec_member2(tc, "function"@, "name"@) {
        Some(n) => match json_str(n) {
            Some(s) => s,
            None => Seq::empty(),
        },
        None => Seq::empty(),
    }
}

/// The first entry of a frame's `message.tool_calls` array, as the name it
/// carries and its raw `function.arguments` member; `None` when the frame
/// asks for no tool.
pub open spec fn spec_frame_call(line: Seq<char>) -> Option<
    (Seq<char>, Option<serde_json::Value>),
> {
    match json_doc(line) {
        Some(v) => match spec_member2(v, "message"@, "tool_calls"@) {
            Some(tcs) => match json_elems(tcs) {
                Some(es) => if es.len() > 0 {
                    Some(
                        (
                            spec_call_name(es.first()),
                            spec_member2(es.first(), "function"@, "arguments"@),
                        ),
                    )
                } else {
                    None
                },
                None => None,
            },
            None => None,
        },
        None => None,
    }
}

/// How dispatched arguments relate to the raw `arguments` member: a
/// string-typed member is parsed into the document it encodes before
/// dispatch; any other value passes through; a missing member, or a string
/// that is not valid JSON, stands for null.
pub open spec fn spec_normalized_args(
    raw: Option<serde_json::Value>,
    out: serde_json::Value,
) -> bool {
    match raw {
        Some(av) => match json_str(av) {
            Some(inner) => match json_doc(inner) {
                Some(parsed) => out == parsed,
                None => spec_is_nullish(out),
            },
            None => out == av,
        },
        None => spec_is_nullish(out),
    }
}

/// Decode one streamed line. A line that is not well-formed JSON is
/// skipped (`None`). Tool-call arguments that arrive as a JSON string are
/// parsed into the structured value they encode before dispatch; a string
/// that is not valid JSON becomes null.
pub fn parse_frame(line: &str) -> (r: Option<Frame>)
    ensures
        (r is Some) == (json_doc(line@) is Some),
        match r {
            Some(f) => {
                &&& (match f.content {
                    Some(c) => spec_frame_content(line@) == Some(c@),
                    None => spec_frame_content(line@) is None,
                })
                &&& f.done == spec_frame_done(line@)
                &&& (match f.tool_call {
                    Some(tc) => match spec_frame_call(line@) {
                        Some(sc) => tc.name@ == sc.0 && spec_normalized_args(sc.1, tc.arguments),
                        None => false,
                    },
                    None => spec_frame_call(line@) is None,
                })
            },
            None => true,
        },
{
    let v = match json_parse(line) {
        Some(v) => v,
        None => {
            return None;
        },
    };
    let content = match get_path2(&v, "message", "content") {
        Some(c) => json_as_str(c),
        None => None,
    };
    let tool_call = match get_path2(&v, "message", "tool_calls") {
        Some(tcs) => {
            match json_as_array(tcs) {
                Some(arr) => {
                    if arr.len() > 0 {
                        let tc = &arr[0];
                        let name = match get_path2(tc, "function", "name") {
                            Some(n) => match json_as_str(n) {
                                Some(s) => s,
                                None => String::new(),
                            },
                            None => String::new(),
                        };
                        let arguments = match get_path2(tc, "function", "arguments") {
                            Some(a) => {
                                if json_is_string(a) {
                                    let inner = match json_as_str(a) {
                                        Some(s) => s,
                                        None => String::new(),
                                    };
                                    match json_parse(inner.as_str()) {
                                        Some(parsed) => parsed,
                                        None => json_null(),
                                    }
                                } else {
                                    json_clone(a)
                                }
                            },
                            None => json_null(),
                        };
                        Some(ToolCall { name, arguments })
                    } else {
                        None
                    }
                },
                None => None,
            }
        },
        None => None,
    };
    let done = match json_get(&v, "done") {
        Some(d) => {
            match json_as_bool(d) {
                Some(b) => b,
                None => false,
            }
        },
        None => false,
    };
    Some(Frame { content, tool_call, done })
}

/// Why a turn ended without an answer.
pub enum TurnError {
    /// A tool was enabled but is not allowed; carries the tool's name.
    NeedPermission { tool: String },
    /// The model kept asking for tools past the round cap.
    ToolLoopExceeded,
}

/// Every enabled tool must also be allowed. The first enabled tool
/// missing from the allowed list is reported, before any network call.
pub fn check_permissions(enabled: &Vec<String>, allowed: &Vec<String>) -> (r: Result<
    (),
    TurnError,
>)
    ensures
        match r {
            Ok(_) => forall|i: int|
                0 <= i < enabled.deep_view().len() ==> allowed.deep_view().contains(
                    #[trigger] enabled.deep_view().index(i),
                ),
            Err(e) => match e {
                TurnError::NeedPermission { tool } => exists|i: int|
                    0 <= i < enabled.deep_view().len() && #[trigger] enabled.deep_view().index(i)
                        == tool@ && !allowed.deep_view().contains(tool@),
                _ => false,
            },
        },
{
    let mut i: usize = 0;
    while i < enabled.len()
        invariant
            i <= enabled@.len(),
            enabled.deep_view().len() == enabled@.len(),
            forall|k: int|
                0 <= k < i ==> allowed.deep_view().contains(
                    #[trigger] enabled.deep_view().index(k),
                ),
        decreases enabled@.len() - i,
    {
        let t = &enabled[i];
        let mut ok: bool = false;
        let mut j: usize = 0;
        while j < allowed.len() && !ok
            invariant
                j <= allowed@.len(),
                allowed.deep_view().len() == allowed@.len(),
                ok ==> allowed.deep_view().contains(t@),
                !ok ==> forall|k: int|
                    0 <= k < j ==> #[trigger] allowed.deep_view().index(k) != t@,
            decreases allowed@.len() - j, (if ok { 0int } else { 1int }),
        {
            if str_eq(allowed[j].as_str(), t.as_str()) {
                ok = true;
                proof {
                    assert(allowed.deep_view().index(j as int) == t@);
                }
            } else {
                j = j + 1;
            }
        }
        if !ok {
            proof {
                assert(enabled.deep_view().index(i as int) == t@);
            }
            return Err(TurnError::NeedPermission { tool: t.clone() });
        }
        i = i + 1;
    }
    Ok(())
}

/// The fixed opening of the tool table in the system prompt.
pub open spec fn spec_tool_table_header() -> Seq<char> {
    "| tool | description |\n| --- | --- |\n"@
}

/// The sandbox disclaimer that closes the system prompt.
pub open spec fn spec_sandbox_disclaimer() -> Seq<char> {
    "The workspace directory is a sandbox. Use file_write only for plain-text.\nNEVER overwrite binary files.\n"@
}

/// First tool of the list with the given name.
pub open spec fn spec_lookup(tools: Seq<ToolKind>, name: Seq<char>) -> Option<ToolKind>
    decreases tools.len(),
{
    if tools.len() == 0 {
        None
    } else if tools.first().spec_name() == name {
        Some(tools.first())
    } else {
        spec_lookup(tools.drop_first(), name)
    }
}

/// The table rows for the enabled tools that the registry knows.
pub open spec fn spec_tool_rows(tools: Seq<ToolKind>, enabled: Seq<Seq<char>>) -> Seq<char>
    decreases enabled.len(),
{
    if enabled.len() == 0 {
        Seq::empty()
    } else {
        let rest = spec_tool_rows(tools, enabled.drop_first());
        match spec_lookup(tools, enabled.first()) {
            Some(t) => "| "@ + t.spec_name() + " | "@ + t.spec_description() + " |\n"@ + rest,
            None => rest,
        }
    }
}

impl ToolRegistry {
    /// Look a tool up by name: the first registered tool with that name.
    pub fn lookup(&self, name: &str) -> (r: Option<ToolKind>)
        ensures
            r == spec_lookup(self.spec_tools(), name@),
    {
        let metas_len = self.len();
        let mut i: usize = 0;
        proof {
            assert(self.spec_tools().skip(0) =~= self.spec_tools());
        }
        while i < metas_len
            invariant
                i <= self.spec_tools().len(),
                metas_len == self.spec_tools().len(),
                spec_lookup(self.spec_tools(), name@) == spec_lookup(
                    self.spec_tools().skip(i as int),
                    name@,
                ),
            decreases self.spec_tools().len() - i,
        {
            let ghost rest = self.spec_tools().skip(i as int);
            proof {
                assert(rest.first() == self.spec_tools().index(i as int));
                assert(rest.drop_first() =~= self.spec_tools().skip(i + 1));
            }
            let t = self.get(i);
            if str_eq(t.name(), name) {
                return Some(t);
            }
            i = i + 1;
        }
        None
    }

    /// The system prompt for a turn: a table of the enabled tools the
    /// registry knows, then the sandbox disclaimer.
    pub fn system_prompt_for(&self, enabled: &Vec<String>) -> (r: String)
        ensures
            r@ == spec_tool_table_header() + spec_tool_rows(
                self.spec_tools(),
                enabled.deep_view(),
            ) + spec_sandbox_disclaimer(),
    {
        let mut rows = String::new();
        let n = enabled.len();
        let mut i: usize = n;
        proof {
            assert(enabled.deep_view().skip(n as int) =~~= Seq::<Seq<char>>::empty());
        }
        while i > 0
            invariant
                i <= n,
                n == enabled@.len(),
                enabled.deep_view().len() == enabled@.len(),
                rows@ == spec_tool_rows(self.spec_tools(), enabled.deep_view().skip(i as int)),
            decreases i,
        {
            let ghost rest = enabled.deep_view().skip(i - 1);
            proof {
                assert(rest.first() == enabled.deep_view().index(i - 1));
                assert(rest.drop_first() =~~= enabled.deep_view().skip(i as int));
            }
            match self.lookup(enabled[i - 1].as_str()) {
                Some(t) => {
                    let mut row = String::from_str("| ");
                    row.append(t.name());
                    row.append(" | ");
                    row.append(t.description());
                    row.append(" |\n");
                    row.append(rows.as_str());
                    rows = row;
                },
                None => {},
            }
            i = i - 1;
        }
        proof {
            assert(enabled.deep_view().skip(0) =~~= enabled.deep_view());
        }
        let mut out = String::from_str("| tool | description |\n| --- | --- |\n");
        out.append(rows.as_str());
        out.append(
            "The workspace directory is a sandbox. Use file_write only for plain-text.\nNEVER overwrite binary files.\n",
        );
        out
    }
}

/// Lines of retrieved context joined into the block appended to the
/// system prompt.
pub open spec fn spec_ctx_joined(ctx: Seq<Seq<char>>) -> Seq<char>
    decreases ctx.len(),
{
    if ctx.len() == 0 {
        Seq::empty()
    } else if ctx.len() == 1 {
        ctx.first()
    } else {
        ctx.first() + "\n---\n"@ + spec_ctx_joined(ctx.drop_first())
    }
}

/// Append retrieved context to a system prompt. An empty context leaves
/// the prompt unchanged.
pub fn append_rag_context(system_prompt: &str, ctx: &Vec<String>) -> (r: String)
    ensures
        ctx.deep_view().len() == 0 ==> r@ == system_prompt@,
        ctx.deep_view().len() > 0 ==> r@ == system_prompt@
            + "\n\nUse the following context to answer the user:\n"@ + spec_ctx_joined(
            ctx.deep_view(),
        ),
{
    if ctx.len() == 0 {
        return system_prompt.to_owned();
    }
    let mut out = system_prompt.to_owned();
    out.append("\n\nUse the following context to answer the user:\n");
    let n = ctx.len();
    let mut i: usize = n;
    let mut joined = String::new();
    proof {
        assert(ctx.deep_view().len() == n);
        assert(ctx.deep_view().skip(n as int) =~~= Seq::<Seq<char>>::empty());
    }
    while i > 0
        invariant
            1 <= i <= n,
            n == ctx@.len(),
            n >= 1,
            ctx.deep_view().len() == n,
            out@ == system_prompt@ + "\n\nUse the following context to answer the user:\n"@,
            joined@ == spec_ctx_joined(ctx.deep_view().skip(i as int)),
        decreases i,
    {
        let ghost rest = ctx.deep_view().skip(i - 1);
        proof {
            assert(rest.first() == ctx.deep_view().index(i - 1));
            assert(rest.drop_first() =~~= ctx.deep_view().skip(i as int));
        }
        let piece = if i < n {
            String::from_str("\n---\n")
        } else {
            String::new()
        };
        let mut chunk = ctx[i - 1].clone();
        chunk.append(piece.as_str());
        chunk.append(joined.as_str());
        joined = chunk;
        proof {
            assert(joined@ =~= spec_ctx_joined(ctx.deep_view().skip(i - 1)));
        }
        if i == 1 {
            out.append(joined.as_str());
            proof {
                assert(ctx.deep_view().skip(0) =~~= ctx.deep_view());
            }
            return out;
        }
        i = i - 1;
    }
    out
}

/// One entry of the message list sent to the model service.
pub enum WireEntry {
    /// An ordinary role/content message.
    Plain { role: String, content: String },
    /// The assistant's request to invoke a tool.
    AssistantToolCall { name: String, arguments: serde_json::Value },
    /// The tool's result, folded back for the next round.
    ToolResult { name: String, content: String },
}

/// The role and content of a plain message entry; the tool-call entries
/// carry none.
pub open spec fn spec_plain_fields(e: WireEntry) -> Option<(Seq<char>, Seq<char>)> {
    match e {
        WireEntry::Plain { role, content } => Some((role@, content@)),
        _ => None,
    }
}

/// The message list for one user turn, in order: the system message when
/// there is one, the admitted history, then the new user message.
pub fn initial_messages(
    system_prompt: &str,
    history: Vec<crate::context::ChatEntry>,
    prompt: &str,
) -> (r: Vec<WireEntry>)
    ensures
        r@.len() == (if system_prompt@.len() > 0 {
            1int
        } else {
            0int
        }) + history@.len() + 1,
        system_prompt@.len() > 0 ==> spec_plain_fields(r@.index(0)) == Some(
            ("system"@, system_prompt@),
        ),
        forall|k: int|
            0 <= k < history@.len() ==> spec_plain_fields(
                r@.index(
                    k + (if system_prompt@.len() > 0 {
                        1int
                    } else {
                        0int
                    }),
                ),
            ) == Some(((#[trigger] history@.index(k)).role@, history@.index(k).content@)),
        spec_plain_fields(r@.last()) == Some(("user"@, prompt@)),
{
    let ghost offset: int = if system_prompt@.len() > 0 {
        1int
    } else {
        0int
    };
    let mut out: Vec<WireEntry> = Vec::new();
    if system_prompt.unicode_len() > 0 {
        out.push(
            WireEntry::Plain {
                role: String::from_str("system"),
                content: system_prompt.to_owned(),
            },
        );
    }
    let ghost hist = history@;
    let mut rest = history;
    let hist_len = rest.len();
    let mut i: usize = 0;
    proof {
        assert(hist.skip(0) =~= hist);
        assert(hist.len() == hist_len);
    }
    while rest.len() > 0
        invariant
            hist.len() <= usize::MAX,
            i + rest@.len() == hist.len(),
            out@.len() == offset + i,
            offset == (if system_prompt@.len() > 0 {
                1int
            } else {
                0int
            }),
            rest@ == hist.skip(i as int),
            system_prompt@.len() > 0 ==> spec_plain_fields(out@.index(0)) == Some(
                ("system"@, system_prompt@),
            ),
            forall|k: int|
                0 <= k < i ==> spec_plain_fields(#[trigger] out@.index(k + offset)) == Some(
                    (hist.index(k).role@, hist.index(k).content@),
                ),
        decreases rest@.len(),
    {
        let ghost pre = rest@;
        let entry = rest.remove(0);
        proof {
            assert(pre.index(0) == hist.index(i as int));
            assert(pre.remove(0) =~= hist.skip(i + 1));
        }
        let ghost entry_snap = entry;
        out.push(WireEntry::Plain { role: entry.role, content: entry.content });
        proof {
            assert(entry_snap == hist.index(i as int));
            assert(out@.index(i + offset) == WireEntry::Plain {
                role: entry_snap.role,
                content: entry_snap.content,
            });
            assert(spec_plain_fields(out@.index(i + offset)) == Some(
                (hist.index(i as int).role@, hist.index(i as int).content@),
            ));
        }
        i = i + 1;
    }
    out.push(WireEntry::Plain { role: String::from_str("user"), content: prompt.to_owned() });
    out
}

/// Bound on tool-call rounds in one turn. The reference behavior has no
/// bound; exceeding this cap surfaces `ToolLoopExceeded` instead of
/// looping forever.
pub const MAX_TOOL_ROUNDS: u32 = 25;

/// The message list and round counter for one user turn.
pub struct TurnEngine {
    messages: Vec<WireEntry>,
    rounds: u32,
    max_rounds: u32,
}

impl TurnEngine {
    /// The ordered message list so far.
    pub closed spec fn spec_messages(&self) -> Seq<WireEntry> {
        self.messages@
    }

    /// Rounds begun so far.
    pub closed spec fn spec_rounds(&self) -> u32 {
        self.rounds
    }

    /// The round cap.
    pub closed spec fn spec_max_rounds(&self) -> u32 {
        self.max_rounds
    }

    /// A fresh turn over an initial message list.
    pub fn new(initial: Vec<WireEntry>, max_rounds: u32) -> (r: Self)
        ensures
            r.spec_messages() == initial@,
            r.spec_rounds() == 0,
            r.spec_max_rounds() == max_rounds,
    {
        TurnEngine { messages: initial, rounds: 0, max_rounds }
    }

    /// The message list to send with the next request.
    pub fn messages(&self) -> (r: &Vec<WireEntry>)
        ensures
            r@ == self.spec_messages(),
    {
        &self.messages
    }

    /// Start a round: `Ok` admits one more streamed request; past the cap
    /// the turn fails with `ToolLoopExceeded` instead of looping forever.
    pub fn begin_round(&mut self) -> (r: Result<(), TurnError>)
        ensures
            final(self).spec_messages() == old(self).spec_messages(),
            final(self).spec_max_rounds() == old(self).spec_max_rounds(),
            match r {
                Ok(_) => old(self).spec_rounds() < old(self).spec_max_rounds()
                    && final(self).spec_rounds() == old(self).spec_rounds() + 1,
                Err(e) => old(self).spec_rounds() >= old(self).spec_max_rounds()
                    && *final(self) == *old(self) && e is ToolLoopExceeded,
            },
    {
        if self.rounds >= self.max_rounds {
            Err(TurnError::ToolLoopExceeded)
        } else {
            self.rounds = self.rounds + 1;
            Ok(())
        }
    }

    /// Fold a finished tool invocation into the history: the assistant's
    /// tool-call message, then, immediately after it, the tool's result.
    /// Nothing before them moves.
    pub fn fold_tool_result(
        &mut self,
        name: String,
        arguments: serde_json::Value,
        result: String,
    )
        ensures
            final(self).spec_messages() == old(self).spec_messages().push(
                WireEntry::AssistantToolCall { name, arguments },
            ).push(WireEntry::ToolResult { name, content: result }),
            final(self).spec_rounds() == old(self).spec_rounds(),
            final(self).spec_max_rounds() == old(self).spec_max_rounds(),
    {
        let name2 = name.clone();
        self.messages.push(WireEntry::AssistantToolCall { name, arguments });
        self.messages.push(WireEntry::ToolResult { name: name2, content: result });
    }
}

} // verus!
