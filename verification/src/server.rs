//! The line-oriented RPC dispatcher: parses one request per line, routes
//! by method name, runs the orchestrator for tool calls, and shapes the
//! response. The host owns the streams; it hands each line in and writes
//! the returned response out, in order.
//!
//! A failed tool call is a *successful* RPC response whose content is
//! marked `isError`; the protocol-level error codes are reserved for
//! malformed lines (-32700), unknown methods or tools (-32601), and
//! malformed parameters or arguments (-32602). The contracts here are
//! stated over the named outcomes of the JSON reads ([`crate::json`]), so
//! each routing decision is pinned for every document the line may hold.

use vstd::prelude::*;

verus! {

use vstd::string::*;
use vstd::utf8::encode_utf8;
use crate::json::{
    json_as_str,
    json_as_u64,
    json_clone,
    json_doc,
    json_get,
    json_is_null,
    json_is_null_of,
    json_member,
    json_null,
    json_parse,
    json_parses,
    json_str_of,
    json_u64_of,
    raw_str_field,
};
use crate::llm::LLMProvider;
use crate::models::{EnhancementOptions, Prompt};
use crate::text::{all_space, bytes_all_space, str_eq};
use crate::usecase::{execute_error_text, EnhancePrompt, ExecuteError};

/// The protocol version every response carries.
pub fn default_jsonrpc() -> (r: String)
    ensures
        r@ == ("2.0")@,
{
    String::from_str("2.0")
}

/// A line the read loop skips without answering: empty, or whitespace
/// alone.
pub fn is_blank_line(line: &str) -> (r: bool)
    ensures
        r == all_space(encode_utf8(line@)),
{
    bytes_all_space(line.as_bytes())
}

/// One parsed request line: the echoed id (absent when missing or null),
/// the method, and the raw parameters.
pub struct JsonRpcRequest {
    pub jsonrpc: String,
    pub id: Option<serde_json::Value>,
    pub method: String,
    pub params: serde_json::Value,
}

/// A protocol-level error: code and message.
pub struct JsonRpcError {
    pub code: i32,
    pub message: String,
}

/// The successful payloads the dispatcher can answer with. The static
/// descriptors carry no data here; the host renders their fixed JSON
/// shapes.
pub enum ResultPayload {
    /// The capability/version descriptor.
    Initialize,
    /// The one-tool list with its input schema.
    ToolsList,
    /// The `ping` acknowledgement.
    Pong,
    /// The `shutdown` acknowledgement.
    ShutdownOk,
    /// A tool call's content envelope: its text, and whether it reports a
    /// tool-level failure.
    Content { text: String, is_error: bool },
}

/// A response is a success payload or a protocol-level error, never both.
pub enum ResponseBody {
    Success(ResultPayload),
    Error(JsonRpcError),
}

/// One response line to be written out.
pub struct JsonRpcResponse {
    pub id: Option<serde_json::Value>,
    pub body: ResponseBody,
}

/// The arguments of an `enhance_prompt` tool call.
pub struct EnhanceArgs {
    pub prompt: String,
    pub goal: Option<String>,
    pub style: Option<String>,
    pub tone: Option<String>,
    pub level: Option<u8>,
    pub audience: Option<String>,
    pub language: Option<String>,
}

/// The arguments as the contracts see them.
pub struct EnhanceArgsView {
    pub prompt: Seq<char>,
    pub goal: Option<Seq<char>>,
    pub style: Option<Seq<char>>,
    pub tone: Option<Seq<char>>,
    pub level: Option<u8>,
    pub audience: Option<Seq<char>>,
    pub language: Option<Seq<char>>,
}

impl View for EnhanceArgs {
    type V = EnhanceArgsView;

    open spec fn view(&self) -> EnhanceArgsView {
        EnhanceArgsView {
            prompt: self.prompt@,
            goal: match self.goal {
                Some(s) => Some(s@),
                None => None,
            },
            style: match self.style {
                Some(s) => Some(s@),
                None => None,
            },
            tone: match self.tone {
                Some(s) => Some(s@),
                None => None,
            },
            level: self.level,
            audience: match self.audience {
                Some(s) => Some(s@),
                None => None,
            },
            language: match self.language {
                Some(s) => Some(s@),
                None => None,
            },
        }
    }
}

/// The method of the document a line parses to, when the line parses and
/// the document's `method` member is a string.
pub open spec fn line_method(line: Seq<char>) -> Option<Seq<char>> {
    match json_doc(line) {
        Ok(doc) => raw_str_field(doc, ("method")@),
        Err(_) => None,
    }
}

/// The document's `jsonrpc` member, if present, is a string.
pub open spec fn line_jsonrpc_ok(line: Seq<char>) -> bool {
    match json_doc(line) {
        Ok(doc) => match json_member(doc, ("jsonrpc")@) {
            Some(j) => json_str_of(j) is Some,
            None => true,
        },
        Err(_) => false,
    }
}

/// The line parses to a routable request: a document with a string
/// `method` and no mistyped `jsonrpc`.
pub open spec fn line_well_formed(line: Seq<char>) -> bool {
    &&& json_parses(line)
    &&& line_method(line) is Some
    &&& line_jsonrpc_ok(line)
}

/// The id a response to this line echoes: the document's `id` member,
/// absent when missing or null.
pub open spec fn line_id(line: Seq<char>) -> Option<serde_json::Value> {
    match json_doc(line) {
        Ok(doc) => match json_member(doc, ("id")@) {
            Some(x) => if json_is_null_of(x) {
                None
            } else {
                Some(x)
            },
            None => None,
        },
        Err(_) => None,
    }
}

/// The document's `params` member, when present.
pub open spec fn line_params(line: Seq<char>) -> Option<serde_json::Value> {
    match json_doc(line) {
        Ok(doc) => json_member(doc, ("params")@),
        Err(_) => None,
    }
}

/// What a line that is not a routable request is reproached with: the
/// parser's own message, or the missing or mistyped field.
pub open spec fn parse_failure_message(line: Seq<char>) -> Seq<char> {
    match json_doc(line) {
        Err(e) => e,
        Ok(doc) => match json_member(doc, ("method")@) {
            None => ("missing field `method`")@,
            Some(m) => if json_str_of(m) is None {
                ("invalid field `method`")@
            } else {
                ("invalid field `jsonrpc`")@
            },
        },
    }
}

/// Parses one request line: the line must be a JSON object with a string
/// `method`; `jsonrpc` defaults to `2.0`, a missing or null `id` is
/// absent, `params` defaults to null.
fn parse_request(line: &str) -> (r: Result<JsonRpcRequest, String>)
    ensures
        r is Ok <==> line_well_formed(line@),
        r matches Err(e) ==> e@ == parse_failure_message(line@),
        r matches Ok(req) ==> {
            &&& Some(req.method@) == line_method(line@)
            &&& req.id == line_id(line@)
            &&& (line_params(line@) matches Some(p) ==> req.params == p)
            &&& (line_params(line@) is None ==> forall|k: Seq<char>| #[trigger] json_member(
                req.params,
                k,
            ) is None)
        },
{
    let v = match json_parse(line) {
        Ok(v) => v,
        Err(e) => {
            return Err(e);
        },
    };
    let method = match json_get(&v, "method") {
        Some(m) => match json_as_str(m) {
            Some(s) => s,
            None => {
                return Err(String::from_str("invalid field `method`"));
            },
        },
        None => {
            return Err(String::from_str("missing field `method`"));
        },
    };
    let jsonrpc = match json_get(&v, "jsonrpc") {
        Some(j) => match json_as_str(j) {
            Some(s) => s,
            None => {
                return Err(String::from_str("invalid field `jsonrpc`"));
            },
        },
        None => default_jsonrpc(),
    };
    let id = match json_get(&v, "id") {
        Some(x) => if json_is_null(x) {
            None
        } else {
            Some(json_clone(x))
        },
        None => None,
    };
    let params = match json_get(&v, "params") {
        Some(p) => json_clone(p),
        None => json_null(),
    };
    Ok(JsonRpcRequest { jsonrpc, id, method, params })
}

/// The outcome of reading one optional string argument: absent or null is
/// `None`, a string is kept, anything else is a shape error.
pub open spec fn opt_str_outcome(a: serde_json::Value, key: Seq<char>) -> Result<
    Option<Seq<char>>,
    (),
> {
    match json_member(a, key) {
        None => Ok(None),
        Some(v) => if json_is_null_of(v) {
            Ok(None)
        } else {
            match json_str_of(v) {
                Some(s) => Ok(Some(s)),
                None => Err(()),
            }
        },
    }
}

/// The outcome of reading the optional `level` argument: absent or null is
/// `None`, a number fitting u8 is kept, anything else is a shape error.
pub open spec fn level_outcome(a: serde_json::Value) -> Result<Option<u8>, ()> {
    match json_member(a, ("level")@) {
        None => Ok(None),
        Some(v) => if json_is_null_of(v) {
            Ok(None)
        } else {
            match json_u64_of(v) {
                Some(n) => if n <= 255 {
                    Ok(Some(n as u8))
                } else {
                    Err(())
                },
                None => Err(()),
            }
        },
    }
}

/// The message reproaching one offending argument.
pub open spec fn invalid_argument_message(key: Seq<char>) -> Seq<char> {
    ("invalid arguments: invalid `")@ + key + ("`")@
}

/// What the arguments of an `enhance_prompt` call parse to: `prompt` must
/// be a string, the optional fields accept a string or null, `level` a
/// number fitting u8 or null; the first offending field wins.
pub open spec fn enhance_args_of(a: serde_json::Value) -> Result<EnhanceArgsView, Seq<char>> {
    match json_member(a, ("prompt")@) {
        None => Err(("invalid arguments: missing field `prompt`")@),
        Some(pv) => match json_str_of(pv) {
            None => Err(invalid_argument_message(("prompt")@)),
            Some(prompt) => match opt_str_outcome(a, ("goal")@) {
                Err(_) => Err(invalid_argument_message(("goal")@)),
                Ok(goal) => match opt_str_outcome(a, ("style")@) {
                    Err(_) => Err(invalid_argument_message(("style")@)),
                    Ok(style) => match opt_str_outcome(a, ("tone")@) {
                        Err(_) => Err(invalid_argument_message(("tone")@)),
                        Ok(tone) => match level_outcome(a) {
                            Err(_) => Err(invalid_argument_message(("level")@)),
                            Ok(level) => match opt_str_outcome(a, ("audience")@) {
                                Err(_) => Err(invalid_argument_message(("audience")@)),
                                Ok(audience) => match opt_str_outcome(a, ("language")@) {
                                    Err(_) => Err(invalid_argument_message(("language")@)),
                                    Ok(language) => Ok(
                                        EnhanceArgsView {
                                            prompt,
                                            goal,
                                            style,
                                            tone,
                                            level,
                                            audience,
                                            language,
                                        },
                                    ),
                                },
                            },
                        },
                    },
                },
            },
        },
    }
}

/// Extracts an optional string argument, as [`opt_str_outcome`] reads it.
fn opt_str_field(args: &serde_json::Value, key: &str) -> (r: Result<Option<String>, ()>)
    ensures
        r matches Ok(o) ==> opt_str_outcome(*args, key@) == Ok::<Option<Seq<char>>, ()>(
            match o {
                Some(s) => Some(s@),
                None => None,
            },
        ),
        r is Err ==> opt_str_outcome(*args, key@) is Err,
{
    match json_get(args, key) {
        None => Ok(None),
        Some(v) => {
            if json_is_null(v) {
                Ok(None)
            } else {
                match json_as_str(v) {
                    Some(s) => Ok(Some(s)),
                    None => Err(()),
                }
            }
        },
    }
}

fn invalid_argument(key: &str) -> (r: String)
    ensures
        r@ == invalid_argument_message(key@),
{
    let mut m = String::from_str("invalid arguments: invalid `");
    m.append(key);
    m.append("`");
    m
}

/// Parses the arguments of an `enhance_prompt` call, as
/// [`enhance_args_of`] reads them.
fn parse_enhance_args(args: &serde_json::Value) -> (r: Result<EnhanceArgs, String>)
    ensures
        (match r {
            Ok(a) => enhance_args_of(*args) == Ok::<EnhanceArgsView, Seq<char>>(a@),
            Err(e) => enhance_args_of(*args) matches Err(m) && e@ == m,
        }),
{
    let prompt = match json_get(args, "prompt") {
        Some(v) => match json_as_str(v) {
            Some(s) => s,
            None => {
                return Err(invalid_argument("prompt"));
            },
        },
        None => {
            return Err(String::from_str("invalid arguments: missing field `prompt`"));
        },
    };
    let goal = match opt_str_field(args, "goal") {
        Ok(x) => x,
        Err(()) => {
            return Err(invalid_argument("goal"));
        },
    };
    let style = match opt_str_field(args, "style") {
        Ok(x) => x,
        Err(()) => {
            return Err(invalid_argument("style"));
        },
    };
    let tone = match opt_str_field(args, "tone") {
        Ok(x) => x,
        Err(()) => {
            return Err(invalid_argument("tone"));
        },
    };
    let level: Option<u8> = match json_get(args, "level") {
        None => None,
        Some(v) => {
            if json_is_null(v) {
                None
            } else {
                match json_as_u64(v) {
                    Some(n) => {
                        if n <= 255 {
                            Some(n as u8)
                        } else {
                            return Err(invalid_argument("level"));
                        }
                    },
                    None => {
                        return Err(invalid_argument("level"));
                    },
                }
            }
        },
    };
    let audience = match opt_str_field(args, "audience") {
        Ok(x) => x,
        Err(()) => {
            return Err(invalid_argument("audience"));
        },
    };
    let language = match opt_str_field(args, "language") {
        Ok(x) => x,
        Err(()) => {
            return Err(invalid_argument("language"));
        },
    };
    let parsed = EnhanceArgs { prompt, goal, style, tone, level, audience, language };
    proof {
        assert(enhance_args_of(*args) == Ok::<EnhanceArgsView, Seq<char>>(parsed@));
    }
    Ok(parsed)
}

/// Shapes the orchestrator's outcome as the tool-call content envelope: a
/// success carries the enhanced text; a failure is still a successful
/// response, its text prefixed `tool error: ` and flagged as an error.
pub fn content_response(id: Option<serde_json::Value>, res: Result<
    crate::models::EnhancedPrompt,
    ExecuteError,
>) -> (r: JsonRpcResponse)
    ensures
        r.id == id,
        res matches Ok(e) ==> (r.body matches ResponseBody::Success(p) && p matches
            ResultPayload::Content { text, is_error } && text == e.text && is_error == false),
        res matches Err(err) ==> (r.body matches ResponseBody::Success(p) && p matches
            ResultPayload::Content { text, is_error } && text@ == ("tool error: ")@
            + execute_error_text(err) && is_error == true),
{
    match res {
        Ok(e) => JsonRpcResponse {
            id,
            body: ResponseBody::Success(ResultPayload::Content { text: e.text, is_error: false }),
        },
        Err(err) => {
            let mut text = String::from_str("tool error: ");
            let m = err.message();
            text.append(m.as_str());
            JsonRpcResponse {
                id,
                body: ResponseBody::Success(ResultPayload::Content { text, is_error: true }),
            }
        },
    }
}

/// The `arguments` member of the call parameters parsed as the tool's
/// arguments; an absent member reads as null, whose `prompt` is missing.
pub open spec fn call_args_result(params: serde_json::Value) -> Result<EnhanceArgsView, Seq<char>> {
    match json_member(params, ("arguments")@) {
        Some(a) => enhance_args_of(a),
        None => Err(("invalid arguments: missing field `prompt`")@),
    }
}

/// What a tools/call response holds, for every shape the parameters can
/// have: no string `name` is a -32602; a name other than `enhance_prompt`
/// is a -32601 naming it; arguments that do not parse are a -32602 with
/// the first offending field; and a well-formed call answers with a
/// content envelope (whose text the backend decides).
pub open spec fn tool_call_post(params: serde_json::Value, r: JsonRpcResponse) -> bool {
    match raw_str_field(params, ("name")@) {
        None => r.body matches ResponseBody::Error(e) && e.code == -32602 && e.message@ == (
        "invalid params: missing field `name`")@,
        Some(n) => if n != ("enhance_prompt")@ {
            r.body matches ResponseBody::Error(e) && e.code == -32601 && e.message@ == (
            "unknown tool: ")@ + n
        } else {
            match call_args_result(params) {
                Err(m) => r.body matches ResponseBody::Error(e) && e.code == -32602 && e.message@
                    == m,
                Ok(_) => r.body matches ResponseBody::Success(p) && p is Content,
            }
        },
    }
}

fn tool_call_response<P: LLMProvider>(
    usecase: &EnhancePrompt<P>,
    id: Option<serde_json::Value>,
    params: &serde_json::Value,
) -> (r: JsonRpcResponse)
    ensures
        r.id == id,
        tool_call_post(*params, r),
{
    let name = match json_get(params, "name") {
        Some(v) => json_as_str(v),
        None => None,
    };
    let name = match name {
        Some(n) => n,
        None => {
            return JsonRpcResponse {
                id,
                body: ResponseBody::Error(
                    JsonRpcError {
                        code: -32602,
                        message: String::from_str("invalid params: missing field `name`"),
                    },
                ),
            };
        },
    };
    if !str_eq(name.as_str(), "enhance_prompt") {
        let mut message = String::from_str("unknown tool: ");
        message.append(name.as_str());
        return JsonRpcResponse {
            id,
            body: ResponseBody::Error(JsonRpcError { code: -32601, message }),
        };
    }
    let arguments = match json_get(params, "arguments") {
        Some(a) => json_clone(a),
        None => json_null(),
    };
    let args = match parse_enhance_args(&arguments) {
        Ok(a) => a,
        Err(message) => {
            return JsonRpcResponse {
                id,
                body: ResponseBody::Error(JsonRpcError { code: -32602, message }),
            };
        },
    };
    let options = EnhancementOptions {
        goal: args.goal,
        style: args.style,
        tone: args.tone,
        level: args.level,
        audience: args.audience,
        language: args.language,
        enable_sequential_thinking: None,
        thought_count: None,
    };
    let res = usecase.execute(Prompt { text: args.prompt }, options);
    content_response(id, res)
}

/// Routes one parsed request by method name. The known methods answer
/// with their payloads; `tools/call` runs the tool as [`tool_call_post`]
/// states; anything else is an unknown-method error. Every response
/// echoes the request's id.
pub fn handle_request<P: LLMProvider>(usecase: &EnhancePrompt<P>, req: JsonRpcRequest) -> (r:
    JsonRpcResponse)
    ensures
        r.id == req.id,
        req.method@ == ("initialize")@ || req.method@ == ("mcp/initialize")@ ==> (r.body matches
            ResponseBody::Success(p) && p is Initialize),
        req.method@ == ("tools/list")@ ==> (r.body matches ResponseBody::Success(p)
            && p is ToolsList),
        req.method@ == ("ping")@ ==> (r.body matches ResponseBody::Success(p) && p is Pong),
        req.method@ == ("shutdown")@ ==> (r.body matches ResponseBody::Success(p)
            && p is ShutdownOk),
        req.method@ == ("tools/call")@ ==> tool_call_post(req.params, r),
        req.method@ != ("initialize")@ && req.method@ != ("mcp/initialize")@ && req.method@ != (
        "tools/list")@ && req.method@ != ("tools/call")@ && req.method@ != ("ping")@
            && req.method@ != ("shutdown")@ ==> (r.body matches ResponseBody::Error(e) && e.code
            == -32601 && e.message@ == ("unknown method: ")@ + req.method@),
{
    proof {
        reveal_strlit("initialize");
        reveal_strlit("mcp/initialize");
        reveal_strlit("tools/list");
        reveal_strlit("tools/call");
        reveal_strlit("ping");
        reveal_strlit("shutdown");
        // The six method names are pairwise distinct: most differ in
        // length, the three of length 10 differ at a revealed position.
        assert(("initialize")@.len() == 10);
        assert(("mcp/initialize")@.len() == 14);
        assert(("tools/list")@.len() == 10);
        assert(("tools/call")@.len() == 10);
        assert(("ping")@.len() == 4);
        assert(("shutdown")@.len() == 8);
        assert(("initialize")@[0] == 'i');
        assert(("tools/list")@[0] == 't');
        assert(("tools/call")@[0] == 't');
        assert(("tools/list")@[6] == 'l');
        assert(("tools/call")@[6] == 'c');
    }
    let m = req.method.as_str();
    if str_eq(m, "initialize") || str_eq(m, "mcp/initialize") {
        JsonRpcResponse { id: req.id, body: ResponseBody::Success(ResultPayload::Initialize) }
    } else if str_eq(m, "tools/list") {
        JsonRpcResponse { id: req.id, body: ResponseBody::Success(ResultPayload::ToolsList) }
    } else if str_eq(m, "tools/call") {
        tool_call_response(usecase, req.id, &req.params)
    } else if str_eq(m, "ping") {
        JsonRpcResponse { id: req.id, body: ResponseBody::Success(ResultPayload::Pong) }
    } else if str_eq(m, "shutdown") {
        JsonRpcResponse { id: req.id, body: ResponseBody::Success(ResultPayload::ShutdownOk) }
    } else {
        let mut message = String::from_str("unknown method: ");
        message.append(m);
        JsonRpcResponse {
            id: req.id,
            body: ResponseBody::Error(JsonRpcError { code: -32601, message }),
        }
    }
}

/// Handles one raw input line. A line that does not read as a routable
/// request is answered with a parse error carrying no id; a routable line
/// is answered by method, echoing its id, with `tools/call` as
/// [`tool_call_post`] states.
pub fn handle_line<P: LLMProvider>(usecase: &EnhancePrompt<P>, line: &str) -> (r: JsonRpcResponse)
    ensures
        !line_well_formed(line@) ==> r.id is None && (r.body matches ResponseBody::Error(e)
            && e.code == -32700 && e.message@ == ("parse error: ")@ + parse_failure_message(
            line@,
        )),
        line_well_formed(line@) ==> ({
            let m = line_method(line@)->0;
            &&& r.id == line_id(line@)
            &&& (m == ("initialize")@ || m == ("mcp/initialize")@ ==> (r.body matches
                ResponseBody::Success(p) && p is Initialize))
            &&& (m == ("tools/list")@ ==> (r.body matches ResponseBody::Success(p)
                && p is ToolsList))
            &&& (m == ("ping")@ ==> (r.body matches ResponseBody::Success(p) && p is Pong))
            &&& (m == ("shutdown")@ ==> (r.body matches ResponseBody::Success(p)
                && p is ShutdownOk))
            &&& (m == ("tools/call")@ ==> (line_params(line@) matches Some(p)
                ==> tool_call_post(p, r)))
            &&& (m == ("tools/call")@ && line_params(line@) is None ==> (r.body matches
                ResponseBody::Error(e) && e.code == -32602 && e.message@ == (
            "invalid params: missing field `name`")@))
            &&& (m != ("initialize")@ && m != ("mcp/initialize")@ && m != ("tools/list")@ && m
                != ("tools/call")@ && m != ("ping")@ && m != ("shutdown")@ ==> (r.body matches
                ResponseBody::Error(e) && e.code == -32601 && e.message@ == ("unknown method: ")@
                + m))
        }),
{
    match parse_request(line) {
        Ok(req) => handle_request(usecase, req),
        Err(m) => {
            let mut message = String::from_str("parse error: ");
            message.append(m.as_str());
            JsonRpcResponse {
                id: None,
                body: ResponseBody::Error(JsonRpcError { code: -32700, message }),
            }
        },
    }
}

} // verus!
