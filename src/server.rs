use vstd::prelude::*;

use crate::constants::{
    INTERNAL_ERROR, INVALID_PARAMS, METHOD_NOT_FOUND, RESOURCE_NOT_FOUND, SERVER_NOT_INITIALIZED,
};
use crate::json::{push_member, Json};
use crate::lifecycle::{after_initialized, check_request, on_initialized, refusal, ServerState};
use crate::message::{
    error_data, error_message, is_error_response, is_notification, success_result, JsonRpcMessage,
};
use crate::pagination::{next_cursor, page_keys, page_start, PAGE_SIZE};
use crate::params::{
    complete_of, complete_param, cursor_of, cursor_param, initialize_of, initialize_param,
    pairs_view, prompt_get_of, prompt_get_param, tool_call_of, tool_call_param, uri_of, uri_param,
};
use crate::prompts::{arguments_valid, names_fault, validate_arguments, PromptManager};
use crate::resources::{pair_in, ResourceManager};
use crate::template::{extract_parameter_from_uri, placeholder};
use crate::text::{concat, contains_seq, str_eq};
use crate::tools::ToolManager;
use crate::types::completion::{
    encodes_completion, CompleteResponse, CompletionItem, CompletionReference, CompletionResult,
};
use crate::types::prompt::{encodes_prompt_result, lists_prompt, Prompt, PromptGetResult, PromptMessage};
use crate::types::resource::{
    contents_to_json, encodes_resource_contents, lists_resource, lists_template, Resource, ResourceContent, ResourceTemplate,
};
use crate::types::tool::{encodes_call_result, lists_tool, Tool, ToolCallResult};
use crate::types::{encodes_identity, entry, entry_at, identity_json, member_count, str_entry};
use crate::version::{is_supported_version, protocol_version_spec, version_mismatch_error, PROTOCOL_VERSION};

verus! {

/// The requests a server answers.
pub enum Method {
    Initialize,
    ToolsList,
    ToolsCall,
    ResourcesList,
    ResourcesRead,
    ResourcesSubscribe,
    ResourcesUnsubscribe,
    TemplatesList,
    PromptsList,
    PromptsGet,
    Complete,
    Unknown,
}

/// The request that a method name stands for.
pub open spec fn method_kind(m: Seq<char>) -> Method {
    if m == "initialize"@ {
        Method::Initialize
    } else if m == "tools/list"@ {
        Method::ToolsList
    } else if m == "tools/call"@ {
        Method::ToolsCall
    } else if m == "resources/list"@ {
        Method::ResourcesList
    } else if m == "resources/read"@ {
        Method::ResourcesRead
    } else if m == "resources/subscribe"@ {
        Method::ResourcesSubscribe
    } else if m == "resources/unsubscribe"@ {
        Method::ResourcesUnsubscribe
    } else if m == "resources/templates/list"@ {
        Method::TemplatesList
    } else if m == "prompts/list"@ {
        Method::PromptsList
    } else if m == "prompts/get"@ {
        Method::PromptsGet
    } else if m == "completion/complete"@ {
        Method::Complete
    } else {
        Method::Unknown
    }
}

/// What the server does with an inbound message: reply at once, or ask the host to run a
/// registered handler and then reply with the matching `*_reply` function.
pub enum ServerAction {
    Reply(JsonRpcMessage),
    CallTool { id: Json, name: String, arguments: Json },
    ReadResource { id: Json, uri: String },
    GetPrompt { id: Json, name: String, arguments: Option<Vec<(String, String)>>, description: Option<String> },
    CompleteTemplate { id: Json, uri: String, argument: String, value: Option<String> },
    CompletePrompt { id: Json, prompt: String, argument: String, value: Option<String> },
    /// A response to one of the server's own requests, for the waiter registered with it.
    Deliver { waiter: u64, message: JsonRpcMessage },
    Nothing,
}

/// `a` replies to `id` with an error of `code`.
pub open spec fn replies_error(a: ServerAction, id: Json, code: i32) -> bool {
    match a {
        ServerAction::Reply(m) => is_error_response(m, id, code),
        _ => false,
    }
}

/// The result with which `a` replies to `id`, when it is a successful reply.
pub open spec fn reply_result(a: ServerAction, id: Json) -> Option<Json> {
    match a {
        ServerAction::Reply(m) => success_result(m, id),
        _ => None,
    }
}

/// The items of the page `{ key: [items], nextCursor: next }` with which `a` replies to `id`.
pub open spec fn replied_page(a: ServerAction, id: Json, key: Seq<char>, next: Seq<char>) -> Option<Seq<Json>> {
    match reply_result(a, id) {
        Some(res) => if member_count(res) == 2 && str_entry(res, 1, "nextCursor"@, next) {
            match entry_at(res, 0) {
                Some(e) => if e.0@ == key {
                    match e.1 {
                        Json::Array(items) => Some(items@),
                        _ => None,
                    }
                } else {
                    None
                },
                None => None,
            }
        } else {
            None
        },
        None => None,
    }
}

/// `a` replies to `id` with `{ success: true }`.
pub open spec fn replies_success(a: ServerAction, id: Json) -> bool {
    match reply_result(a, id) {
        Some(res) => member_count(res) == 1 && entry(res, 0, "success"@, Json::Bool(true)),
        None => false,
    }
}

/// `j` is `{ completion: { values: [], hasMore: false } }`.
pub open spec fn empty_completion(j: Json) -> bool {
    &&& member_count(j) == 1
    &&& entry_at(j, 0) matches Some(e) && e.0@ == "completion"@ && {
        let inner = e.1;
        &&& member_count(inner) == 2
        &&& entry_at(inner, 0) matches Some(v) && v.0@ == "values"@ && v.1 is Array && v.1->Array_0@.len() == 0
        &&& entry(inner, 1, "hasMore"@, Json::Bool(false))
    }
}

/// `j` is `{ listChanged: true }`, followed by `subscribe: true` when `subscribe` holds.
pub open spec fn change_flags(j: Json, subscribe: bool) -> bool {
    &&& member_count(j) == if subscribe { 2int } else { 1int }
    &&& entry(j, 0, "listChanged"@, Json::Bool(true))
    &&& (subscribe ==> entry(j, 1, "subscribe"@, Json::Bool(true)))
}

/// `j` is the server's capabilities: tools, resources (with subscriptions) and prompts, each
/// announcing list changes.
pub open spec fn server_capabilities(j: Json) -> bool {
    &&& member_count(j) == 3
    &&& entry_at(j, 0) matches Some(e) && e.0@ == "tools"@ && change_flags(e.1, false)
    &&& entry_at(j, 1) matches Some(e) && e.0@ == "resources"@ && change_flags(e.1, true)
    &&& entry_at(j, 2) matches Some(e) && e.0@ == "prompts"@ && change_flags(e.1, false)
}

/// `j` is the initialize result: protocol version, capabilities, server identity.
pub open spec fn initialize_result(j: Json, name: Seq<char>, version: Seq<char>) -> bool {
    &&& member_count(j) == 3
    &&& str_entry(j, 0, "protocolVersion"@, protocol_version_spec())
    &&& entry_at(j, 1) matches Some(e) && e.0@ == "capabilities"@ && server_capabilities(e.1)
    &&& entry_at(j, 2) matches Some(e) && e.0@ == "serverInfo"@ && encodes_identity(name, version, e.1)
}

/// The cursor that a list request starts from.
pub open spec fn start_cursor(c: Option<Seq<char>>) -> Seq<char> {
    match c {
        Some(x) => x,
        None => Seq::empty(),
    }
}

/// The server side of a session: its identity, phase and registries.
pub struct Server {
    pub name: String,
    pub version: String,
    pub state: ServerState,
    pub tools: ToolManager,
    pub resources: ResourceManager,
    pub prompts: PromptManager,
    /// The identity under which the connected client's subscriptions are kept.
    pub peer: String,
    pub pending: crate::pending::PendingTable,
    pub ids: crate::pending::IdCounter,
}

/// The outcome of `initialize` from `s` (in `Created`).
pub open spec fn initialize_outcome(s: Server, s2: Server, id: Json, params: Option<Json>, r: ServerAction) -> bool {
    match initialize_param(params) {
        None => replies_error(r, id, INVALID_PARAMS) && s2 == s,
        Some((v, _, _)) => if v == protocol_version_spec() {
            &&& s2 == Server { state: ServerState::Initializing, ..s }
            &&& reply_result(r, id) matches Some(res) && initialize_result(res, s.name@, s.version@)
        } else {
            &&& replies_error(r, id, INVALID_PARAMS)
            &&& s2 == s
            &&& error_data(r->Reply_0) matches Some(d) && version_mismatch_data(d, v)
        },
    }
}

/// `d` is `{ supported: [the protocol version], requested }`.
pub open spec fn version_mismatch_data(d: Json, requested: Seq<char>) -> bool {
    &&& member_count(d) == 2
    &&& entry_at(d, 0) matches Some(e) && e.0@ == "supported"@ && (match e.1 {
        Json::Array(items) => items@.len() == 1 && crate::types::text_of(items@[0]) == Some(protocol_version_spec()),
        _ => false,
    })
    &&& str_entry(d, 1, "requested"@, requested)
}

/// `a` is an error reply whose data is `{ uri }`.
pub open spec fn uri_data(a: ServerAction, uri: Seq<char>) -> bool {
    match a {
        ServerAction::Reply(m) => error_data(m) matches Some(d) && member_count(d) == 1 && str_entry(d, 0, "uri"@, uri),
        _ => false,
    }
}

/// The outcome of a list request over keys `keys` answered under `key`: item `i` of the
/// page is the listing (`listed`) of the entry at position `page_start + i`.
pub open spec fn list_outcome(
    s: Server,
    s2: Server,
    id: Json,
    params: Option<Json>,
    r: ServerAction,
    keys: Seq<Seq<char>>,
    key: Seq<char>,
    listed: spec_fn(int, Json) -> bool,
) -> bool {
    &&& s2 == s
    &&& match cursor_param(params) {
        Err(_) => replies_error(r, id, INVALID_PARAMS),
        Ok(c) => match replied_page(r, id, key, next_cursor(keys, start_cursor(c), PAGE_SIZE as nat)) {
            Some(items) => {
                &&& items.len() == page_keys(keys, start_cursor(c), PAGE_SIZE as nat).len()
                &&& forall|i: int|
                    0 <= i < items.len() ==> listed(page_start(keys, start_cursor(c)) + i, #[trigger] items[i])
            },
            None => false,
        },
    }
}

/// The outcome of `tools/call`: the named tool runs on exactly the arguments given; a tool
/// that is not registered is an internal error, as a failing handler is.
pub open spec fn tools_call_outcome(s: Server, s2: Server, id: Json, params: Option<Json>, r: ServerAction) -> bool {
    &&& s2 == s
    &&& match tool_call_param(params) {
        None => replies_error(r, id, INVALID_PARAMS),
        Some((n, args)) => if s.tools.tools.has(n) {
            r matches ServerAction::CallTool { id: i, name, arguments } && i == id && name@ == n
                && arguments == args
        } else {
            &&& replies_error(r, id, INTERNAL_ERROR)
            &&& error_message(r->Reply_0) == Some("Tool execution error: Tool not found: "@ + n)
        },
    }
}

/// The outcome of `resources/read`.
pub open spec fn read_outcome(s: Server, s2: Server, id: Json, params: Option<Json>, r: ServerAction) -> bool {
    &&& s2 == s
    &&& match uri_param(params) {
        None => replies_error(r, id, INVALID_PARAMS),
        Some(u) => if s.resources.resources.has(u) {
            r matches ServerAction::ReadResource { id: i, uri } && i == id && uri@ == u
        } else {
            replies_error(r, id, RESOURCE_NOT_FOUND) && uri_data(r, u)
        },
    }
}

/// The outcome of `resources/subscribe`: the client is subscribed to an existing resource.
pub open spec fn subscribe_outcome(s: Server, s2: Server, id: Json, params: Option<Json>, r: ServerAction) -> bool {
    match uri_param(params) {
        None => replies_error(r, id, INVALID_PARAMS) && s2 == s,
        Some(u) => if s.resources.resources.has(u) {
            &&& replies_success(r, id)
            &&& s2.resources.subscribed(u, s.peer@)
            &&& forall|x: Seq<char>, y: Seq<char>|
                (x != u || y != s.peer@) ==> s2.resources.subscribed(x, y) == s.resources.subscribed(x, y)
            &&& s2 == Server { resources: s2.resources, ..s }
            &&& s2.resources.resources == s.resources.resources
        } else {
            replies_error(r, id, RESOURCE_NOT_FOUND) && uri_data(r, u) && s2 == s
        },
    }
}

/// The outcome of `resources/unsubscribe`: succeeds whether or not there was a subscription.
pub open spec fn unsubscribe_outcome(s: Server, s2: Server, id: Json, params: Option<Json>, r: ServerAction) -> bool {
    match uri_param(params) {
        None => replies_error(r, id, INVALID_PARAMS) && s2 == s,
        Some(u) => {
            &&& replies_success(r, id)
            &&& !s2.resources.subscribed(u, s.peer@)
            &&& forall|x: Seq<char>, y: Seq<char>|
                (x != u || y != s.peer@) ==> s2.resources.subscribed(x, y) == s.resources.subscribed(x, y)
            &&& s2 == Server { resources: s2.resources, ..s }
            &&& s2.resources.resources == s.resources.resources
        },
    }
}

/// The text of an optional string.
pub open spec fn opt_text(v: Option<String>) -> Option<Seq<char>> {
    match v {
        Some(x) => Some(x@),
        None => None,
    }
}

/// The arguments given to a prompt, as name-value pairs.
pub open spec fn args_view(a: Option<Vec<(String, String)>>) -> Option<Seq<(Seq<char>, Seq<char>)>> {
    match a {
        Some(v) => Some(pairs_view(v@)),
        None => None,
    }
}

/// The arguments a prompt declares.
pub open spec fn declared_view(p: Prompt) -> Option<Seq<crate::types::prompt::PromptArgument>> {
    match p.arguments {
        Some(d) => Some(d@),
        None => None,
    }
}

/// The outcome of `prompts/get`: an unknown prompt or arguments that do not satisfy it are
/// invalid parameters, and the message names the argument at fault; otherwise the prompt's
/// handler is to run, and its reply carries the registered description.
pub open spec fn prompt_get_outcome(s: Server, s2: Server, id: Json, params: Option<Json>, r: ServerAction) -> bool {
    &&& s2 == s
    &&& match prompt_get_param(params) {
        None => replies_error(r, id, INVALID_PARAMS),
        Some((n, args)) => if !s.prompts.prompts.has(n) {
            replies_error(r, id, INVALID_PARAMS)
        } else if !arguments_valid(declared_view(s.prompts.prompts.lookup(n)), args) {
            &&& replies_error(r, id, INVALID_PARAMS)
            &&& names_fault(
                declared_view(s.prompts.prompts.lookup(n))->Some_0,
                args,
                error_message(r->Reply_0)->Some_0,
            )
        } else {
            r matches ServerAction::GetPrompt { id: i, name, arguments, description } && i == id && name@ == n
                && args_view(arguments) == args && opt_text(description) == opt_text(
                s.prompts.prompts.lookup(n).description,
            )
        },
    }
}

/// The outcome of `completion/complete`: a registered provider is asked, otherwise the
/// completion is empty.
pub open spec fn complete_outcome(s: Server, s2: Server, id: Json, params: Option<Json>, r: ServerAction) -> bool {
    &&& s2 == s
    &&& match complete_param(params) {
        None => replies_error(r, id, INVALID_PARAMS),
        Some((is_prompt, target, arg, value)) => {
            let provided = if is_prompt {
                pair_in(s.prompts.completion_providers@, target, arg)
            } else {
                contains_seq(target, placeholder(arg)) && s.resources.completion_providers.has(target)
            };
            if !provided {
                reply_result(r, id) matches Some(res) && empty_completion(res)
            } else if is_prompt {
                r matches ServerAction::CompletePrompt { id: i, prompt, argument, value: v } && i == id
                    && prompt@ == target && argument@ == arg && opt_text(v) == value
            } else {
                r matches ServerAction::CompleteTemplate { id: i, uri, argument, value: v } && i == id
                    && uri@ == target && argument@ == arg && opt_text(v) == value
            }
        },
    }
}

/// The outcome of request `method` from `s`: refused by the lifecycle with no change, or
/// answered as the method prescribes.
pub open spec fn request_outcome(
    s: Server,
    s2: Server,
    id: Json,
    method: Seq<char>,
    params: Option<Json>,
    r: ServerAction,
) -> bool {
    match refusal(s.state, method == "initialize"@) {
        Some(code) => replies_error(r, id, code) && s2 == s,
        None => match method_kind(method) {
            Method::Initialize => initialize_outcome(s, s2, id, params, r),
            Method::ToolsList => list_outcome(s, s2, id, params, r, s.tools.names(), "tools"@,
                |k: int, j: Json| lists_tool(s.tools.tools.entries@[k].1, j)),
            Method::ToolsCall => tools_call_outcome(s, s2, id, params, r),
            Method::ResourcesList => list_outcome(s, s2, id, params, r, s.resources.resources.keys(), "resources"@,
                |k: int, j: Json| lists_resource(s.resources.resources.entries@[k].1, j)),
            Method::ResourcesRead => read_outcome(s, s2, id, params, r),
            Method::ResourcesSubscribe => subscribe_outcome(s, s2, id, params, r),
            Method::ResourcesUnsubscribe => unsubscribe_outcome(s, s2, id, params, r),
            Method::TemplatesList => list_outcome(s, s2, id, params, r, s.resources.templates.keys(), "resourceTemplates"@,
                |k: int, j: Json| lists_template(s.resources.templates.entries@[k].1, j)),
            Method::PromptsList => list_outcome(s, s2, id, params, r, s.prompts.names(), "prompts"@,
                |k: int, j: Json| lists_prompt(s.prompts.prompts.entries@[k].1, j)),
            Method::PromptsGet => prompt_get_outcome(s, s2, id, params, r),
            Method::Complete => complete_outcome(s, s2, id, params, r),
            Method::Unknown => replies_error(r, id, METHOD_NOT_FOUND) && s2 == s,
        },
    }
}

/// No request other than `initialize` gets a successful reply while the session is not
/// `Ready`: it is refused with "server not initialized" and changes nothing.
pub proof fn lemma_no_success_before_ready(
    s: Server,
    s2: Server,
    id: Json,
    method: Seq<char>,
    params: Option<Json>,
    r: ServerAction,
)
    requires
        request_outcome(s, s2, id, method, params, r),
        method != "initialize"@,
        s.state != ServerState::Ready,
    ensures
        replies_error(r, id, SERVER_NOT_INITIALIZED),
        reply_result(r, id) is None,
        s2 == s,
{
}

/// `initialize` twice on the same peer: once the first has succeeded, the second is an
/// invalid request and leaves the server as it was.
pub proof fn lemma_second_initialize_refused(
    s: Server,
    s2: Server,
    s3: Server,
    id: Json,
    params: Option<Json>,
    r: ServerAction,
    id2: Json,
    params2: Option<Json>,
    r2: ServerAction,
)
    requires
        request_outcome(s, s2, id, "initialize"@, params, r),
        reply_result(r, id) is Some,
        request_outcome(s2, s3, id2, "initialize"@, params2, r2),
    ensures
        replies_error(r2, id2, crate::constants::INVALID_REQUEST),
        s3 == s2,
{
}

impl Server {
    pub open spec fn wf(&self) -> bool {
        &&& self.tools.wf()
        &&& self.resources.wf()
        &&& self.prompts.wf()
        &&& self.pending.wf()
    }

    /// A server in `Created` with no registrations.
    pub fn new(name: &str, version: &str) -> (r: Self)
        ensures
            r.wf(),
            r.name@ == name@,
            r.version@ == version@,
            r.state == ServerState::Created,
            r.tools.names().len() == 0,
            r.prompts.names().len() == 0,
            r.resources.resources.keys().len() == 0,
    {
        Server {
            name: name.to_owned(),
            version: version.to_owned(),
            state: ServerState::Created,
            tools: ToolManager::new(),
            resources: ResourceManager::new(),
            prompts: PromptManager::new(),
            peer: "client".to_owned(),
            pending: crate::pending::PendingTable::new(),
            ids: crate::pending::IdCounter::new(),
        }
    }

    fn error_reply(id: Json, code: i32, message: &str) -> (r: ServerAction)
        ensures
            replies_error(r, id, code),
            error_message(r->Reply_0) == Some(message@),
    {
        ServerAction::Reply(JsonRpcMessage::error(id, code, message, None))
    }

    fn page_reply(id: Json, key: &str, items: Vec<Json>, next: String) -> (r: ServerAction)
        ensures
            replied_page(r, id, key@, next@) == Some(items@),
    {
        let mut es: Vec<(String, Json)> = Vec::new();
        push_member(&mut es, key, Json::Array(items));
        push_member(&mut es, "nextCursor", Json::Str(next));
        ServerAction::Reply(JsonRpcMessage::response(id, Json::Object(es)))
    }

    fn success_reply(id: Json) -> (r: ServerAction)
        ensures
            replies_success(r, id),
    {
        let mut es: Vec<(String, Json)> = Vec::new();
        push_member(&mut es, "success", Json::Bool(true));
        ServerAction::Reply(JsonRpcMessage::response(id, Json::Object(es)))
    }

    fn empty_completion_reply(id: Json) -> (r: ServerAction)
        ensures
            reply_result(r, id) matches Some(res) && empty_completion(res),
    {
        let mut inner: Vec<(String, Json)> = Vec::new();
        push_member(&mut inner, "values", Json::Array(Vec::new()));
        push_member(&mut inner, "hasMore", Json::Bool(false));
        let mut es: Vec<(String, Json)> = Vec::new();
        push_member(&mut es, "completion", Json::Object(inner));
        ServerAction::Reply(JsonRpcMessage::response(id, Json::Object(es)))
    }

    fn flags(subscribe: bool) -> (r: Json)
        ensures
            change_flags(r, subscribe),
    {
        let mut es: Vec<(String, Json)> = Vec::new();
        push_member(&mut es, "listChanged", Json::Bool(true));
        if subscribe {
            push_member(&mut es, "subscribe", Json::Bool(true));
        }
        Json::Object(es)
    }

    /// The initialize result of this server.
    fn initialize_result_json(&self) -> (r: Json)
        ensures
            initialize_result(r, self.name@, self.version@),
    {
        let mut caps: Vec<(String, Json)> = Vec::new();
        push_member(&mut caps, "tools", Self::flags(false));
        push_member(&mut caps, "resources", Self::flags(true));
        push_member(&mut caps, "prompts", Self::flags(false));
        let mut es: Vec<(String, Json)> = Vec::new();
        push_member(&mut es, "protocolVersion", Json::from_str(PROTOCOL_VERSION));
        push_member(&mut es, "capabilities", Json::Object(caps));
        push_member(&mut es, "serverInfo", identity_json(self.name.as_str(), self.version.as_str()));
        Json::Object(es)
    }

    fn handle_initialize(&mut self, id: Json, params: Option<Json>) -> (r: ServerAction)
        requires
            old(self).wf(),
        ensures
            initialize_outcome(*old(self), *final(self), id, params, r),
    {
        let (requested, _client) = match initialize_of(&params) {
            Some(x) => x,
            None => return Self::error_reply(id, INVALID_PARAMS, "Invalid initialize parameters"),
        };
        if !is_supported_version(requested.as_str()) {
            let mismatch = version_mismatch_error(requested.as_str());
            let mut data: Vec<(String, Json)> = Vec::new();
            let mut supported: Vec<Json> = Vec::new();
            let mut versions = mismatch.supported;
            supported.push(Json::Str(versions.remove(0)));
            push_member(&mut data, "supported", Json::Array(supported));
            push_member(&mut data, "requested", Json::Str(mismatch.requested));
            return ServerAction::Reply(
                JsonRpcMessage::error(id, INVALID_PARAMS, "Unsupported protocol version", Some(Json::Object(data))),
            );
        }
        self.state = ServerState::Initializing;
        ServerAction::Reply(JsonRpcMessage::response(id, self.initialize_result_json()))
    }

    fn handle_tools_call(&self, id: Json, params: Option<Json>) -> (r: ServerAction)
        requires
            self.wf(),
        ensures
            tools_call_outcome(*self, *self, id, params, r),
    {
        match tool_call_of(params) {
            None => Self::error_reply(id, INVALID_PARAMS, "Invalid tool call parameters"),
            Some((name, arguments)) => {
                if self.tools.has_tool(name.as_str()) {
                    ServerAction::CallTool { id, name, arguments }
                } else {
                    let m = concat("Tool execution error: Tool not found: ", name.as_str());
                    proof {
                        reveal_strlit("Tool execution error: Tool not found: ");
                    }
                    Self::error_reply(id, INTERNAL_ERROR, m.as_str())
                }
            },
        }
    }

    fn handle_resources_read(&self, id: Json, params: Option<Json>) -> (r: ServerAction)
        requires
            self.wf(),
        ensures
            read_outcome(*self, *self, id, params, r),
    {
        match uri_of(&params) {
            None => Self::error_reply(id, INVALID_PARAMS, "Invalid resource read parameters"),
            Some(uri) => {
                if self.resources.has_resource(uri.as_str()) {
                    ServerAction::ReadResource { id, uri }
                } else {
                    let m = concat("Resource not found: ", uri.as_str());
                    let mut data: Vec<(String, Json)> = Vec::new();
                    push_member(&mut data, "uri", Json::Str(uri));
                    ServerAction::Reply(
                        JsonRpcMessage::error(id, RESOURCE_NOT_FOUND, m.as_str(), Some(Json::Object(data))),
                    )
                }
            },
        }
    }

    fn handle_resources_subscribe(&mut self, id: Json, params: Option<Json>) -> (r: ServerAction)
        requires
            old(self).wf(),
        ensures
            final(self).wf(),
            subscribe_outcome(*old(self), *final(self), id, params, r),
    {
        match uri_of(&params) {
            None => Self::error_reply(id, INVALID_PARAMS, "Invalid resource subscribe parameters"),
            Some(uri) => {
                match self.resources.subscribe(self.peer.as_str(), uri.as_str()) {
                    Ok(()) => Self::success_reply(id),
                    Err(()) => {
                        let m = concat("Resource not found: ", uri.as_str());
                        let mut data: Vec<(String, Json)> = Vec::new();
                        push_member(&mut data, "uri", Json::Str(uri));
                        ServerAction::Reply(
                            JsonRpcMessage::error(id, RESOURCE_NOT_FOUND, m.as_str(), Some(Json::Object(data))),
                        )
                    },
                }
            },
        }
    }

    fn handle_resources_unsubscribe(&mut self, id: Json, params: Option<Json>) -> (r: ServerAction)
        requires
            old(self).wf(),
        ensures
            final(self).wf(),
            unsubscribe_outcome(*old(self), *final(self), id, params, r),
    {
        match uri_of(&params) {
            None => Self::error_reply(id, INVALID_PARAMS, "Invalid resource unsubscribe parameters"),
            Some(uri) => {
                self.resources.unsubscribe(self.peer.as_str(), uri.as_str());
                Self::success_reply(id)
            },
        }
    }

    fn handle_prompts_get(&self, id: Json, params: Option<Json>) -> (r: ServerAction)
        requires
            self.wf(),
        ensures
            prompt_get_outcome(*self, *self, id, params, r),
    {
        let (name, arguments) = match prompt_get_of(&params) {
            Some(x) => x,
            None => return Self::error_reply(id, INVALID_PARAMS, "Invalid prompt get parameters"),
        };
        let i = match self.prompts.find_prompt(name.as_str()) {
            Some(i) => i,
            None => {
                let m = concat("Prompt not found: ", name.as_str());
                return Self::error_reply(id, INVALID_PARAMS, m.as_str());
            },
        };
        match validate_arguments(&self.prompts.prompts.entries[i].1, &arguments) {
            Err(m) => Self::error_reply(id, INVALID_PARAMS, m.as_str()),
            Ok(()) => {
                let description = match &self.prompts.prompts.entries[i].1.description {
                    Some(d) => Some(d.clone()),
                    None => None,
                };
                ServerAction::GetPrompt { id, name, arguments, description }
            },
        }
    }

    fn handle_completion_complete(&self, id: Json, params: Option<Json>) -> (r: ServerAction)
        requires
            self.wf(),
        ensures
            complete_outcome(*self, *self, id, params, r),
    {
        let req = match complete_of(&params) {
            Some(req) => req,
            None => return Self::error_reply(id, INVALID_PARAMS, "Invalid completion parameters"),
        };
        let argument = req.argument.name;
        let value = req.argument.value;
        match req.reference {
            CompletionReference::Prompt { name } => {
                if self.prompts.has_completion_provider(name.as_str(), argument.as_str()) {
                    ServerAction::CompletePrompt { id, prompt: name, argument, value }
                } else {
                    Self::empty_completion_reply(id)
                }
            },
            CompletionReference::Resource { uri } => {
                let has_param = extract_parameter_from_uri(uri.as_str(), argument.as_str()).is_some();
                if has_param && self.resources.has_completion_provider(uri.as_str()) {
                    ServerAction::CompleteTemplate { id, uri, argument, value }
                } else {
                    Self::empty_completion_reply(id)
                }
            },
        }
    }

    /// Handles an inbound request.
    ///
    /// While the peer is not `Ready`, every request but the first `initialize` is refused,
    /// and the refusal leaves the server unchanged.
    pub fn handle_request(&mut self, id: Json, method: &str, params: Option<Json>) -> (r: ServerAction)
        requires
            old(self).wf(),
        ensures
            final(self).wf(),
            request_outcome(*old(self), *final(self), id, method@, params, r),
    {
        let is_init = str_eq(method, "initialize");
        match check_request(self.state, is_init) {
            Some(code) => {
                let m = if code == SERVER_NOT_INITIALIZED {
                    "Server not initialized"
                } else {
                    "Server already initialized"
                };
                return Self::error_reply(id, code, m);
            },
            None => {},
        }
        if is_init {
            self.handle_initialize(id, params)
        } else if str_eq(method, "tools/list") {
            match cursor_of(&params) {
                Err(()) => Self::error_reply(id, INVALID_PARAMS, "Invalid tool list parameters"),
                Ok(c) => {
                    let cursor = match c { Some(c) => c, None => String::new() };
                    let (items, next) = self.tools.list_tools(cursor.as_str());
                    Self::page_reply(id, "tools", items, next)
                },
            }
        } else if str_eq(method, "tools/call") {
            self.handle_tools_call(id, params)
        } else if str_eq(method, "resources/list") {
            match cursor_of(&params) {
                Err(()) => Self::error_reply(id, INVALID_PARAMS, "Invalid resource list parameters"),
                Ok(c) => {
                    let cursor = match c { Some(c) => c, None => String::new() };
                    let (items, next) = self.resources.list_resources(cursor.as_str());
                    Self::page_reply(id, "resources", items, next)
                },
            }
        } else if str_eq(method, "resources/read") {
            self.handle_resources_read(id, params)
        } else if str_eq(method, "resources/subscribe") {
            self.handle_resources_subscribe(id, params)
        } else if str_eq(method, "resources/unsubscribe") {
            self.handle_resources_unsubscribe(id, params)
        } else if str_eq(method, "resources/templates/list") {
            match cursor_of(&params) {
                Err(()) => Self::error_reply(id, INVALID_PARAMS, "Invalid template list parameters"),
                Ok(c) => {
                    let cursor = match c { Some(c) => c, None => String::new() };
                    let (items, next) = self.resources.list_templates(cursor.as_str());
                    Self::page_reply(id, "resourceTemplates", items, next)
                },
            }
        } else if str_eq(method, "prompts/list") {
            match cursor_of(&params) {
                Err(()) => Self::error_reply(id, INVALID_PARAMS, "Invalid prompt list parameters"),
                Ok(c) => {
                    let cursor = match c { Some(c) => c, None => String::new() };
                    let (items, next) = self.prompts.list_prompts(cursor.as_str());
                    Self::page_reply(id, "prompts", items, next)
                },
            }
        } else if str_eq(method, "prompts/get") {
            self.handle_prompts_get(id, params)
        } else if str_eq(method, "completion/complete") {
            self.handle_completion_complete(id, params)
        } else {
            let m = concat("Method not found: ", method);
            Self::error_reply(id, METHOD_NOT_FOUND, m.as_str())
        }
    }
}

impl Server {
    /// The reply to `tools/call` once the tool's handler has run: its result, content
    /// unchanged, or an internal error carrying the handler's message.
    pub fn tool_call_reply(id: Json, outcome: Result<ToolCallResult, String>) -> (r: JsonRpcMessage)
        ensures
            outcome matches Ok(res) ==> (success_result(r, id) matches Some(j) && encodes_call_result(res, j)),
            outcome matches Err(m) ==> (is_error_response(r, id, INTERNAL_ERROR) && error_message(r)
                == Some("Tool execution error: "@ + m@)),
    {
        match outcome {
            Ok(res) => JsonRpcMessage::response(id, res.into_json()),
            Err(m) => {
                let text = concat("Tool execution error: ", m.as_str());
                JsonRpcMessage::error(id, INTERNAL_ERROR, text.as_str(), None)
            },
        }
    }

    /// The reply to `resources/read` once the content provider has run: `{ contents }` with
    /// the provider's output unchanged, or an internal error.
    pub fn resource_read_reply(id: Json, outcome: Result<Vec<ResourceContent>, String>) -> (r: JsonRpcMessage)
        ensures
            outcome matches Ok(cs) ==> (success_result(r, id) matches Some(j) && read_result(j, cs@)),
            outcome matches Err(m) ==> (is_error_response(r, id, INTERNAL_ERROR) && error_message(r)
                == Some("Resource read error: "@ + m@)),
    {
        match outcome {
            Ok(cs) => {
                let mut es: Vec<(String, Json)> = Vec::new();
                push_member(&mut es, "contents", contents_to_json(cs));
                JsonRpcMessage::response(id, Json::Object(es))
            },
            Err(m) => {
                let text = concat("Resource read error: ", m.as_str());
                JsonRpcMessage::error(id, INTERNAL_ERROR, text.as_str(), None)
            },
        }
    }

    /// The reply to `prompts/get` once the prompt's handler has run.
    pub fn prompt_get_reply(
        id: Json,
        description: Option<String>,
        outcome: Result<Vec<PromptMessage>, String>,
    ) -> (r: JsonRpcMessage)
        ensures
            outcome matches Ok(ms) ==> (success_result(r, id) matches Some(j) && encodes_prompt_result(
                (PromptGetResult { description, messages: ms }),
                j,
            )),
            outcome matches Err(m) ==> (is_error_response(r, id, INTERNAL_ERROR) && error_message(r)
                == Some("Prompt error: "@ + m@)),
    {
        match outcome {
            Ok(messages) => JsonRpcMessage::response(id, PromptGetResult { description, messages }.into_json()),
            Err(m) => {
                let text = concat("Prompt error: ", m.as_str());
                JsonRpcMessage::error(id, INTERNAL_ERROR, text.as_str(), None)
            },
        }
    }

    /// The reply to a template completion once the provider has run: the labels of its
    /// items, their count as `total`, and `hasMore: false`.
    pub fn template_completion_reply(id: Json, outcome: Result<Vec<crate::types::resource::CompletionItem>, String>) -> (r: JsonRpcMessage)
        ensures
            outcome matches Ok(items) ==> items@.len() <= i64::MAX ==> (success_result(r, id) matches Some(j) && exists|c: CompletionResult|
                encodes_completion(c, j) && c.values@.len() == items@.len() && (forall|i: int|
                    0 <= i < items@.len() ==> #[trigger] c.values@[i]@ == items@[i].label@)
                    && c.total == Some(items@.len() as usize) && !c.has_more),
            outcome matches Err(m) ==> (is_error_response(r, id, INTERNAL_ERROR) && error_message(r)
                == Some("Completion error: "@ + m@)),
    {
        match outcome {
            Ok(items) => {
                let n = items.len();
                let mut values: Vec<String> = Vec::new();
                let mut i: usize = 0;
                while i < n
                    invariant
                        n == items@.len(),
                        i <= n,
                        values@.len() == i,
                        forall|k: int| 0 <= k < i ==> #[trigger] values@[k]@ == items@[k].label@,
                    decreases n - i,
                {
                    values.push(items[i].label.clone());
                    i = i + 1;
                }
                let c = CompletionResult { values, total: Some(n), has_more: false };
                let ghost gc = c;
                let j = CompleteResponse { completion: c }.into_json_checked();
                proof {
                    if n as int <= i64::MAX {
                        assert(encodes_completion(gc, j));
                    }
                }
                JsonRpcMessage::response(id, j)
            },
            Err(m) => {
                let text = concat("Completion error: ", m.as_str());
                JsonRpcMessage::error(id, INTERNAL_ERROR, text.as_str(), None)
            },
        }
    }

    /// The reply to a prompt-argument completion once the provider has run: its values
    /// and `hasMore: false`.
    pub fn prompt_completion_reply(id: Json, outcome: Result<Vec<String>, String>) -> (r: JsonRpcMessage)
        ensures
            outcome matches Ok(values) ==> (success_result(r, id) matches Some(j) && encodes_completion(
                (CompletionResult { values, total: None, has_more: false }),
                j,
            )),
            outcome matches Err(m) ==> (is_error_response(r, id, INTERNAL_ERROR) && error_message(r)
                == Some("Completion error: "@ + m@)),
    {
        match outcome {
            Ok(values) => {
                let c = CompletionResult { values, total: None, has_more: false };
                JsonRpcMessage::response(id, CompleteResponse { completion: c }.into_json_checked())
            },
            Err(m) => {
                let text = concat("Completion error: ", m.as_str());
                JsonRpcMessage::error(id, INTERNAL_ERROR, text.as_str(), None)
            },
        }
    }

    /// Handles an inbound notification: `initialized` moves `Initializing` to `Ready`;
    /// others change nothing.
    pub fn handle_notification(&mut self, method: &str)
        ensures
            method@ == "notifications/initialized"@ ==> *final(self) == (Server {
                state: after_initialized(old(self).state),
                ..*old(self)
            }),
            method@ != "notifications/initialized"@ ==> *final(self) == *old(self),
    {
        if str_eq(method, "notifications/initialized") {
            self.state = on_initialized(self.state);
        }
    }

    /// Handles one inbound message: requests are answered or handed to a handler,
    /// notifications update the phase, and a response settles the request it answers.
    pub fn handle_message(&mut self, message: JsonRpcMessage) -> (r: ServerAction)
        requires
            old(self).wf(),
        ensures
            final(self).wf(),
            message matches JsonRpcMessage::Request { id, method, params, .. } ==> request_outcome(
                *old(self),
                *final(self),
                id,
                method@,
                params,
                r,
            ),
            message matches JsonRpcMessage::Notification { method, .. } ==> r is Nothing && (if method@
                == "notifications/initialized"@ {
                *final(self) == (Server { state: after_initialized(old(self).state), ..*old(self) })
            } else {
                *final(self) == *old(self)
            }),
            message matches JsonRpcMessage::Response { id, .. } ==> (match crate::pending::id_key(id) {
                Some(k) => (old(self).pending.is_pending(k) ==> (r matches ServerAction::Deliver { waiter, message: m }
                    && waiter == old(self).pending.waiter(k) && m == message && !final(self).pending.is_pending(k)
                    && (forall|x: Seq<char>| x != k ==> final(self).pending.is_pending(x) == old(self).pending.is_pending(x))))
                    && (!old(self).pending.is_pending(k) ==> r is Nothing && *final(self) == *old(self)),
                None => r is Nothing && *final(self) == *old(self),
            }),
            message is Response ==> *final(self) == (Server { pending: final(self).pending, ..*old(self) }),
    {
        match message {
            JsonRpcMessage::Request { id, method, params, .. } => self.handle_request(id, method.as_str(), params),
            JsonRpcMessage::Notification { method, .. } => {
                self.handle_notification(method.as_str());
                ServerAction::Nothing
            },
            JsonRpcMessage::Response { id, result, error, jsonrpc } => {
                match crate::pending::request_id_key(&id) {
                    Some(key) => match self.pending.resolve(key.as_str()) {
                        Some(waiter) => ServerAction::Deliver {
                            waiter,
                            message: JsonRpcMessage::Response { id, result, error, jsonrpc },
                        },
                        None => ServerAction::Nothing,
                    },
                    None => ServerAction::Nothing,
                }
            },
        }
    }

    /// A `sampling/createMessage` request to the client under a fresh id, recorded as
    /// pending for `waiter`; `None` when the session is not `Ready` or the ids ran out.
    pub fn create_message_request(&mut self, params: Json, waiter: u64) -> (r: Option<JsonRpcMessage>)
        requires
            old(self).wf(),
        ensures
            final(self).wf(),
            old(self).state != ServerState::Ready ==> r is None && *final(self) == *old(self),
            old(self).state == ServerState::Ready && old(self).ids.next < i64::MAX && !old(self).pending.is_pending(
                crate::text::decimal_text(old(self).ids.next as int),
            ) ==> r is Some,
            r is None ==> final(self).pending == old(self).pending && final(self).state == old(self).state,
            r matches Some(m) ==> (m matches JsonRpcMessage::Request { id: Json::Int(n), method, params: p, .. }
                && p == Some(params) && method@ == "sampling/createMessage"@ && n == old(self).ids.next
                && final(self).pending.is_pending(crate::text::decimal_text(n as int))
                && final(self).pending.waiter(crate::text::decimal_text(n as int)) == waiter),
    {
        if self.state != ServerState::Ready || self.ids.next == i64::MAX {
            return None;
        }
        let n = self.ids.next_request_id();
        let key = crate::text::i64_to_decimal(n);
        if !self.pending.register(key, waiter) {
            return None;
        }
        Some(JsonRpcMessage::request(Json::Int(n), "sampling/createMessage", Some(params)))
    }

    /// Shuts the session down and cancels every outstanding request, handing back their
    /// waiters.
    pub fn close(&mut self) -> (r: Vec<u64>)
        requires
            old(self).wf(),
        ensures
            final(self).wf(),
            final(self).state == ServerState::ShuttingDown,
            r@ == old(self).pending.waiters(),
    {
        self.state = ServerState::ShuttingDown;
        self.pending.cancel_all()
    }

    /// The list-changed notification `method`, when the session is `Ready`.
    fn list_changed(&self, method: &str) -> (r: Option<JsonRpcMessage>)
        ensures
            self.state == ServerState::Ready ==> (r matches Some(m) && is_notification(m, method@, None)),
            self.state != ServerState::Ready ==> r is None,
    {
        if self.state == ServerState::Ready {
            Some(JsonRpcMessage::notification(method, None))
        } else {
            None
        }
    }

    /// Registers a tool; once the session is `Ready` the client is told that the tool list
    /// changed.
    pub fn register_tool(&mut self, tool: Tool) -> (r: Option<JsonRpcMessage>)
        requires
            old(self).wf(),
        ensures
            final(self).wf(),
            final(self).tools.tools.has(tool.name@),
            final(self).tools.tools.lookup(tool.name@) == tool,
            forall|k: Seq<char>| k != tool.name@ ==> final(self).tools.tools.has(k) == old(self).tools.tools.has(k),
            forall|k: Seq<char>|
                k != tool.name@ && #[trigger] old(self).tools.tools.has(k) ==> final(self).tools.tools.lookup(k)
                    == old(self).tools.tools.lookup(k),
            *final(self) == (Server { tools: final(self).tools, ..*old(self) }),
            final(self).state == old(self).state,
            old(self).state == ServerState::Ready ==> (r matches Some(m) && is_notification(
                m,
                "notifications/tools/list_changed"@,
                None,
            )),
            old(self).state != ServerState::Ready ==> r is None,
    {
        self.tools.register_tool(tool);
        self.list_changed("notifications/tools/list_changed")
    }

    /// Registers a resource; once `Ready` the client is told that the resource list changed.
    pub fn register_resource(&mut self, resource: Resource) -> (r: Option<JsonRpcMessage>)
        requires
            old(self).wf(),
        ensures
            final(self).wf(),
            final(self).resources.resources.has(resource.uri@),
            final(self).resources.resources.lookup(resource.uri@) == resource,
            forall|k: Seq<char>|
                k != resource.uri@ ==> final(self).resources.resources.has(k) == old(self).resources.resources.has(k),
            forall|k: Seq<char>|
                k != resource.uri@ && #[trigger] old(self).resources.resources.has(k)
                    ==> final(self).resources.resources.lookup(k) == old(self).resources.resources.lookup(k),
            final(self).resources == (ResourceManager { resources: final(self).resources.resources, ..old(self).resources }),
            *final(self) == (Server { resources: final(self).resources, ..*old(self) }),
            final(self).state == old(self).state,
            old(self).state == ServerState::Ready ==> (r matches Some(m) && is_notification(
                m,
                "notifications/resources/list_changed"@,
                None,
            )),
            old(self).state != ServerState::Ready ==> r is None,
    {
        self.resources.register_resource(resource);
        self.list_changed("notifications/resources/list_changed")
    }

    /// Registers a resource template; once `Ready` the client is told that the resource
    /// list changed.
    pub fn register_template(&mut self, template: ResourceTemplate) -> (r: Option<JsonRpcMessage>)
        requires
            old(self).wf(),
        ensures
            final(self).wf(),
            final(self).resources.templates.has(template.uri_template@),
            final(self).resources.templates.lookup(template.uri_template@) == template,
            forall|k: Seq<char>|
                k != template.uri_template@ ==> final(self).resources.templates.has(k) == old(self).resources.templates.has(k),
            forall|k: Seq<char>|
                k != template.uri_template@ && #[trigger] old(self).resources.templates.has(k)
                    ==> final(self).resources.templates.lookup(k) == old(self).resources.templates.lookup(k),
            final(self).resources == (ResourceManager { templates: final(self).resources.templates, ..old(self).resources }),
            *final(self) == (Server { resources: final(self).resources, ..*old(self) }),
            final(self).state == old(self).state,
            old(self).state == ServerState::Ready ==> (r matches Some(m) && is_notification(
                m,
                "notifications/resources/list_changed"@,
                None,
            )),
            old(self).state != ServerState::Ready ==> r is None,
    {
        self.resources.register_template(template);
        self.list_changed("notifications/resources/list_changed")
    }

    /// Registers a prompt; once `Ready` the client is told that the prompt list changed.
    pub fn register_prompt(&mut self, prompt: Prompt) -> (r: Option<JsonRpcMessage>)
        requires
            old(self).wf(),
        ensures
            final(self).wf(),
            final(self).prompts.prompts.has(prompt.name@),
            final(self).prompts.prompts.lookup(prompt.name@) == prompt,
            forall|k: Seq<char>| k != prompt.name@ ==> final(self).prompts.prompts.has(k) == old(self).prompts.prompts.has(k),
            forall|k: Seq<char>|
                k != prompt.name@ && #[trigger] old(self).prompts.prompts.has(k) ==> final(self).prompts.prompts.lookup(k)
                    == old(self).prompts.prompts.lookup(k),
            final(self).prompts.completion_providers == old(self).prompts.completion_providers,
            *final(self) == (Server { prompts: final(self).prompts, ..*old(self) }),
            final(self).state == old(self).state,
            old(self).state == ServerState::Ready ==> (r matches Some(m) && is_notification(
                m,
                "notifications/prompts/list_changed"@,
                None,
            )),
            old(self).state != ServerState::Ready ==> r is None,
    {
        self.prompts.register_prompt(prompt);
        self.list_changed("notifications/prompts/list_changed")
    }

    /// Records a completion provider for a template.
    pub fn register_template_completion(&mut self, template_uri: &str)
        requires
            old(self).wf(),
        ensures
            final(self).wf(),
            final(self).resources.completion_providers.has(template_uri@),
            forall|k: Seq<char>|
                k != template_uri@ ==> final(self).resources.completion_providers.has(k)
                    == old(self).resources.completion_providers.has(k),
            final(self).resources == (ResourceManager {
                completion_providers: final(self).resources.completion_providers,
                ..old(self).resources
            }),
            *final(self) == (Server { resources: final(self).resources, ..*old(self) }),
    {
        self.resources.register_completion_provider(template_uri);
    }

    /// Records a completion provider for an argument of a prompt.
    pub fn register_prompt_completion(&mut self, prompt_name: &str, arg_name: &str)
        requires
            old(self).wf(),
        ensures
            final(self).wf(),
            pair_in(final(self).prompts.completion_providers@, prompt_name@, arg_name@),
            forall|p: Seq<char>, a: Seq<char>|
                (p != prompt_name@ || a != arg_name@) ==> pair_in(final(self).prompts.completion_providers@, p, a)
                    == pair_in(old(self).prompts.completion_providers@, p, a),
            final(self).prompts.prompts == old(self).prompts.prompts,
            *final(self) == (Server { prompts: final(self).prompts, ..*old(self) }),
    {
        self.prompts.register_completion_provider(prompt_name, arg_name);
    }

    /// Replaces a resource (and with it its content provider, which the host keeps).
    /// When the session is `Ready` and someone is subscribed to its URI, the returned
    /// `notifications/resources/updated { uri }` is to be sent before anything else.
    pub fn update_resource(&mut self, resource: Resource) -> (r: Option<JsonRpcMessage>)
        requires
            old(self).wf(),
        ensures
            final(self).wf(),
            final(self).resources.resources.has(resource.uri@),
            final(self).resources.resources.lookup(resource.uri@) == resource,
            forall|k: Seq<char>|
                k != resource.uri@ && #[trigger] old(self).resources.resources.has(k)
                    ==> final(self).resources.resources.lookup(k) == old(self).resources.resources.lookup(k),
            final(self).resources == (ResourceManager { resources: final(self).resources.resources, ..old(self).resources }),
            *final(self) == (Server { resources: final(self).resources, ..*old(self) }),
            final(self).state == old(self).state,
            r is Some <==> (old(self).state == ServerState::Ready && old(self).resources.watched(resource.uri@)),
            r matches Some(m) ==> updated_notification(m, resource.uri@),
    {
        let uri = resource.uri.clone();
        self.resources.register_resource(resource);
        if self.state == ServerState::Ready && self.resources.is_watched(uri.as_str()) {
            let mut es: Vec<(String, Json)> = Vec::new();
            push_member(&mut es, "uri", Json::Str(uri));
            Some(JsonRpcMessage::notification("notifications/resources/updated", Some(Json::Object(es))))
        } else {
            None
        }
    }

    /// The tool registry.
    pub fn tool_manager(&self) -> (r: &ToolManager)
        ensures
            *r == self.tools,
    {
        &self.tools
    }

    /// The resource registry.
    pub fn resource_manager(&self) -> (r: &ResourceManager)
        ensures
            *r == self.resources,
    {
        &self.resources
    }

    /// The prompt registry.
    pub fn prompt_manager(&self) -> (r: &PromptManager)
        ensures
            *r == self.prompts,
    {
        &self.prompts
    }
}

/// Collects the declarations of a server before it starts.
pub struct ServerBuilder {
    pub server: Server,
}

impl ServerBuilder {
    pub fn new(name: &str, version: &str) -> (r: Self)
        ensures
            r.server.wf(),
            r.server.state == ServerState::Created,
            r.server.name@ == name@,
            r.server.version@ == version@,
    {
        ServerBuilder { server: Server::new(name, version) }
    }

    /// Declares a tool.
    pub fn with_tool(self, tool: Tool) -> (r: Self)
        requires
            self.server.wf(),
            self.server.state == ServerState::Created,
        ensures
            r.server.wf(),
            r.server.state == ServerState::Created,
            r.server.tools.tools.has(tool.name@),
    {
        let mut s = self.server;
        s.register_tool(tool);
        ServerBuilder { server: s }
    }

    /// Declares a resource.
    pub fn with_resource(self, resource: Resource) -> (r: Self)
        requires
            self.server.wf(),
            self.server.state == ServerState::Created,
        ensures
            r.server.wf(),
            r.server.state == ServerState::Created,
            r.server.resources.resources.has(resource.uri@),
    {
        let mut s = self.server;
        s.register_resource(resource);
        ServerBuilder { server: s }
    }

    /// Declares a resource template.
    pub fn with_template(self, template: ResourceTemplate) -> (r: Self)
        requires
            self.server.wf(),
            self.server.state == ServerState::Created,
        ensures
            r.server.wf(),
            r.server.state == ServerState::Created,
            r.server.resources.templates.has(template.uri_template@),
    {
        let mut s = self.server;
        s.register_template(template);
        ServerBuilder { server: s }
    }

    /// Declares a completion provider for a template.
    pub fn with_template_completion(self, template_uri: &str) -> (r: Self)
        requires
            self.server.wf(),
            self.server.state == ServerState::Created,
        ensures
            r.server.wf(),
            r.server.state == ServerState::Created,
            r.server.resources.completion_providers.has(template_uri@),
    {
        let mut s = self.server;
        s.register_template_completion(template_uri);
        ServerBuilder { server: s }
    }

    /// Declares a completion provider for an argument of a prompt.
    pub fn with_prompt_completion(self, prompt_name: &str, arg_name: &str) -> (r: Self)
        requires
            self.server.wf(),
            self.server.state == ServerState::Created,
        ensures
            r.server.wf(),
            r.server.state == ServerState::Created,
            pair_in(r.server.prompts.completion_providers@, prompt_name@, arg_name@),
    {
        let mut s = self.server;
        s.register_prompt_completion(prompt_name, arg_name);
        ServerBuilder { server: s }
    }

    /// Declares a prompt.
    pub fn with_prompt(self, prompt: Prompt) -> (r: Self)
        requires
            self.server.wf(),
            self.server.state == ServerState::Created,
        ensures
            r.server.wf(),
            r.server.state == ServerState::Created,
            r.server.prompts.prompts.has(prompt.name@),
    {
        let mut s = self.server;
        s.register_prompt(prompt);
        ServerBuilder { server: s }
    }

    /// The server, in `Created`.
    pub fn build(self) -> (r: Server)
        ensures
            r == self.server,
    {
        self.server
    }
}

/// `j` is `{ contents }` with the wire forms of `cs`, in order.
pub open spec fn read_result(j: Json, cs: Seq<ResourceContent>) -> bool {
    &&& member_count(j) == 1
    &&& entry_at(j, 0) matches Some(e) && e.0@ == "contents"@ && encodes_resource_contents(cs, e.1)
}

/// `m` is `notifications/resources/updated { uri }`.
pub open spec fn updated_notification(m: JsonRpcMessage, uri: Seq<char>) -> bool {
    match m {
        JsonRpcMessage::Notification { method, params: Some(p), .. } => method@
            == "notifications/resources/updated"@ && member_count(p) == 1 && str_entry(p, 0, "uri"@, uri),
        _ => false,
    }
}

/// A client subscribed to a resource before it is replaced is told about the change: when
/// the session is `Ready`, `update_resource` returns the `updated` notification for it,
/// which the host sends ahead of any later response.
pub proof fn lemma_subscriber_notified(s: Server, uri: Seq<char>, subscriber: Seq<char>)
    requires
        s.resources.subscribed(uri, subscriber),
    ensures
        s.resources.watched(uri),
{
    let i = choose|i: int|
        0 <= i < s.resources.subscriptions@.len() && #[trigger] s.resources.subscriptions@[i].0@ == uri
            && s.resources.subscriptions@[i].1@ == subscriber;
    assert(s.resources.subscriptions@[i].0@ == uri);
}

} // verus!
