use vstd::prelude::*;

verus! {

// Method names.
pub const INITIALIZE: &'static str = "initialize";
pub const INITIALIZED: &'static str = "notifications/initialized";
pub const TOOLS_LIST: &'static str = "tools/list";
pub const TOOLS_CALL: &'static str = "tools/call";
pub const TOOLS_LIST_CHANGED: &'static str = "notifications/tools/list_changed";
pub const RESOURCES_LIST: &'static str = "resources/list";
pub const RESOURCES_READ: &'static str = "resources/read";
pub const RESOURCES_SUBSCRIBE: &'static str = "resources/subscribe";
pub const RESOURCES_UNSUBSCRIBE: &'static str = "resources/unsubscribe";
pub const RESOURCES_TEMPLATES_LIST: &'static str = "resources/templates/list";
pub const PROMPTS_LIST: &'static str = "prompts/list";
pub const PROMPTS_GET: &'static str = "prompts/get";
pub const PROMPTS_LIST_CHANGED: &'static str = "notifications/prompts/list_changed";
pub const COMPLETION_COMPLETE: &'static str = "completion/complete";
pub const RESOURCES_UPDATED: &'static str = "notifications/resources/updated";
pub const RESOURCES_LIST_CHANGED: &'static str = "notifications/resources/list_changed";
pub const SAMPLING_CREATE_MESSAGE: &'static str = "sampling/createMessage";
pub const LOG: &'static str = "notifications/log";

// Standard JSON-RPC error codes.
pub const PARSE_ERROR: i32 = -32700;
pub const INVALID_REQUEST: i32 = -32600;
pub const METHOD_NOT_FOUND: i32 = -32601;
pub const INVALID_PARAMS: i32 = -32602;
pub const INTERNAL_ERROR: i32 = -32603;

// Protocol-specific error codes.
pub const RESOURCE_NOT_FOUND: i32 = -32002;
pub const SERVER_NOT_INITIALIZED: i32 = -32003;
pub const SAMPLING_NOT_ENABLED: i32 = -32004;
pub const SAMPLING_NO_CALLBACK: i32 = -32005;
pub const SAMPLING_ERROR: i32 = -32006;

} // verus!
