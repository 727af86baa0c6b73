use vstd::prelude::*;

use crate::constants::{INVALID_PARAMS, METHOD_NOT_FOUND, SAMPLING_ERROR, SAMPLING_NOT_ENABLED, SAMPLING_NO_CALLBACK};
use crate::json::{push_member, Json};
use crate::lifecycle::ServerState;
use crate::message::{error_message, is_error_response, is_notification, success_result, JsonRpcMessage};
use crate::pending::{request_id_key, id_key, IdCounter, PendingTable};
use crate::text::{concat, decimal_text, i64_to_decimal, str_eq};
use crate::types::sampling::{encodes_create_message_result, CreateMessageResult};
use crate::types::{encodes_identity, entry_at, identity_json, member_count, str_entry};
use crate::version::{protocol_version_spec, PROTOCOL_VERSION};

verus! {

/// What the client does with an inbound message.
pub enum ClientAction {
    Reply(JsonRpcMessage),
    /// A response to one of the client's requests, for the waiter registered with it.
    Deliver { waiter: u64, message: JsonRpcMessage },
    /// Run the registered sampling callback on `params`, then reply with
    /// `Client::sampling_reply`.
    InvokeSampling { id: Json, params: Json },
    Nothing,
}

/// `a` replies to `id` with an error of `code`.
pub open spec fn client_replies_error(a: ClientAction, id: Json, code: i32) -> bool {
    match a {
        ClientAction::Reply(m) => is_error_response(m, id, code),
        _ => false,
    }
}

/// `j` is the client's capabilities: `{ sampling: {} }` when sampling is enabled, else `{}`.
pub open spec fn client_capabilities(j: Json, sampling: bool) -> bool {
    &&& member_count(j) == if sampling { 1int } else { 0int }
    &&& (sampling ==> match entry_at(j, 0) {
        Some(e) => e.0@ == "sampling"@ && member_count(e.1) == 0,
        None => false,
    })
}

/// `j` is the parameters of `initialize`: protocol version, capabilities, client identity.
pub open spec fn initialize_params(j: Json, sampling: bool, name: Seq<char>, version: Seq<char>) -> bool {
    &&& member_count(j) == 3
    &&& str_entry(j, 0, "protocolVersion"@, protocol_version_spec())
    &&& match entry_at(j, 1) {
        Some(e) => e.0@ == "capabilities"@ && client_capabilities(e.1, sampling),
        None => false,
    }
    &&& match entry_at(j, 2) {
        Some(e) => e.0@ == "clientInfo"@ && encodes_identity(name, version, e.1),
        None => false,
    }
}

/// `m` is a response carrying a result and no error.
pub open spec fn is_result_response(m: JsonRpcMessage) -> bool {
    match m {
        JsonRpcMessage::Response { result: Some(_), error: None, .. } => true,
        _ => false,
    }
}

/// A new request can be issued: ids are left and the next one is not pending.
pub open spec fn can_issue(c: Client) -> bool {
    c.ids.next < i64::MAX && !c.pending.is_pending(decimal_text(c.ids.next as int))
}

/// The client side of a session.
pub struct Client {
    pub name: String,
    pub version: String,
    pub state: ServerState,
    pub sampling_enabled: bool,
    /// Whether the host registered a sampling callback.
    pub sampling_callback: bool,
    pub pending: PendingTable,
    pub ids: IdCounter,
}

/// Builder of a `Client`.
pub struct ClientBuilder {
    pub name: String,
    pub version: String,
    pub sampling_enabled: bool,
}

impl ClientBuilder {
    pub fn new(name: &str, version: &str) -> (r: Self)
        ensures
            r.name@ == name@,
            r.version@ == version@,
            !r.sampling_enabled,
    {
        ClientBuilder { name: name.to_owned(), version: version.to_owned(), sampling_enabled: false }
    }

    /// Advertises the sampling capability.
    pub fn with_sampling(self) -> (r: Self)
        ensures
            r.sampling_enabled,
            r.name == self.name,
            r.version == self.version,
    {
        ClientBuilder { sampling_enabled: true, ..self }
    }

    pub fn build(self) -> (r: Client)
        ensures
            r.wf(),
            r.name == self.name,
            r.version == self.version,
            r.sampling_enabled == self.sampling_enabled,
            !r.sampling_callback,
            r.state == ServerState::Created,
            r.ids.next == 1,
            forall|k: Seq<char>| !r.pending.is_pending(k),
    {
        Client {
            name: self.name,
            version: self.version,
            state: ServerState::Created,
            sampling_enabled: self.sampling_enabled,
            sampling_callback: false,
            pending: PendingTable::new(),
            ids: IdCounter::new(),
        }
    }
}

impl Client {
    pub open spec fn wf(&self) -> bool {
        self.pending.wf()
    }

    /// The next request id.
    pub fn next_request_id(&mut self) -> (r: Option<i64>)
        ensures
            old(self).ids.next < i64::MAX ==> r == Some(old(self).ids.next) && final(self).ids.next
                == old(self).ids.next + 1,
            old(self).ids.next >= i64::MAX ==> r is None && final(self).ids == old(self).ids,
            final(self).pending == old(self).pending,
            final(self).state == old(self).state,
            final(self).sampling_enabled == old(self).sampling_enabled,
            final(self).sampling_callback == old(self).sampling_callback,
            final(self).name == old(self).name,
            final(self).version == old(self).version,
    {
        if self.ids.next >= i64::MAX {
            None
        } else {
            Some(self.ids.next_request_id())
        }
    }

    /// A request under a fresh id, recorded as pending for `waiter`.
    fn issue(&mut self, method: &str, params: Option<Json>, waiter: u64) -> (r: Result<JsonRpcMessage, String>)
        requires
            old(self).wf(),
        ensures
            final(self).wf(),
            final(self).state == old(self).state,
            final(self).sampling_enabled == old(self).sampling_enabled,
            final(self).sampling_callback == old(self).sampling_callback,
            final(self).name == old(self).name,
            final(self).version == old(self).version,
            r matches Ok(m) ==> (m matches JsonRpcMessage::Request { id: Json::Int(n), method: x, params: p, .. }
                && x@ == method@ && p == params && n == old(self).ids.next
                && final(self).pending.is_pending(decimal_text(n as int))
                && final(self).pending.waiter(decimal_text(n as int)) == waiter),
            can_issue(*old(self)) ==> r is Ok,
            r is Err ==> final(self).pending == old(self).pending,
    {
        let n = match self.next_request_id() {
            Some(n) => n,
            None => return Err("Request ids exhausted".to_owned()),
        };
        if !self.pending.register(i64_to_decimal(n), waiter) {
            return Err("Request id already pending".to_owned());
        }
        Ok(JsonRpcMessage::request(Json::Int(n), method, params))
    }

    /// The `initialize` request; only a client in `Created` sends it, and it then waits in
    /// `Initializing` for the answer.
    pub fn initialize_request(&mut self, waiter: u64) -> (r: Result<JsonRpcMessage, String>)
        requires
            old(self).wf(),
        ensures
            final(self).wf(),
            old(self).state != ServerState::Created ==> r is Err && *final(self) == *old(self),
            old(self).state == ServerState::Created && can_issue(*old(self)) ==> r is Ok,
            r is Ok ==> final(self).state == ServerState::Initializing,
            r is Ok ==> final(self).pending.is_pending(decimal_text(old(self).ids.next as int))
                && final(self).pending.waiter(decimal_text(old(self).ids.next as int)) == waiter,
            r is Err ==> final(self).state == old(self).state && final(self).pending == old(self).pending,
            r matches Ok(m) ==> (m matches JsonRpcMessage::Request { method, params: Some(p), .. }
                && method@ == "initialize"@ && initialize_params(
                p,
                old(self).sampling_enabled,
                old(self).name@,
                old(self).version@,
            )),
    {
        if self.state != ServerState::Created {
            return Err("Client already initialized".to_owned());
        }
        let mut caps: Vec<(String, Json)> = Vec::new();
        if self.sampling_enabled {
            push_member(&mut caps, "sampling", Json::Object(Vec::new()));
        }
        let mut es: Vec<(String, Json)> = Vec::new();
        push_member(&mut es, "protocolVersion", Json::from_str(PROTOCOL_VERSION));
        push_member(&mut es, "capabilities", Json::Object(caps));
        push_member(&mut es, "clientInfo", identity_json(self.name.as_str(), self.version.as_str()));
        let r = self.issue("initialize", Some(Json::Object(es)), waiter);
        if r.is_ok() {
            self.state = ServerState::Initializing;
        }
        r
    }

    /// Takes the answer to `initialize`: an error response fails the handshake; a result
    /// makes the client `Ready` and yields it with the `initialized` notification to send.
    pub fn on_initialize_response(&mut self, response: JsonRpcMessage) -> (r: Result<(Json, JsonRpcMessage), String>)
        ensures
            old(self).state != ServerState::Initializing ==> r is Err && *final(self) == *old(self),
            r is Err ==> *final(self) == *old(self),
            r matches Ok(x) ==> (response matches JsonRpcMessage::Response {
                result: Some(res),
                error: None,
                ..
            } && x.0 == res && is_notification(x.1, "notifications/initialized"@, None)
                && *final(self) == (Client { state: ServerState::Ready, ..*old(self) })),
            r is Ok ==> old(self).state == ServerState::Initializing,
            old(self).state == ServerState::Initializing && is_result_response(response) ==> r is Ok,
    {
        if self.state != ServerState::Initializing {
            return Err("Client is not initializing".to_owned());
        }
        match response {
            JsonRpcMessage::Response { result: Some(res), error: None, .. } => {
                self.state = ServerState::Ready;
                Ok((res, JsonRpcMessage::notification("notifications/initialized", None)))
            },
            JsonRpcMessage::Response { error: Some(e), .. } => {
                Err(concat("Initialize error: ", e.message.as_str()))
            },
            _ => Err("Invalid initialize response".to_owned()),
        }
    }

    /// A request to the server; refused unless the client is `Ready`.
    pub fn request(&mut self, method: &str, params: Option<Json>, waiter: u64) -> (r: Result<JsonRpcMessage, String>)
        requires
            old(self).wf(),
        ensures
            final(self).wf(),
            old(self).state != ServerState::Ready ==> r is Err && *final(self) == *old(self),
            old(self).state == ServerState::Ready && can_issue(*old(self)) ==> r is Ok,
            final(self).state == old(self).state,
            r matches Ok(m) ==> (m matches JsonRpcMessage::Request { id: Json::Int(n), method: x, params: p, .. }
                && x@ == method@ && p == params && final(self).pending.is_pending(decimal_text(n as int))
                && final(self).pending.waiter(decimal_text(n as int)) == waiter),
    {
        if self.state != ServerState::Ready {
            return Err("Client not initialized".to_owned());
        }
        self.issue(method, params, waiter)
    }

    /// Records that the host registered a sampling callback; refused when the client does
    /// not advertise sampling.
    pub fn register_sampling_callback(&mut self) -> (r: Result<(), String>)
        ensures
            r is Ok <==> old(self).sampling_enabled,
            r is Ok ==> *final(self) == (Client { sampling_callback: true, ..*old(self) }),
            r is Err ==> *final(self) == *old(self),
    {
        if !self.sampling_enabled {
            return Err("Sampling is not enabled".to_owned());
        }
        self.sampling_callback = true;
        Ok(())
    }

    /// Handles one inbound message.
    ///
    /// A response settles the request it answers (an orphan is dropped). A
    /// `sampling/createMessage` request is refused with -32004 when sampling is not
    /// advertised, -32005 without a callback, and -32602 without parameters; otherwise the
    /// callback is to run. Other requests are unknown methods.
    pub fn handle_message(&mut self, message: JsonRpcMessage) -> (r: ClientAction)
        requires
            old(self).wf(),
        ensures
            final(self).wf(),
            final(self).state == old(self).state,
            message matches JsonRpcMessage::Request { id, method, params, .. } ==> (
                *final(self) == *old(self) && if method@ == "sampling/createMessage"@ {
                    if !old(self).sampling_enabled {
                        client_replies_error(r, id, SAMPLING_NOT_ENABLED)
                    } else if !old(self).sampling_callback {
                        client_replies_error(r, id, SAMPLING_NO_CALLBACK)
                    } else if params is None {
                        client_replies_error(r, id, INVALID_PARAMS)
                    } else {
                        r == ClientAction::InvokeSampling { id, params: params->Some_0 }
                    }
                } else {
                    client_replies_error(r, id, METHOD_NOT_FOUND)
                }),
            message matches JsonRpcMessage::Response { id, .. } ==> (match id_key(id) {
                Some(k) => (old(self).pending.is_pending(k) ==> (r matches ClientAction::Deliver { waiter, message: m }
                    && waiter == old(self).pending.waiter(k) && m == message && !final(self).pending.is_pending(k)
                    && (forall|x: Seq<char>| x != k ==> final(self).pending.is_pending(x) == old(self).pending.is_pending(x))))
                    && (!old(self).pending.is_pending(k) ==> r is Nothing && *final(self) == *old(self)),
                None => r is Nothing && *final(self) == *old(self),
            }),
            message is Response ==> *final(self) == (Client { pending: final(self).pending, ..*old(self) }),
            message is Notification ==> r is Nothing && *final(self) == *old(self),
    {
        match message {
            JsonRpcMessage::Response { id, result, error, jsonrpc } => {
                match request_id_key(&id) {
                    Some(key) => match self.pending.resolve(key.as_str()) {
                        Some(waiter) => ClientAction::Deliver {
                            waiter,
                            message: JsonRpcMessage::Response { id, result, error, jsonrpc },
                        },
                        None => ClientAction::Nothing,
                    },
                    None => ClientAction::Nothing,
                }
            },
            JsonRpcMessage::Notification { .. } => ClientAction::Nothing,
            JsonRpcMessage::Request { id, method, params, .. } => {
                if str_eq(method.as_str(), "sampling/createMessage") {
                    if !self.sampling_enabled {
                        return ClientAction::Reply(
                            JsonRpcMessage::error(id, SAMPLING_NOT_ENABLED, "Sampling is not enabled", None),
                        );
                    }
                    if !self.sampling_callback {
                        return ClientAction::Reply(
                            JsonRpcMessage::error(id, SAMPLING_NO_CALLBACK, "No sampling callback registered", None),
                        );
                    }
                    let params = match params {
                        Some(p) => p,
                        None => return ClientAction::Reply(
                            JsonRpcMessage::error(id, INVALID_PARAMS, "Missing sampling parameters", None),
                        ),
                    };
                    ClientAction::InvokeSampling { id, params }
                } else {
                    let m = concat("Method not found: ", method.as_str());
                    ClientAction::Reply(JsonRpcMessage::error(id, METHOD_NOT_FOUND, m.as_str(), None))
                }
            },
        }
    }

    /// The reply to `sampling/createMessage` once the callback has run: its result, or a
    /// sampling error carrying the callback's message.
    pub fn sampling_reply(id: Json, outcome: Result<CreateMessageResult, String>) -> (r: JsonRpcMessage)
        ensures
            outcome matches Ok(res) ==> (success_result(r, id) matches Some(j) && encodes_create_message_result(res, j)),
            outcome matches Err(m) ==> (is_error_response(r, id, SAMPLING_ERROR) && error_message(r)
                == Some("Sampling error: "@ + m@)),
    {
        match outcome {
            Ok(res) => JsonRpcMessage::response(id, res.into_json()),
            Err(m) => {
                let text = concat("Sampling error: ", m.as_str());
                JsonRpcMessage::error(id, SAMPLING_ERROR, text.as_str(), None)
            },
        }
    }

    /// Ends the session in whatever phase it is, as when the transport closes: the client
    /// moves to `ShuttingDown` and every outstanding request is cancelled, its waiter handed
    /// back.
    pub fn close(&mut self) -> (r: Vec<u64>)
        requires
            old(self).wf(),
        ensures
            final(self).wf(),
            final(self).state == ServerState::ShuttingDown,
            r@ == old(self).pending.waiters(),
            forall|k: Seq<char>| !final(self).pending.is_pending(k),
    {
        self.state = ServerState::ShuttingDown;
        self.pending.cancel_all()
    }

    /// Ends a `Ready` session, cancelling every outstanding request and handing back their
    /// waiters.
    pub fn shutdown(&mut self) -> (r: Result<Vec<u64>, String>)
        requires
            old(self).wf(),
        ensures
            final(self).wf(),
            old(self).state != ServerState::Ready ==> r is Err && *final(self) == *old(self),
            old(self).state == ServerState::Ready ==> r is Ok,
            r matches Ok(ws) ==> ws@ == old(self).pending.waiters() && final(self).state
                == ServerState::ShuttingDown && forall|k: Seq<char>| !final(self).pending.is_pending(k),
    {
        if self.state != ServerState::Ready {
            return Err("Client not initialized".to_owned());
        }
        self.state = ServerState::ShuttingDown;
        Ok(self.pending.cancel_all())
    }
}

} // verus!
