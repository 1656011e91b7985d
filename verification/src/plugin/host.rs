//! Plugin worker host: what is said between the host and its workers, and
//! what the host decides about them.
//!
//! A worker is the executable named by the manifest's `[runtime]` section.
//! The wire format is one JSON-RPC 2.0 object per line:
//!
//! - host -> worker requests: contributed actions, commands, status batches;
//! - worker -> host requests: the capability-gated host API below;
//! - host -> worker notifications: subscribed bus events (`events.event`).
//!
//! Every worker-initiated call passes through [`authorize`]: a method whose
//! capability was not granted is refused. Pushes of UI state need none; they
//! are held to what the plugin's manifest declares. Workers are expected to
//! exit on stdin EOF; the host kills them on shutdown and respawns crashed
//! workers within a small per-process budget.
//!
//! Processes, pipes and threads belong to the caller. This module takes what
//! they bring (a line, a timeout, an event) and says what comes next.

use vstd::prelude::*;

use crate::json;
use crate::json::Json;
use crate::json::JsonModel;
use crate::json::JsonNumber;
use crate::json::NumberModel;
use crate::json::parse_json;
use crate::json::render_json;
use crate::json::same_json;
use crate::lists;
use crate::name_map::NameMap;
use crate::plugin::payload;
use crate::plugin::payload::read_payload;
use crate::plugin::payload::read_severity;
use crate::plugin::payload::read_text;
use crate::plugin::registry;
use crate::plugin::registry::LoadedPlugin;
use crate::plugin::registry::PluginRegistry;
use crate::plugin::ui;
use crate::plugin::ui::EntryModel;
use crate::plugin::ui::PayloadModel;
use crate::plugin::ui::Severity;
use crate::plugin::ui::StoreModel;
use crate::plugin::ui::UiPayload;
use crate::plugin_api::capability;
use crate::plugin_api::capability::Capability;
use crate::text;
use crate::text::concat2;
use crate::text::concat3;
use crate::text::copy_texts;
use crate::text::debug_of;
use crate::text::has_prefix;
use crate::text::same_text;

verus! {

/// A JSON-RPC request.
pub open spec fn request_message(id: u64, method: Seq<char>, params: JsonModel) -> JsonModel {
    JsonModel::Object(
        map![
            "jsonrpc"@ => JsonModel::Text("2.0"@),
            "id"@ => JsonModel::Number(NumberModel::Unsigned(id)),
            "method"@ => JsonModel::Text(method),
            "params"@ => params,
        ],
    )
}

/// A JSON-RPC answer.
pub open spec fn result_message(id: u64, result: JsonModel) -> JsonModel {
    JsonModel::Object(
        map![
            "jsonrpc"@ => JsonModel::Text("2.0"@),
            "id"@ => JsonModel::Number(NumberModel::Unsigned(id)),
            "result"@ => result,
        ],
    )
}

/// A JSON-RPC refusal.
pub open spec fn error_message(id: u64, code: i64, message: Seq<char>) -> JsonModel {
    JsonModel::Object(
        map![
            "jsonrpc"@ => JsonModel::Text("2.0"@),
            "id"@ => JsonModel::Number(NumberModel::Unsigned(id)),
            "error"@ => JsonModel::Object(
                map![
                    "code"@ => JsonModel::Number(json::whole_number(code as int)),
                    "message"@ => JsonModel::Text(message),
                ],
            ),
        ],
    )
}

/// The message that answers a request with an outcome.
pub open spec fn reply_message(
    id: u64,
    code: i64,
    outcome: Result<JsonModel, Seq<char>>,
) -> JsonModel {
    match outcome {
        Ok(result) => result_message(id, result),
        Err(message) => error_message(id, code, message),
    }
}

/// What contracts say of a JSON outcome.
pub open spec fn outcome_model(outcome: Result<Json, String>) -> Result<JsonModel, Seq<char>> {
    match outcome {
        Ok(value) => Ok(value@),
        Err(message) => Err(message@),
    }
}

/// A message wraps its parameters or its result in at most two levels.
pub proof fn messages_add_few_levels(
    id: u64,
    method: Seq<char>,
    value: JsonModel,
    code: i64,
    message: Seq<char>,
    levels: nat,
)
    requires
        json::nests_within(value, levels),
    ensures
        json::nests_within(request_message(id, method, value), levels + 1),
        json::nests_within(result_message(id, value), levels + 1),
        json::nests_within(error_message(id, code, message), 2),
{
    reveal_with_fuel(json::nests_within, 3);
}

/// The line of a request. It holds no line feed, and it is read back as the
/// request unless the parameters nest too deep for the parser.
pub fn request_line(id: u64, method: &str, params: Json) -> (r: String)
    ensures
        r@ == json::text_of_json(request_message(id, method@, params@)),
        !r@.contains('\n'),
        json::nests_within(params@, (json::MAX_NESTING - 1) as nat) ==> json::json_of_text(r@)
            == Some(request_message(id, method@, params@)),
{
    let ghost given = params@;
    let message = Json::empty_object().with("jsonrpc", Json::text("2.0")).with(
        "id",
        Json::unsigned(id),
    ).with("method", Json::text(method)).with("params", params);
    proof {
        if json::nests_within(given, (json::MAX_NESTING - 1) as nat) {
            messages_add_few_levels(
                id,
                method@,
                given,
                0,
                seq![],
                (json::MAX_NESTING - 1) as nat,
            );
        }
    }
    render_json(&message)
}

/// The answer to a request.
fn reply(id: u64, code: i64, outcome: Result<Json, String>) -> (r: Json)
    ensures
        r@ == reply_message(id, code, outcome_model(outcome)),
{
    let head = Json::empty_object().with("jsonrpc", Json::text("2.0")).with(
        "id",
        Json::unsigned(id),
    );
    match outcome {
        Ok(result) => head.with("result", result),
        Err(message) => {
            let error = Json::empty_object().with(
                "code",
                Json::Number(JsonNumber::Signed(code)),
            ).with("message", Json::Text(message));
            head.with("error", error)
        },
    }
}

/// The line of an answer. It holds no line feed, and it is read back as the
/// answer unless the result nests too deep for the parser.
pub fn reply_line(id: u64, code: i64, outcome: Result<Json, String>) -> (r: String)
    ensures
        r@ == json::text_of_json(reply_message(id, code, outcome_model(outcome))),
        !r@.contains('\n'),
        (outcome matches Ok(value) ==> json::nests_within(
            value@,
            (json::MAX_NESTING - 1) as nat,
        )) ==> json::json_of_text(r@) == Some(reply_message(id, code, outcome_model(outcome))),
{
    let ghost model = outcome_model(outcome);
    proof {
        let levels = (json::MAX_NESTING - 1) as nat;
        match model {
            Ok(value) => {
                if json::nests_within(value, levels) {
                    messages_add_few_levels(id, seq![], value, 0, seq![], levels);
                }
            },
            Err(message) => {
                reveal_with_fuel(json::nests_within, 3);
                assert(json::nests_within(
                    error_message(id, code, message),
                    json::MAX_NESTING as nat,
                ));
            },
        }
    }
    render_json(&reply(id, code, outcome))
}

/// Whether a method pushes UI state. Such a push needs no capability: it is
/// held to the contributions that the plugin's manifest declares, which the
/// user approved.
pub open spec fn pushes_ui(method: Seq<char>) -> bool {
    method == "ui.state.set"@ || method == "ui.state.remove"@ || method == "ui.notify"@
}

/// The capability that a host method needs, or `None` of a method that needs
/// none or is unknown.
pub open spec fn needed_capability(method: Seq<char>) -> Option<Capability> {
    if method == "events.publish"@ {
        Some(Capability::EventsPublish)
    } else if method == "events.subscribe"@ {
        Some(Capability::EventsSubscribe)
    } else if method == "sessions.list"@ || method == "session.meta.get"@ {
        Some(Capability::SessionsRead)
    } else if method == "session.meta.set"@ || method == "session.meta.cas"@ {
        Some(Capability::SessionsMetaWrite)
    } else {
        None
    }
}

/// Why a plugin may not call a host method, or `None` where it may.
pub open spec fn authorize_problem(
    plugin_id: Seq<char>,
    granted: Seq<Capability>,
    method: Seq<char>,
) -> Option<Seq<char>> {
    match needed_capability(method) {
        None => if pushes_ui(method) {
            None
        } else {
            Some("unknown host method "@ + text::debug_text(method))
        },
        Some(needed) => if granted.contains(needed) {
            None
        } else {
            Some(
                "plugin "@ + plugin_id + (" called "@ + method + (" without the "@
                    + capability::capability_name(needed) + " capability"@)),
            )
        },
    }
}

fn holds_capability(granted: &Vec<Capability>, needed: Capability) -> (r: bool)
    ensures
        r == granted@.contains(needed),
{
    let mut i: usize = 0;
    while i < granted.len()
        invariant
            i <= granted.len(),
            forall|j: int| 0 <= j < i ==> granted@[j] != needed,
        decreases granted.len() - i,
    {
        if granted[i] == needed {
            assert(granted@[i as int] == needed);
            return true;
        }
        i += 1;
    }
    false
}

fn is_ui_push(method: &str) -> (r: bool)
    ensures
        r == pushes_ui(method@),
{
    same_text(method, "ui.state.set") || same_text(method, "ui.state.remove") || same_text(
        method,
        "ui.notify",
    )
}

fn capability_for(method: &str) -> (r: Option<Capability>)
    ensures
        r == needed_capability(method@),
{
    if same_text(method, "events.publish") {
        Some(Capability::EventsPublish)
    } else if same_text(method, "events.subscribe") {
        Some(Capability::EventsSubscribe)
    } else if same_text(method, "sessions.list") || same_text(method, "session.meta.get") {
        Some(Capability::SessionsRead)
    } else if same_text(method, "session.meta.set") || same_text(method, "session.meta.cas") {
        Some(Capability::SessionsMetaWrite)
    } else {
        None
    }
}

/// The single authorization gate: every worker-initiated method that reaches
/// beyond the plugin's own declared contributions maps to a capability, and an
/// ungranted capability is a refusal, not a no-op.
pub fn authorize(plugin_id: &str, granted: &Vec<Capability>, method: &str) -> (r: Result<
    (),
    String,
>)
    ensures
        text::refusal(r) == authorize_problem(plugin_id@, granted@, method@),
{
    match capability_for(method) {
        None => if is_ui_push(method) {
            Ok(())
        } else {
            Err(concat2("unknown host method ", debug_of(method).as_str()))
        },
        Some(needed) => if holds_capability(granted, needed) {
            Ok(())
        } else {
            let lack = concat3(" without the ", needed.as_str(), " capability");
            let call = concat3(" called ", method, lack.as_str());
            Err(concat3("plugin ", plugin_id, call.as_str()))
        },
    }
}

/// What a worker asks of the host, checked and ready to be done.
#[derive(Debug)]
pub enum HostRequest {
    /// Publish on the event bus; the answer is [`published`].
    Publish { topic: String, payload: Json },
    /// Forward events; the answer is [`subscribed`].
    Subscribe { topics: Vec<String>, after_seq: Option<u64> },
    /// List the sessions; the answer is the list.
    ListSessions,
    /// Read the plugin's own part of a session; see [`meta_get`].
    GetMeta { session_id: String },
    /// Write the plugin's own part of a session; see [`set_meta`].
    SetMeta { session_id: String, expected: Option<Json>, value: Json },
    /// Show a payload for a contribution of the plugin; see
    /// [`ui::set_state`]. The answer is [`accepted`].
    SetUiState {
        contribution_id: String,
        session_id: Option<String>,
        ttl_ms: Option<u64>,
        payload: UiPayload,
    },
    /// Take back what a contribution of the plugin shows; see
    /// [`ui::remove_state`]. The answer is [`accepted`].
    RemoveUiState { contribution_id: String, session_id: Option<String> },
    /// Append a notification of the plugin; see [`ui::notify`]. The answer is
    /// [`accepted`].
    Notify { title: String, body: String, severity: Severity, session_id: Option<String> },
}

/// What contracts say of a request.
pub enum RequestModel {
    Publish { topic: Seq<char>, payload: JsonModel },
    Subscribe { topics: Seq<Seq<char>>, after_seq: Option<u64> },
    ListSessions,
    GetMeta { session_id: Seq<char> },
    SetMeta { session_id: Seq<char>, expected: Option<JsonModel>, value: JsonModel },
    SetUiState {
        contribution_id: Seq<char>,
        session_id: Option<Seq<char>>,
        ttl_ms: Option<u64>,
        payload: PayloadModel,
    },
    RemoveUiState { contribution_id: Seq<char>, session_id: Option<Seq<char>> },
    Notify {
        title: Seq<char>,
        body: Seq<char>,
        severity: Severity,
        session_id: Option<Seq<char>>,
    },
}

/// The model of an optional value.
pub open spec fn optional_json(value: Option<Json>) -> Option<JsonModel> {
    match value {
        Some(value) => Some(value@),
        None => None,
    }
}

impl View for HostRequest {
    type V = RequestModel;

    open spec fn view(&self) -> RequestModel {
        match *self {
            HostRequest::Publish { topic, payload } => RequestModel::Publish {
                topic: topic@,
                payload: payload@,
            },
            HostRequest::Subscribe { topics, after_seq } => RequestModel::Subscribe {
                topics: text::texts(topics@),
                after_seq,
            },
            HostRequest::ListSessions => RequestModel::ListSessions,
            HostRequest::GetMeta { session_id } => RequestModel::GetMeta {
                session_id: session_id@,
            },
            HostRequest::SetMeta { session_id, expected, value } => RequestModel::SetMeta {
                session_id: session_id@,
                expected: optional_json(expected),
                value: value@,
            },
            HostRequest::SetUiState { contribution_id, session_id, ttl_ms, payload } => {
                RequestModel::SetUiState {
                    contribution_id: contribution_id@,
                    session_id: text::optional_text(session_id),
                    ttl_ms,
                    payload: payload@,
                }
            },
            HostRequest::RemoveUiState { contribution_id, session_id } => {
                RequestModel::RemoveUiState {
                    contribution_id: contribution_id@,
                    session_id: text::optional_text(session_id),
                }
            },
            HostRequest::Notify { title, body, severity, session_id } => RequestModel::Notify {
                title: title@,
                body: body@,
                severity,
                session_id: text::optional_text(session_id),
            },
        }
    }
}

/// What contracts say of a checked request.
pub open spec fn request_outcome(r: Result<HostRequest, String>) -> Result<
    RequestModel,
    Seq<char>,
> {
    match r {
        Ok(request) => Ok(request@),
        Err(message) => Err(message@),
    }
}

/// The list of strings in the field `topics`.
pub open spec fn topic_list(params: JsonModel) -> Option<Seq<Seq<char>>> {
    match json::field(params, "topics"@) {
        Some(topics) => json::as_texts(topics),
        None => None,
    }
}

/// The prefix of the topics that a plugin may publish under.
pub open spec fn own_prefix(plugin_id: Seq<char>) -> Seq<char> {
    "plugin."@ + plugin_id + "."@
}

/// Why a string parameter is refused that is not there.
pub open spec fn missing_param(key: Seq<char>) -> Seq<char> {
    "missing string param "@ + text::debug_text(key)
}

/// What a push of UI state asks for, or why its parameters are refused.
pub open spec fn ui_request(method: Seq<char>, params: JsonModel) -> Result<
    RequestModel,
    Seq<char>,
> {
    let contribution = json::text_field(params, "contribution_id"@);
    let session_id = json::text_field(params, "session_id"@);
    if method == "ui.notify"@ {
        let title = json::text_field(params, "title"@);
        if title is None {
            Err(missing_param("title"@))
        } else {
            let body = payload::text_given(json::field(params, "body"@));
            let severity = payload::severity_given(json::field(params, "severity"@));
            match (body, severity) {
                (None, _) => Err("ui.notify body must be a string"@),
                (_, None) => Err("ui.notify severity must be info, success, warning or error"@),
                (Some(body), Some(severity)) => Ok(
                    RequestModel::Notify { title: title->0, body, severity, session_id },
                ),
            }
        }
    } else if contribution is None {
        Err(missing_param("contribution_id"@))
    } else if method == "ui.state.remove"@ {
        Ok(RequestModel::RemoveUiState { contribution_id: contribution->0, session_id })
    } else {
        match payload::payload_of(json::field_or_null(params, "payload"@)) {
            Some(payload) => Ok(
                RequestModel::SetUiState {
                    contribution_id: contribution->0,
                    session_id,
                    ttl_ms: json::u64_field(params, "ttl_ms"@),
                    payload,
                },
            ),
            None => Err("ui.state.set needs a valid payload"@),
        }
    }
}

/// What an authorized call asks for, or why its parameters are refused.
pub open spec fn parsed_request(
    plugin_id: Seq<char>,
    method: Seq<char>,
    params: JsonModel,
) -> Result<RequestModel, Seq<char>> {
    let session = json::text_field(params, "session_id"@);
    let value = json::field(params, "value"@);
    if pushes_ui(method) {
        ui_request(method, params)
    } else if method == "events.publish"@ {
        match json::text_field(params, "topic"@) {
            None => Err("events.publish needs a topic"@),
            Some(topic) => if own_prefix(plugin_id).is_prefix_of(topic) {
                Ok(
                    RequestModel::Publish {
                        topic,
                        payload: json::field_or_null(params, "payload"@),
                    },
                )
            } else {
                Err(
                    "plugin "@ + plugin_id + (" may only publish under "@ + own_prefix(plugin_id)
                        + "*"@),
                )
            },
        }
    } else if method == "events.subscribe"@ {
        match topic_list(params) {
            None => Err("events.subscribe needs topics: [string]"@),
            Some(topics) => Ok(
                RequestModel::Subscribe {
                    topics,
                    after_seq: json::u64_field(params, "after_seq"@),
                },
            ),
        }
    } else if method == "sessions.list"@ {
        Ok(RequestModel::ListSessions)
    } else if session is None {
        Err(missing_param("session_id"@))
    } else if method == "session.meta.get"@ {
        Ok(RequestModel::GetMeta { session_id: session->0 })
    } else if value is None {
        Err(method + " needs a value"@)
    } else {
        Ok(
            RequestModel::SetMeta {
                session_id: session->0,
                expected: if method == "session.meta.cas"@ {
                    Some(json::field_or_null(params, "expected"@))
                } else {
                    None
                },
                value: value->0,
            },
        )
    }
}

/// What a worker's call asks for, or why it is refused.
pub open spec fn host_request(
    plugin_id: Seq<char>,
    granted: Seq<Capability>,
    method: Seq<char>,
    params: JsonModel,
) -> Result<RequestModel, Seq<char>> {
    match authorize_problem(plugin_id, granted, method) {
        Some(problem) => Err(problem),
        None => parsed_request(plugin_id, method, params),
    }
}

fn required_str(params: &Json, key: &str) -> (r: Result<String, String>)
    ensures
        match r {
            Ok(s) => json::text_field(params@, key@) == Some(s@),
            Err(message) => json::text_field(params@, key@) is None && message@ == missing_param(
                key@,
            ),
        },
{
    match params.text_at(key) {
        Some(s) => Ok(s),
        None => Err(concat2("missing string param ", debug_of(key).as_str())),
    }
}

fn read_ui_request(method: &str, params: &Json) -> (r: Result<HostRequest, String>)
    ensures
        request_outcome(r) == ui_request(method@, params@),
{
    let session_id = params.text_at("session_id");
    if same_text(method, "ui.notify") {
        let title = required_str(params, "title")?;
        let body = match read_text(params.get("body")) {
            Some(body) => body,
            None => {
                return Err("ui.notify body must be a string".to_owned());
            },
        };
        return match read_severity(params.get("severity")) {
            Some(severity) => Ok(HostRequest::Notify { title, body, severity, session_id }),
            None => Err("ui.notify severity must be info, success, warning or error".to_owned()),
        };
    }
    let contribution_id = required_str(params, "contribution_id")?;
    if same_text(method, "ui.state.remove") {
        return Ok(HostRequest::RemoveUiState { contribution_id, session_id });
    }
    match read_payload(&params.at_or_null("payload")) {
        Some(payload) => Ok(
            HostRequest::SetUiState {
                contribution_id,
                session_id,
                ttl_ms: params.u64_at("ttl_ms"),
                payload,
            },
        ),
        None => Err("ui.state.set needs a valid payload".to_owned()),
    }
}

/// Check a worker's call and say what it asks for.
pub fn handle_host_call(
    plugin_id: &str,
    granted: &Vec<Capability>,
    method: &str,
    params: &Json,
) -> (r: Result<HostRequest, String>)
    ensures
        request_outcome(r) == host_request(plugin_id@, granted@, method@, params@),
{
    authorize(plugin_id, granted, method)?;
    if is_ui_push(method) {
        return read_ui_request(method, params);
    }
    if same_text(method, "events.publish") {
        let topic = match params.text_at("topic") {
            Some(topic) => topic,
            None => {
                return Err("events.publish needs a topic".to_owned());
            },
        };
        let prefix = concat3("plugin.", plugin_id, ".");
        if !has_prefix(topic.as_str(), prefix.as_str()) {
            let rule = concat3(" may only publish under ", prefix.as_str(), "*");
            return Err(concat3("plugin ", plugin_id, rule.as_str()));
        }
        return Ok(HostRequest::Publish { topic, payload: params.at_or_null("payload") });
    }
    if same_text(method, "events.subscribe") {
        let topics = match params.get("topics") {
            Some(value) => value.as_texts(),
            None => None,
        };
        return match topics {
            Some(topics) => Ok(
                HostRequest::Subscribe { topics, after_seq: params.u64_at("after_seq") },
            ),
            None => Err("events.subscribe needs topics: [string]".to_owned()),
        };
    }
    if same_text(method, "sessions.list") {
        return Ok(HostRequest::ListSessions);
    }
    let session_id = required_str(params, "session_id")?;
    if same_text(method, "session.meta.get") {
        return Ok(HostRequest::GetMeta { session_id });
    }
    let cas = same_text(method, "session.meta.cas");
    let expected = if cas {
        Some(params.at_or_null("expected"))
    } else {
        None
    };
    match params.get("value") {
        Some(value) => Ok(HostRequest::SetMeta { session_id, expected, value: value.clone() }),
        None => Err(concat2(method, " needs a value")),
    }
}

/// The answer to a publish.
pub fn published(seq: u64) -> (r: Json)
    ensures
        r@ == JsonModel::Object(map!["seq"@ => JsonModel::Number(NumberModel::Unsigned(seq))]),
{
    Json::empty_object().with("seq", Json::unsigned(seq))
}

/// The answer to a subscription.
pub fn subscribed() -> (r: Json)
    ensures
        r@ == JsonModel::Object(map!["subscribed"@ => JsonModel::Bool(true)]),
{
    Json::empty_object().with("subscribed", Json::Bool(true))
}

/// The answer to a push of UI state.
pub fn accepted() -> (r: Json)
    ensures
        r@ == JsonModel::Object(map!["accepted"@ => JsonModel::Bool(true)]),
{
    Json::empty_object().with("accepted", Json::Bool(true))
}

/// A session as far as plugins may write it: each plugin has a value of its
/// own.
#[derive(Debug)]
pub struct SessionRecord {
    pub id: String,
    pub plugin_meta: NameMap<Json>,
}

/// What contracts say of a session.
pub struct SessionModel {
    pub id: Seq<char>,
    pub plugin_meta: Map<Seq<char>, JsonModel>,
}

/// The models of named values.
pub open spec fn meta_models(meta: Map<Seq<char>, Json>) -> Map<Seq<char>, JsonModel> {
    meta.map_values(|value: Json| value@)
}

impl View for SessionRecord {
    type V = SessionModel;

    open spec fn view(&self) -> SessionModel {
        SessionModel { id: self.id@, plugin_meta: meta_models(self.plugin_meta@) }
    }
}

/// The models of a list of sessions.
pub open spec fn session_models(sessions: Seq<SessionRecord>) -> Seq<SessionModel> {
    sessions.map_values(|s: SessionRecord| s@)
}

/// The place of the first session with this id, or the length.
pub open spec fn session_place(sessions: Seq<SessionModel>, id: Seq<char>) -> nat
    decreases sessions.len(),
{
    if sessions.len() == 0 || sessions[0].id == id {
        0
    } else {
        1 + session_place(sessions.drop_first(), id)
    }
}

/// Why a session is refused that is not there.
pub open spec fn unknown_session(id: Seq<char>) -> Seq<char> {
    "unknown session "@ + id
}

/// A plugin's value in a session, null where it has none.
pub open spec fn meta_of(session: SessionModel, plugin_id: Seq<char>) -> JsonModel {
    if session.plugin_meta.contains_key(plugin_id) {
        session.plugin_meta[plugin_id]
    } else {
        JsonModel::Null
    }
}

/// A session with a plugin's value set; null takes it out.
pub open spec fn with_meta(
    session: SessionModel,
    plugin_id: Seq<char>,
    value: JsonModel,
) -> SessionModel {
    SessionModel {
        plugin_meta: if value is Null {
            session.plugin_meta.remove(plugin_id)
        } else {
            session.plugin_meta.insert(plugin_id, value)
        },
        ..session
    }
}

fn find_session(sessions: &Vec<SessionRecord>, id: &str) -> (r: usize)
    ensures
        r == session_place(session_models(sessions@), id@),
        r <= sessions.len(),
{
    let ghost all = session_models(sessions@);
    let mut i: usize = 0;
    assert(all.skip(0) =~= all);
    while i < sessions.len() && !same_text(sessions[i].id.as_str(), id)
        invariant
            i <= sessions.len(),
            all == session_models(sessions@),
            session_place(all, id@) == i + session_place(all.skip(i as int), id@),
        decreases sessions.len() - i,
    {
        assert(all.skip(i as int).drop_first() =~= all.skip(i + 1));
        i += 1;
    }
    i
}

fn current_meta(session: &SessionRecord, plugin_id: &str) -> (r: Json)
    ensures
        r@ == meta_of(session@, plugin_id@),
{
    match session.plugin_meta.get(plugin_id) {
        Some(value) => value.clone(),
        None => Json::Null,
    }
}

/// A plugin's value in a session, or why there is none to read.
pub open spec fn read_meta(
    sessions: Seq<SessionModel>,
    plugin_id: Seq<char>,
    session_id: Seq<char>,
) -> Result<JsonModel, Seq<char>> {
    let at = session_place(sessions, session_id);
    if at < sessions.len() {
        Ok(meta_of(sessions[at as int], plugin_id))
    } else {
        Err(unknown_session(session_id))
    }
}

/// Read the plugin's namespace in a session's `plugin_meta`.
pub fn meta_get(sessions: &Vec<SessionRecord>, plugin_id: &str, session_id: &str) -> (r: Result<
    Json,
    String,
>)
    ensures
        outcome_model(r) == read_meta(session_models(sessions@), plugin_id@, session_id@),
{
    let at = find_session(sessions, session_id);
    if at < sessions.len() {
        Ok(current_meta(&sessions[at], plugin_id))
    } else {
        Err(concat2("unknown session ", session_id))
    }
}

/// How a write of a plugin's value ended.
#[derive(Debug)]
pub struct MetaWriteOutcome {
    pub swapped: bool,
    pub current: Json,
}

/// What contracts say of a write.
pub struct MetaWriteModel {
    pub swapped: bool,
    pub current: JsonModel,
}

impl View for MetaWriteOutcome {
    type V = MetaWriteModel;

    open spec fn view(&self) -> MetaWriteModel {
        MetaWriteModel { swapped: self.swapped, current: self.current@ }
    }
}

impl MetaWriteOutcome {
    /// The answer to the write.
    pub fn to_json(self) -> (r: Json)
        ensures
            r@ == JsonModel::Object(
                map![
                    "swapped"@ => JsonModel::Bool(self.swapped),
                    "current"@ => self.current@,
                ],
            ),
    {
        Json::empty_object().with("swapped", Json::Bool(self.swapped)).with(
            "current",
            self.current,
        )
    }
}

/// How a write ends and what it leaves: a session that is not there is
/// refused, an expectation that does not hold keeps the sessions as they are.
pub open spec fn meta_write(
    sessions: Seq<SessionModel>,
    plugin_id: Seq<char>,
    session_id: Seq<char>,
    expected: Option<JsonModel>,
    value: JsonModel,
) -> (Seq<SessionModel>, Result<MetaWriteModel, Seq<char>>) {
    let at = session_place(sessions, session_id);
    if at >= sessions.len() {
        (sessions, Err(unknown_session(session_id)))
    } else {
        let session = sessions[at as int];
        let current = meta_of(session, plugin_id);
        if expected is Some && !json::json_eq(current, expected->0) {
            (sessions, Ok(MetaWriteModel { swapped: false, current }))
        } else {
            (
                sessions.update(at as int, with_meta(session, plugin_id, value)),
                Ok(MetaWriteModel { swapped: true, current: value }),
            )
        }
    }
}

/// What contracts say of how a write ended.
pub open spec fn write_outcome(r: Result<MetaWriteOutcome, String>) -> Result<
    MetaWriteModel,
    Seq<char>,
> {
    match r {
        Ok(outcome) => Ok(outcome@),
        Err(message) => Err(message@),
    }
}

/// Write the plugin's namespace in a session's `plugin_meta`, optionally
/// compare-and-swap. A write that swapped is to be published as
/// [`SESSION_META_CHANGED`] with [`meta_changed`].
pub fn set_meta(
    sessions: &mut Vec<SessionRecord>,
    plugin_id: &str,
    session_id: &str,
    expected: Option<Json>,
    value: Json,
) -> (r: Result<MetaWriteOutcome, String>)
    ensures
        (session_models(final(sessions)@), write_outcome(r)) == meta_write(
            session_models(old(sessions)@),
            plugin_id@,
            session_id@,
            optional_json(expected),
            value@,
        ),
{
    let at = find_session(sessions, session_id);
    if at >= sessions.len() {
        return Err(concat2("unknown session ", session_id));
    }
    let ghost before = session_models(sessions@);
    let current = current_meta(&sessions[at], plugin_id);
    if let Some(expected) = &expected {
        if !same_json(&current, expected) {
            return Ok(MetaWriteOutcome { swapped: false, current });
        }
    }
    let mut session = sessions.remove(at);
    let ghost old_session = session;
    if value.is_null() {
        session.plugin_meta.remove(plugin_id);
        assert(meta_models(session.plugin_meta@) =~= meta_models(
            old_session.plugin_meta@,
        ).remove(plugin_id@));
    } else {
        session.plugin_meta.insert(plugin_id, value.clone());
        assert(meta_models(session.plugin_meta@) =~= meta_models(
            old_session.plugin_meta@,
        ).insert(plugin_id@, value@));
    }
    sessions.insert(at, session);
    assert(session_models(sessions@) =~= before.update(
        at as int,
        with_meta(before[at as int], plugin_id@, value@),
    ));
    Ok(MetaWriteOutcome { swapped: true, current: value })
}

/// The bus topic of a write to a session.
pub const SESSION_META_CHANGED: &'static str = "session.meta.changed";

/// The bus payload of a write to a session.
pub fn meta_changed(session_id: &str, plugin_id: &str) -> (r: Json)
    ensures
        r@ == JsonModel::Object(
            map![
                "session_id"@ => JsonModel::Text(session_id@),
                "plugin_id"@ => JsonModel::Text(plugin_id@),
            ],
        ),
{
    Json::empty_object().with("session_id", Json::text(session_id)).with(
        "plugin_id",
        Json::text(plugin_id),
    )
}

proof fn session_place_bounds(sessions: Seq<SessionModel>, id: Seq<char>)
    ensures
        session_place(sessions, id) <= sessions.len(),
        session_place(sessions, id) < sessions.len() ==> sessions[session_place(
            sessions,
            id,
        ) as int].id == id,
        forall|j: int| 0 <= j < session_place(sessions, id) ==> (#[trigger] sessions[j]).id != id,
    decreases sessions.len(),
{
    if sessions.len() > 0 && sessions[0].id != id {
        let tail = sessions.drop_first();
        session_place_bounds(tail, id);
        assert forall|j: int| 0 <= j < session_place(sessions, id) implies (
        #[trigger] sessions[j]).id != id by {
            if j > 0 {
                assert(sessions[j] == tail[j - 1]);
            }
        }
    }
}

proof fn session_place_is(sessions: Seq<SessionModel>, id: Seq<char>, at: int)
    requires
        0 <= at < sessions.len(),
        sessions[at].id == id,
        forall|j: int| 0 <= j < at ==> (#[trigger] sessions[j]).id != id,
    ensures
        session_place(sessions, id) == at,
    decreases sessions.len(),
{
    if at > 0 {
        assert(sessions[0].id != id);
        let tail = sessions.drop_first();
        assert forall|j: int| 0 <= j < at - 1 implies (#[trigger] tail[j]).id != id by {
            assert(sessions[j + 1].id != id);
        }
        session_place_is(tail, id, at - 1);
    }
}

/// A read after a write that swapped gives back what was written.
pub proof fn meta_reads_back(
    sessions: Seq<SessionModel>,
    plugin_id: Seq<char>,
    session_id: Seq<char>,
    expected: Option<JsonModel>,
    value: JsonModel,
)
    requires
        meta_write(sessions, plugin_id, session_id, expected, value).1 matches Ok(w) && w.swapped,
    ensures
        read_meta(
            meta_write(sessions, plugin_id, session_id, expected, value).0,
            plugin_id,
            session_id,
        ) == Ok::<JsonModel, Seq<char>>(value),
{
    session_place_bounds(sessions, session_id);
    let at = session_place(sessions, session_id) as int;
    let after = meta_write(sessions, plugin_id, session_id, expected, value).0;
    assert forall|j: int| 0 <= j < at implies (#[trigger] after[j]).id != session_id by {
        assert(sessions[j].id != session_id);
    }
    session_place_is(after, session_id, at);
}

/// A write never touches what another plugin keeps, nor another session.
pub proof fn meta_write_is_isolated(
    sessions: Seq<SessionModel>,
    plugin_id: Seq<char>,
    session_id: Seq<char>,
    expected: Option<JsonModel>,
    value: JsonModel,
)
    ensures
        ({
            let after = meta_write(sessions, plugin_id, session_id, expected, value).0;
            &&& after.len() == sessions.len()
            &&& forall|i: int|
                0 <= i < sessions.len() ==> (#[trigger] after[i]).id == sessions[i].id
            &&& forall|i: int|
                0 <= i < sessions.len() && sessions[i].id != session_id ==> #[trigger] after[i]
                    == sessions[i]
            &&& forall|i: int, other: Seq<char>|
                0 <= i < sessions.len() && other != plugin_id ==> #[trigger] meta_of(
                    after[i],
                    other,
                ) == meta_of(sessions[i], other)
        }),
{
    session_place_bounds(sessions, session_id);
}

/// A compare-and-swap writes exactly where the expectation holds, and says
/// what stands there then.
pub proof fn compare_and_swap(
    sessions: Seq<SessionModel>,
    plugin_id: Seq<char>,
    session_id: Seq<char>,
    expected: JsonModel,
    value: JsonModel,
)
    requires
        read_meta(sessions, plugin_id, session_id) is Ok,
    ensures
        ({
            let current = read_meta(sessions, plugin_id, session_id)->Ok_0;
            let (after, outcome) = meta_write(
                sessions,
                plugin_id,
                session_id,
                Some(expected),
                value,
            );
            &&& outcome is Ok
            &&& outcome->Ok_0.swapped == json::json_eq(current, expected)
            &&& !outcome->Ok_0.swapped ==> after == sessions && outcome->Ok_0.current == current
            &&& read_meta(after, plugin_id, session_id) == Ok::<JsonModel, Seq<char>>(
                outcome->Ok_0.current,
            )
        }),
{
    if json::json_eq(read_meta(sessions, plugin_id, session_id)->Ok_0, expected) {
        meta_reads_back(sessions, plugin_id, session_id, Some(expected), value);
    }
}

/// A call that reaches the host's services was granted the capability for
/// them, unless it pushes UI state.
pub proof fn ungranted_calls_are_refused(
    plugin_id: Seq<char>,
    granted: Seq<Capability>,
    method: Seq<char>,
    params: JsonModel,
)
    ensures
        host_request(plugin_id, granted, method, params) is Ok ==> pushes_ui(method) || (
        needed_capability(method) is Some && granted.contains(needed_capability(method)->0)),
{
}

/// What a worker pushes for a contribution that its plugin declares is what
/// the contribution's slot shows for it, from the next look on and until it
/// expires. No capability is asked for.
pub proof fn ui_pushes_are_shown(
    store: StoreModel,
    plugins: Seq<LoadedPlugin>,
    plugin_id: Seq<char>,
    granted: Seq<Capability>,
    params: JsonModel,
    contribution_id: Seq<char>,
    payload: PayloadModel,
    now_ms: u64,
    later_ms: u64,
    entry: EntryModel,
)
    requires
        ui::store_ok(store),
        json::text_field(params, "contribution_id"@) == Some(contribution_id),
        payload::payload_of(json::field_or_null(params, "payload"@)) == Some(payload),
        ui::push_problem(
            plugins,
            plugin_id,
            contribution_id,
            json::text_field(params, "session_id"@),
            payload,
        ) is None,
        json::u64_field(params, "ttl_ms"@) matches Some(ms) ==> later_ms < now_ms + ms,
    ensures
        ({
            let session_id = json::text_field(params, "session_id"@);
            let ttl_ms = json::u64_field(params, "ttl_ms"@);
            let row = ui::pushed_row(
                plugin_id,
                contribution_id,
                session_id,
                ttl_ms,
                payload,
                now_ms,
            );
            let c = ui::declared_contribution(plugins, plugin_id, contribution_id)->0;
            let shown = ui::slot_entries(
                ui::with_state(store, row).state,
                plugins,
                c.slot,
                session_id,
                later_ms,
            );
            &&& host_request(plugin_id, granted, "ui.state.set"@, params) == Ok::<
                RequestModel,
                Seq<char>,
            >(RequestModel::SetUiState { contribution_id, session_id, ttl_ms, payload })
            &&& shown.contains(entry) && ui::at_place(
                entry,
                plugin_id,
                contribution_id,
                session_id,
            ) <==> entry == (EntryModel {
                plugin_id,
                contribution_id,
                slot: c.slot,
                title: c.title@,
                priority: c.priority,
                session_id,
                payload,
            })
        }),
{
    let session_id = json::text_field(params, "session_id"@);
    let ttl_ms = json::u64_field(params, "ttl_ms"@);
    let row = ui::pushed_row(plugin_id, contribution_id, session_id, ttl_ms, payload, now_ms);
    ui_methods_need_no_capability();
    ui::pushed_state_is_shown(store, plugins, row, entry, later_ms);
}

proof fn ui_methods_need_no_capability()
    ensures
        needed_capability("ui.state.set"@) is None,
        needed_capability("ui.state.remove"@) is None,
        needed_capability("ui.notify"@) is None,
        "ui.state.set"@ != "ui.notify"@,
        "ui.state.set"@ != "ui.state.remove"@,
        "ui.state.remove"@ != "ui.notify"@,
{
    reveal_strlit("ui.state.set");
    reveal_strlit("ui.state.remove");
    reveal_strlit("ui.notify");
    reveal_strlit("events.publish");
    reveal_strlit("events.subscribe");
    reveal_strlit("sessions.list");
    reveal_strlit("session.meta.get");
    reveal_strlit("session.meta.set");
    reveal_strlit("session.meta.cas");
    assert("ui.state.set"@[0] == 'u' && "ui.state.remove"@[0] == 'u' && "ui.notify"@[0] == 'u');
    assert("events.publish"@[0] == 'e' && "events.subscribe"@[0] == 'e');
    assert("sessions.list"@[0] == 's' && "session.meta.get"@[0] == 's');
    assert("session.meta.set"@[0] == 's' && "session.meta.cas"@[0] == 's');
    assert("ui.state.set"@.len() == 12 && "ui.state.remove"@.len() == 15 && "ui.notify"@.len()
        == 9);
}

/// A removal that names a contribution and a notification that has a title
/// are taken as they are, whatever the plugin was granted.
pub proof fn ui_removals_and_notes_are_taken(
    plugin_id: Seq<char>,
    granted: Seq<Capability>,
    params: JsonModel,
)
    ensures
        json::text_field(params, "contribution_id"@) matches Some(contribution_id)
            ==> host_request(plugin_id, granted, "ui.state.remove"@, params) == Ok::<
            RequestModel,
            Seq<char>,
        >(
            RequestModel::RemoveUiState {
                contribution_id,
                session_id: json::text_field(params, "session_id"@),
            },
        ),
        (json::text_field(params, "title"@) is Some && payload::text_given(
            json::field(params, "body"@),
        ) is Some && payload::severity_given(json::field(params, "severity"@)) is Some)
            ==> host_request(plugin_id, granted, "ui.notify"@, params) == Ok::<RequestModel, Seq<char>>(
            RequestModel::Notify {
                title: json::text_field(params, "title"@)->0,
                body: payload::text_given(json::field(params, "body"@))->0,
                severity: payload::severity_given(json::field(params, "severity"@))->0,
                session_id: json::text_field(params, "session_id"@),
            },
        ),
{
    ui_methods_need_no_capability();
}

/// Whatever a worker publishes stands under its own prefix.
pub proof fn published_topics_are_own(
    plugin_id: Seq<char>,
    granted: Seq<Capability>,
    method: Seq<char>,
    params: JsonModel,
)
    ensures
        host_request(plugin_id, granted, method, params) matches Ok(RequestModel::Publish {
            topic,
            ..
        }) ==> own_prefix(plugin_id).is_prefix_of(topic),
{
}

/// How a single worker call failed. Wire failures (dead pipe, timeout) kill
/// the worker; RPC errors are the plugin answering "no" and leave it alive.
#[derive(Debug)]
pub enum CallError {
    Wire(String),
    Rpc(String),
}

/// What contracts say of a failed call.
pub enum CallErrorModel {
    Wire(Seq<char>),
    Rpc(Seq<char>),
}

impl View for CallError {
    type V = CallErrorModel;

    open spec fn view(&self) -> CallErrorModel {
        match *self {
            CallError::Wire(message) => CallErrorModel::Wire(message@),
            CallError::Rpc(message) => CallErrorModel::Rpc(message@),
        }
    }
}

/// The message of a failed call.
pub open spec fn call_error_text(error: CallErrorModel) -> Seq<char> {
    match error {
        CallErrorModel::Wire(message) => message,
        CallErrorModel::Rpc(message) => message,
    }
}

/// What contracts say of how a call ended.
pub open spec fn call_model(r: Result<Json, CallError>) -> Result<JsonModel, CallErrorModel> {
    match r {
        Ok(value) => Ok(value@),
        Err(error) => Err(error@),
    }
}

/// What the caller of a worker saw.
#[derive(Debug)]
pub enum CallEnd {
    /// The answer came.
    Answered(Result<Json, String>),
    /// The request could not be written, for this reason.
    WriteFailed(String),
    /// Nothing came within this many seconds and nanoseconds.
    TimedOut { secs: u64, nanos: u32 },
    /// The worker went away while the call waited.
    Disconnected,
    /// The worker was lost while the call waited; see [`Worker::close`].
    Lost(WorkerLoss),
}

/// How a worker is lost.
#[derive(Debug, Clone, Copy, PartialEq, Eq, Structural)]
pub enum WorkerLoss {
    /// The host killed it.
    Died,
    /// It closed its output.
    ClosedOutput,
}

/// What callers that still wait are told when a worker is lost.
pub open spec fn loss_text(loss: WorkerLoss) -> Seq<char> {
    match loss {
        WorkerLoss::Died => "worker died"@,
        WorkerLoss::ClosedOutput => "worker closed stdout"@,
    }
}

/// The text that `std::time::Duration` shows for a number of seconds and
/// nanoseconds.
pub uninterp spec fn duration_text(secs: u64, nanos: u32) -> Seq<char>;

/// The `Debug` form of a `std::time::Duration` of this many seconds and
/// nanoseconds. The contract names the text and says nothing of its form.
#[verifier::external_body]
fn duration_of(secs: u64, nanos: u32) -> (r: String)
    requires
        nanos < 1_000_000_000,
    ensures
        r@ == duration_text(secs, nanos),
{
    format!("{:?}", std::time::Duration::new(secs, nanos))
}

/// How a call ended by what its caller saw.
pub open spec fn call_outcome(end: CallEnd) -> Result<JsonModel, CallErrorModel> {
    match end {
        CallEnd::Answered(Ok(value)) => Ok(value@),
        CallEnd::Answered(Err(message)) => Err(CallErrorModel::Rpc(message@)),
        CallEnd::WriteFailed(reason) => Err(
            CallErrorModel::Wire("worker write failed: "@ + reason@),
        ),
        CallEnd::TimedOut { secs, nanos } => Err(
            CallErrorModel::Wire(
                "timed out after "@ + duration_text(secs, nanos) + "; worker killed"@,
            ),
        ),
        CallEnd::Disconnected => Err(CallErrorModel::Wire("worker exited mid-call"@)),
        CallEnd::Lost(loss) => Err(CallErrorModel::Wire(loss_text(loss))),
    }
}

/// One worker: what it may do and which calls wait for it.
#[derive(Debug)]
pub struct Worker {
    plugin_id: String,
    capabilities: Vec<Capability>,
    next_id: u64,
    pending: Vec<u64>,
    alive: bool,
}

/// What contracts say of a worker.
pub struct WorkerModel {
    pub plugin_id: Seq<char>,
    pub capabilities: Seq<Capability>,
    pub next_id: u64,
    /// The numbers of the calls that wait.
    pub pending: Seq<u64>,
    pub alive: bool,
}

impl View for Worker {
    type V = WorkerModel;

    closed spec fn view(&self) -> WorkerModel {
        WorkerModel {
            plugin_id: self.plugin_id@,
            capabilities: self.capabilities@,
            next_id: self.next_id,
            pending: self.pending@,
            alive: self.alive,
        }
    }
}

/// Every call that waits has a number of its own, below the next one.
pub open spec fn worker_ok(worker: WorkerModel) -> bool {
    &&& worker.pending.no_duplicates()
    &&& forall|i: int|
        0 <= i < worker.pending.len() ==> #[trigger] worker.pending[i] < worker.next_id
}

/// What the caller has to do with what a worker sent.
#[derive(Debug)]
pub enum Delivery {
    /// Hand the outcome to the call that waits under this number.
    Settle { id: u64, outcome: Result<Json, String> },
    /// Write this line to the worker.
    Reply(String),
    /// Do what the worker asks, and answer with [`reply_line`].
    Perform { id: u64, request: HostRequest },
    /// Nothing.
    Ignored,
}

/// What contracts say of a delivery.
pub enum DeliveryModel {
    Settle { id: u64, outcome: Result<JsonModel, Seq<char>> },
    Reply(Seq<char>),
    Perform { id: u64, request: RequestModel },
    Ignored,
}

impl View for Delivery {
    type V = DeliveryModel;

    open spec fn view(&self) -> DeliveryModel {
        match *self {
            Delivery::Settle { id, outcome } => DeliveryModel::Settle {
                id,
                outcome: outcome_model(outcome),
            },
            Delivery::Reply(line) => DeliveryModel::Reply(line@),
            Delivery::Perform { id, request } => DeliveryModel::Perform { id, request: request@ },
            Delivery::Ignored => DeliveryModel::Ignored,
        }
    }
}

/// The code of the host's refusals.
pub const HOST_ERROR: i64 = -32000;

/// The outcome that an answer of a worker carries.
pub open spec fn answer_outcome(msg: JsonModel) -> Result<JsonModel, Seq<char>> {
    match json::field(msg, "error"@) {
        Some(error) => Err(
            match json::text_field(error, "message"@) {
                Some(message) => message,
                None => "unknown error"@,
            },
        ),
        None => Ok(json::field_or_null(msg, "result"@)),
    }
}

/// What a message of a worker asks for. An answer settles the call that waits
/// under its number and is dropped where none does; a request is checked
/// against the worker's capabilities; anything else is ignored.
pub open spec fn routed(worker: WorkerModel, msg: JsonModel) -> DeliveryModel {
    match (json::u64_field(msg, "id"@), json::text_field(msg, "method"@)) {
        (Some(id), None) => if worker.pending.contains(id) {
            DeliveryModel::Settle { id, outcome: answer_outcome(msg) }
        } else {
            DeliveryModel::Ignored
        },
        (Some(id), Some(method)) => match host_request(
            worker.plugin_id,
            worker.capabilities,
            method,
            json::field_or_null(msg, "params"@),
        ) {
            Ok(request) => DeliveryModel::Perform { id, request },
            Err(problem) => DeliveryModel::Reply(
                json::text_of_json(error_message(id, HOST_ERROR, problem)),
            ),
        },
        _ => DeliveryModel::Ignored,
    }
}

/// Every number but this one.
pub open spec fn other_than(id: u64) -> spec_fn(u64) -> bool {
    |p: u64| p != id
}

/// The worker without a call that waited under this number.
pub open spec fn without_call(worker: WorkerModel, id: u64) -> WorkerModel {
    WorkerModel { pending: worker.pending.filter(other_than(id)), ..worker }
}

/// The worker after a message was routed.
pub open spec fn after_message(worker: WorkerModel, msg: JsonModel) -> WorkerModel {
    match routed(worker, msg) {
        DeliveryModel::Settle { id, .. } => without_call(worker, id),
        _ => worker,
    }
}

proof fn filter_keeps_worker_ok(worker: WorkerModel, id: u64)
    requires
        worker_ok(worker),
    ensures
        worker_ok(without_call(worker, id)),
        !without_call(worker, id).pending.contains(id),
{
    let keep = other_than(id);
    let left = worker.pending.filter(keep);
    lists::filter_keeps_pairs(worker.pending, keep, |a: u64, b: u64| a != b);
    lists::filter_members(worker.pending, keep);
    let differ = |a: u64, b: u64| a != b;
    assert forall|i: int, j: int| 0 <= i < left.len() && 0 <= j < left.len() && i != j implies
        left[i] != left[j] by {
        if i < j {
            assert(differ(left[i], left[j]));
        } else {
            assert(differ(left[j], left[i]));
        }
    }
    assert forall|i: int| 0 <= i < left.len() implies #[trigger] left[i] < worker.next_id by {
        assert(worker.pending.contains(left[i]));
    }
    if left.contains(id) {
        let k = choose|k: int| 0 <= k < left.len() && left[k] == id;
        worker.pending.lemma_filter_pred(keep, k);
    }
}

/// The numbers without `id`, and whether it was there.
fn take_call(pending: Vec<u64>, id: u64) -> (r: (Vec<u64>, bool))
    ensures
        r.0@ == pending@.filter(other_than(id)),
        r.1 == pending@.contains(id),
{
    let ghost keep = other_than(id);
    let ghost all = pending@;
    let mut left: Vec<u64> = Vec::new();
    let mut found = false;
    proof {
        reveal(Seq::filter);
        assert(left@ =~= all.take(0).filter(keep));
    }
    let mut i: usize = 0;
    while i < pending.len()
        invariant
            i <= pending.len(),
            all == pending@,
            keep == other_than(id),
            left@ == all.take(i as int).filter(keep),
            found <==> exists|j: int| 0 <= j < i && all[j] == id,
        decreases pending.len() - i,
    {
        proof {
            lists::filter_grows(all, i as int, keep);
        }
        if pending[i] == id {
            found = true;
        } else {
            left.push(pending[i]);
        }
        i += 1;
    }
    assert(all.take(i as int) =~= all);
    (left, found)
}

impl Worker {
    #[verifier::type_invariant]
    spec fn well_formed(self) -> bool {
        worker_ok(self@)
    }

    /// The state of a worker that was just spawned.
    pub fn new(plugin: &LoadedPlugin) -> (r: Self)
        ensures
            r@ == (WorkerModel {
                plugin_id: plugin.manifest.id@,
                capabilities: plugin.manifest.capabilities@,
                next_id: 1,
                pending: seq![],
                alive: true,
            }),
            worker_ok(r@),
    {
        let declared = &plugin.manifest.capabilities;
        let mut capabilities: Vec<Capability> = Vec::new();
        let mut i: usize = 0;
        while i < declared.len()
            invariant
                i <= declared.len(),
                capabilities@ == declared@.take(i as int),
            decreases declared.len() - i,
        {
            capabilities.push(declared[i]);
            assert(declared@.take(i + 1) =~= declared@.take(i as int).push(declared@[i as int]));
            i += 1;
        }
        assert(declared@.take(i as int) =~= declared@);
        let r = Worker {
            plugin_id: plugin.id().to_owned(),
            capabilities,
            next_id: 1,
            pending: Vec::new(),
            alive: true,
        };
        assert(r@.pending =~= seq![]);
        r
    }

    /// Whether the worker still answers.
    pub fn alive(&self) -> (r: bool)
        ensures
            r == self@.alive,
    {
        self.alive
    }

    /// The plugin that the worker serves.
    pub fn plugin_id(&self) -> (r: &str)
        ensures
            r@ == self@.plugin_id,
    {
        self.plugin_id.as_str()
    }

    /// The number of the next call.
    pub fn next_id(&self) -> (r: u64)
        ensures
            r == self@.next_id,
    {
        self.next_id
    }

    /// Start a call: its number, and the line to write. From now on the call
    /// waits.
    pub fn begin_call(&mut self, method: &str, params: Json) -> (r: (u64, String))
        requires
            old(self)@.next_id < u64::MAX,
        ensures
            r.0 == old(self)@.next_id,
            r.1@ == json::text_of_json(request_message(r.0, method@, params@)),
            !r.1@.contains('\n'),
            json::nests_within(params@, (json::MAX_NESTING - 1) as nat) ==> json::json_of_text(
                r.1@,
            ) == Some(request_message(r.0, method@, params@)),
            final(self)@ == (WorkerModel {
                next_id: (old(self)@.next_id + 1) as u64,
                pending: old(self)@.pending.push(r.0),
                ..old(self)@
            }),
            worker_ok(final(self)@),
    {
        proof {
            use_type_invariant(&*self);
        }
        let id = self.next_id;
        let line = request_line(id, method, params);
        let mut pending: Vec<u64> = Vec::new();
        std::mem::swap(&mut pending, &mut self.pending);
        pending.push(id);
        self.next_id = id + 1;
        self.pending = pending;
        (id, line)
    }

    /// End a call by what its caller saw.
    pub fn end_call(&mut self, id: u64, end: CallEnd) -> (r: Result<Json, CallError>)
        requires
            end matches CallEnd::TimedOut { nanos, .. } ==> nanos < 1_000_000_000,
        ensures
            call_model(r) == call_outcome(end),
            final(self)@ == (if end is WriteFailed || end is TimedOut {
                without_call(old(self)@, id)
            } else {
                old(self)@
            }),
            worker_ok(final(self)@),
    {
        proof {
            use_type_invariant(&*self);
            filter_keeps_worker_ok(self@, id);
        }
        match end {
            CallEnd::Answered(Ok(value)) => Ok(value),
            CallEnd::Answered(Err(message)) => Err(CallError::Rpc(message)),
            CallEnd::WriteFailed(reason) => {
                self.drop_call(id);
                Err(CallError::Wire(concat2("worker write failed: ", reason.as_str())))
            },
            CallEnd::TimedOut { secs, nanos } => {
                self.drop_call(id);
                let shown = duration_of(secs, nanos);
                Err(CallError::Wire(concat3("timed out after ", shown.as_str(), "; worker killed")))
            },
            CallEnd::Disconnected => Err(CallError::Wire("worker exited mid-call".to_owned())),
            CallEnd::Lost(WorkerLoss::Died) => Err(CallError::Wire("worker died".to_owned())),
            CallEnd::Lost(WorkerLoss::ClosedOutput) => Err(
                CallError::Wire("worker closed stdout".to_owned()),
            ),
        }
    }

    fn drop_call(&mut self, id: u64) -> (r: bool)
        ensures
            final(self)@ == without_call(old(self)@, id),
            r == old(self)@.pending.contains(id),
            worker_ok(final(self)@),
    {
        proof {
            use_type_invariant(&*self);
            filter_keeps_worker_ok(self@, id);
        }
        let mut pending: Vec<u64> = Vec::new();
        std::mem::swap(&mut pending, &mut self.pending);
        let (left, found) = take_call(pending, id);
        self.pending = left;
        found
    }

    /// Take in one message of the worker.
    pub fn route_message(&mut self, msg: &Json) -> (r: Delivery)
        ensures
            r@ == routed(old(self)@, msg@),
            final(self)@ == after_message(old(self)@, msg@),
            worker_ok(final(self)@),
    {
        proof {
            use_type_invariant(&*self);
        }
        let id = match msg.u64_at("id") {
            Some(id) => id,
            None => {
                return Delivery::Ignored;
            },
        };
        match msg.text_at("method") {
            // Response to a host -> worker call.
            None => {
                let outcome = match msg.get("error") {
                    Some(error) => match error.text_at("message") {
                        Some(message) => Err(message),
                        None => Err("unknown error".to_owned()),
                    },
                    None => Ok(msg.at_or_null("result")),
                };
                let ghost before = self@;
                if self.drop_call(id) {
                    Delivery::Settle { id, outcome }
                } else {
                    proof {
                        filter_without(before.pending, id);
                    }
                    Delivery::Ignored
                }
            },
            // Worker -> host request: the capability-gated host API.
            Some(method) => {
                let params = msg.at_or_null("params");
                match handle_host_call(
                    self.plugin_id.as_str(),
                    &self.capabilities,
                    method.as_str(),
                    &params,
                ) {
                    Ok(request) => Delivery::Perform { id, request },
                    Err(problem) => Delivery::Reply(reply_line(id, HOST_ERROR, Err(problem))),
                }
            },
        }
    }

    /// Take in one line of the worker's output; a line that is no JSON is
    /// ignored.
    pub fn read_line(&mut self, line: &str) -> (r: Delivery)
        ensures
            r@ == (match json::json_of_text(line@) {
                Some(msg) => routed(old(self)@, msg),
                None => DeliveryModel::Ignored,
            }),
            final(self)@ == (match json::json_of_text(line@) {
                Some(msg) => after_message(old(self)@, msg),
                None => old(self)@,
            }),
            worker_ok(final(self)@),
    {
        proof {
            use_type_invariant(&*self);
        }
        match parse_json(line) {
            Some(msg) => self.route_message(&msg),
            None => Delivery::Ignored,
        }
    }

    /// The pipe to the worker broke.
    pub fn lose(&mut self)
        ensures
            final(self)@ == (WorkerModel { alive: false, ..old(self)@ }),
            worker_ok(final(self)@),
    {
        proof {
            use_type_invariant(&*self);
        }
        self.alive = false;
    }

    /// The worker is lost: the calls that have to be woken, each with its end.
    /// A dead pipe is a wire failure, so none of them ends as an answer would.
    pub fn close(&mut self, loss: WorkerLoss) -> (r: Vec<(u64, CallEnd)>)
        ensures
            r.len() == old(self)@.pending.len(),
            forall|i: int|
                0 <= i < r.len() ==> (#[trigger] r@[i]).0 == old(self)@.pending[i] && r@[i].1
                    == CallEnd::Lost(loss),
            forall|i: int|
                0 <= i < r.len() ==> call_outcome((#[trigger] r@[i]).1) == Err::<
                    JsonModel,
                    CallErrorModel,
                >(CallErrorModel::Wire(loss_text(loss))),
            final(self)@ == (WorkerModel { alive: false, pending: seq![], ..old(self)@ }),
            worker_ok(final(self)@),
    {
        proof {
            use_type_invariant(&*self);
        }
        let mut pending: Vec<u64> = Vec::new();
        std::mem::swap(&mut pending, &mut self.pending);
        self.alive = false;
        assert(self@.pending =~= seq![]);
        let mut out: Vec<(u64, CallEnd)> = Vec::new();
        let mut i: usize = 0;
        while i < pending.len()
            invariant
                i <= pending.len(),
                out.len() == i,
                forall|j: int|
                    0 <= j < i ==> (#[trigger] out@[j]).0 == pending@[j] && out@[j].1
                        == CallEnd::Lost(loss),
            decreases pending.len() - i,
        {
            out.push((pending[i], CallEnd::Lost(loss)));
            i += 1;
        }
        out
    }
}

proof fn filter_without(pending: Seq<u64>, id: u64)
    requires
        !pending.contains(id),
    ensures
        pending.filter(other_than(id)) == pending,
    decreases pending.len(),
{
    reveal(Seq::filter);
    if pending.len() > 0 {
        let head = pending.drop_last();
        assert(pending.contains(pending.last()));
        assert forall|x: u64| head.contains(x) implies pending.contains(x) by {
            let k = choose|k: int| 0 <= k < head.len() && head[k] == x;
            assert(pending[k] == x);
        }
        filter_without(head, id);
        assert(head.push(pending.last()) =~= pending);
    }
}

/// A refusal is always the plugin's own "no": a call ends in an RPC error
/// exactly where the worker answered it with one, and everything else that
/// fails is a failure of the wire.
pub proof fn only_answers_are_refusals(end: CallEnd, message: Seq<char>)
    ensures
        call_outcome(end) == Err::<JsonModel, CallErrorModel>(CallErrorModel::Rpc(message)) <==> (
        end matches CallEnd::Answered(Err(given)) && given@ == message),
        call_outcome(end) is Ok <==> (end matches CallEnd::Answered(Ok(_))),
{
}

/// A call and its answer meet: the answer under a call's number settles that
/// call once, with what the answer carries.
pub proof fn answers_settle_their_call(
    worker: WorkerModel,
    id: u64,
    result: JsonModel,
)
    requires
        worker_ok(worker),
        worker.pending.contains(id),
    ensures
        routed(worker, result_message(id, result)) == (DeliveryModel::Settle {
            id,
            outcome: Ok(result),
        }),
        routed(
            after_message(worker, result_message(id, result)),
            result_message(id, result),
        ) is Ignored,
{
    reveal_strlit("jsonrpc");
    reveal_strlit("id");
    reveal_strlit("method");
    reveal_strlit("result");
    reveal_strlit("error");
    let msg = result_message(id, result);
    assert("jsonrpc"@.len() == 7 && "id"@.len() == 2 && "method"@.len() == 6 && "result"@.len()
        == 6 && "error"@.len() == 5);
    assert("method"@[0] == 'm' && "result"@[0] == 'r');
    assert(json::field(msg, "id"@) == Some(JsonModel::Number(NumberModel::Unsigned(id))));
    assert(json::field(msg, "method"@) is None);
    assert(json::field(msg, "error"@) is None);
    assert(json::field(msg, "result"@) == Some(result));
    filter_keeps_worker_ok(worker, id);
}

/// A refused call settles with the refusal's message.
pub proof fn refusals_settle_their_call(
    worker: WorkerModel,
    id: u64,
    code: i64,
    message: Seq<char>,
)
    requires
        worker.pending.contains(id),
    ensures
        routed(worker, error_message(id, code, message)) == (DeliveryModel::Settle {
            id,
            outcome: Err(message),
        }),
{
    reveal_strlit("jsonrpc");
    reveal_strlit("id");
    reveal_strlit("method");
    reveal_strlit("error");
    reveal_strlit("code");
    reveal_strlit("message");
    let msg = error_message(id, code, message);
    assert("jsonrpc"@.len() == 7 && "id"@.len() == 2 && "method"@.len() == 6 && "error"@.len()
        == 5);
    assert("code"@.len() == 4 && "message"@.len() == 7);
    assert(json::field(msg, "id"@) == Some(JsonModel::Number(NumberModel::Unsigned(id))));
    assert(json::field(msg, "method"@) is None);
    let error = json::field(msg, "error"@)->0;
    assert(json::field(error, "message"@) == Some(JsonModel::Text(message)));
}

/// A worker's call is either handed on to be performed or answered with a
/// refusal under its own number; without the capability it is refused.
pub proof fn worker_calls_are_gated(
    worker: WorkerModel,
    id: u64,
    method: Seq<char>,
    params: JsonModel,
)
    ensures
        ({
            let msg = request_message(id, method, params);
            let asked = host_request(worker.plugin_id, worker.capabilities, method, params);
            &&& after_message(worker, msg) == worker
            &&& routed(worker, msg) == (match asked {
                Ok(request) => DeliveryModel::Perform { id, request },
                Err(problem) => DeliveryModel::Reply(
                    json::text_of_json(error_message(id, HOST_ERROR, problem)),
                ),
            })
            &&& authorize_problem(worker.plugin_id, worker.capabilities, method) matches Some(
                problem,
            ) ==> asked == Err::<RequestModel, Seq<char>>(problem)
        }),
{
    reveal_strlit("jsonrpc");
    reveal_strlit("id");
    reveal_strlit("method");
    reveal_strlit("params");
    let msg = request_message(id, method, params);
    assert("jsonrpc"@.len() == 7 && "id"@.len() == 2 && "method"@.len() == 6 && "params"@.len()
        == 6);
    assert("method"@[0] == 'm' && "params"@[0] == 'p');
    assert(json::field(msg, "id"@) == Some(JsonModel::Number(NumberModel::Unsigned(id))));
    assert(json::field(msg, "method"@) == Some(JsonModel::Text(method)));
    assert(json::field(msg, "params"@) == Some(params));
}

/// Spawns per plugin per process before the host refuses to respawn.
pub const RESPAWN_BUDGET: u32 = 3;

/// Default timeout for a host -> worker call, in seconds.
pub const CALL_TIMEOUT: u64 = 10;

/// Which worker serves which plugin, and how often each was spawned. Every
/// worker has a number of its own.
#[derive(Debug)]
pub struct PluginHost {
    workers: NameMap<u64>,
    spawn_counts: NameMap<u32>,
    last_worker: u64,
}

/// What contracts say of the host.
pub struct HostModel {
    /// The number of the worker that serves a plugin.
    pub workers: Map<Seq<char>, u64>,
    pub spawn_counts: Map<Seq<char>, u32>,
    /// The highest number given so far.
    pub last_worker: u64,
}

impl View for PluginHost {
    type V = HostModel;

    closed spec fn view(&self) -> HostModel {
        HostModel {
            workers: self.workers@,
            spawn_counts: self.spawn_counts@,
            last_worker: self.last_worker,
        }
    }
}

/// How often a plugin's worker was spawned.
pub open spec fn spawns_of(host: HostModel, plugin_id: Seq<char>) -> u32 {
    if host.spawn_counts.contains_key(plugin_id) {
        host.spawn_counts[plugin_id]
    } else {
        0
    }
}

/// No plugin was spawned more often than the budget allows, and no number was
/// given that is above the last one.
pub open spec fn host_ok(host: HostModel) -> bool {
    &&& forall|id: Seq<char>| #[trigger]
        host.spawn_counts.contains_key(id) ==> host.spawn_counts[id] <= RESPAWN_BUDGET
    &&& forall|id: Seq<char>| #[trigger]
        host.workers.contains_key(id) ==> host.workers[id] <= host.last_worker
}

/// The worker to use for a call.
#[derive(Debug, Clone, Copy, PartialEq, Eq, Structural)]
pub enum WorkerChoice {
    /// The worker with this number is running.
    Running(u64),
    /// A new one has to be spawned.
    Spawn,
}

/// Why a plugin gets no more workers.
pub open spec fn budget_problem(plugin_id: Seq<char>) -> Seq<char> {
    "plugin "@ + plugin_id
        + " worker crashed 3 times; not respawning (disable and re-enable the plugin to reset)"@
}

/// Which worker a call uses, or why there is none. `alive` says whether the
/// worker that serves the plugin still answers.
pub open spec fn worker_choice(
    host: HostModel,
    plugins: Seq<LoadedPlugin>,
    plugin_id: Seq<char>,
    alive: bool,
) -> Result<WorkerChoice, Seq<char>> {
    if host.workers.contains_key(plugin_id) && alive {
        Ok(WorkerChoice::Running(host.workers[plugin_id]))
    } else if registry::find_active(plugins, plugin_id) is None {
        Err("plugin "@ + plugin_id + " is not active"@)
    } else if spawns_of(host, plugin_id) >= RESPAWN_BUDGET {
        Err(budget_problem(plugin_id))
    } else {
        Ok(WorkerChoice::Spawn)
    }
}

/// What contracts say of a choice.
pub open spec fn choice_model(r: Result<WorkerChoice, String>) -> Result<WorkerChoice, Seq<char>> {
    match r {
        Ok(choice) => Ok(choice),
        Err(message) => Err(message@),
    }
}

/// The host without a worker; one that took its place stays.
pub open spec fn without_worker(host: HostModel, plugin_id: Seq<char>, worker: u64) -> HostModel {
    HostModel {
        workers: if host.workers.contains_key(plugin_id) && host.workers[plugin_id] == worker {
            host.workers.remove(plugin_id)
        } else {
            host.workers
        },
        ..host
    }
}

impl PluginHost {
    #[verifier::type_invariant]
    spec fn well_formed(self) -> bool {
        host_ok(self@)
    }

    /// The host without any worker.
    pub fn new() -> (r: Self)
        ensures
            r@ == (HostModel {
                workers: Map::empty(),
                spawn_counts: Map::empty(),
                last_worker: 0,
            }),
            host_ok(r@),
    {
        PluginHost { workers: NameMap::new(), spawn_counts: NameMap::new(), last_worker: 0 }
    }

    /// The number of the worker that serves a plugin.
    pub fn worker_of(&self, plugin_id: &str) -> (r: Option<u64>)
        ensures
            r == (if self@.workers.contains_key(plugin_id@) {
                Some(self@.workers[plugin_id@])
            } else {
                None
            }),
    {
        match self.workers.get(plugin_id) {
            Some(worker) => Some(*worker),
            None => None,
        }
    }

    /// The highest worker number given so far.
    pub fn last_worker(&self) -> (r: u64)
        ensures
            r == self@.last_worker,
    {
        self.last_worker
    }

    /// Find the worker for a call. A spawn is charged to the plugin's budget
    /// here, whether or not it succeeds; one that does is added with
    /// [`PluginHost::add_worker`].
    pub fn ensure_worker(
        &mut self,
        registry: &PluginRegistry,
        plugin_id: &str,
        alive: bool,
    ) -> (r: Result<WorkerChoice, String>)
        ensures
            choice_model(r) == worker_choice(old(self)@, registry.plugins@, plugin_id@, alive),
            final(self)@ == (if r == Ok::<WorkerChoice, String>(WorkerChoice::Spawn) {
                HostModel {
                    spawn_counts: old(self)@.spawn_counts.insert(
                        plugin_id@,
                        (spawns_of(old(self)@, plugin_id@) + 1) as u32,
                    ),
                    ..old(self)@
                }
            } else {
                old(self)@
            }),
            host_ok(final(self)@),
    {
        proof {
            use_type_invariant(&*self);
        }
        if let Some(worker) = self.worker_of(plugin_id) {
            if alive {
                return Ok(WorkerChoice::Running(worker));
            }
        }
        if registry.get_active(plugin_id).is_none() {
            return Err(concat3("plugin ", plugin_id, " is not active"));
        }
        let count: u32 = match self.spawn_counts.get(plugin_id) {
            Some(count) => *count,
            None => 0,
        };
        assert(count == spawns_of(self@, plugin_id@));
        if count >= RESPAWN_BUDGET {
            return Err(
                concat3(
                    "plugin ",
                    plugin_id,
                    " worker crashed 3 times; not respawning (disable and re-enable the plugin to reset)",
                ),
            );
        }
        let mut counts: NameMap<u32> = NameMap::new();
        std::mem::swap(&mut counts, &mut self.spawn_counts);
        counts.insert(plugin_id, count + 1);
        self.spawn_counts = counts;
        Ok(WorkerChoice::Spawn)
    }

    /// A worker was spawned for a plugin: its number.
    pub fn add_worker(&mut self, plugin_id: &str) -> (r: u64)
        requires
            old(self)@.last_worker < u64::MAX,
        ensures
            r == old(self)@.last_worker + 1,
            final(self)@ == (HostModel {
                workers: old(self)@.workers.insert(plugin_id@, r),
                last_worker: r,
                ..old(self)@
            }),
            host_ok(final(self)@),
    {
        proof {
            use_type_invariant(&*self);
        }
        let ghost before = self@;
        let mut taken = PluginHost::new();
        std::mem::swap(self, &mut taken);
        let PluginHost { mut workers, spawn_counts, last_worker } = taken;
        let worker = last_worker + 1;
        workers.insert(plugin_id, worker);
        proof {
            let after = HostModel { workers: workers@, last_worker: worker, ..before };
            assert forall|id: Seq<char>| #[trigger]
                after.workers.contains_key(id) implies after.workers[id] <= after.last_worker by {
                if id != plugin_id@ {
                    assert(before.workers.contains_key(id));
                }
            }
        }
        *self = PluginHost { workers, spawn_counts, last_worker: worker };
        worker
    }

    /// Forget a worker that was killed.
    pub fn mark_dead(&mut self, plugin_id: &str, worker: u64)
        ensures
            final(self)@ == without_worker(old(self)@, plugin_id@, worker),
            host_ok(final(self)@),
    {
        proof {
            use_type_invariant(&*self);
        }
        if let Some(current) = self.worker_of(plugin_id) {
            if current == worker {
                let ghost before = self@;
                let mut workers: NameMap<u64> = NameMap::new();
                std::mem::swap(&mut workers, &mut self.workers);
                workers.remove(plugin_id);
                proof {
                    let after = HostModel { workers: workers@, ..before };
                    assert forall|id: Seq<char>| #[trigger]
                        after.workers.contains_key(id) implies after.workers[id]
                        <= after.last_worker by {
                        assert(before.workers.contains_key(id));
                    }
                }
                self.workers = workers;
            }
        }
    }

    /// Forget every worker: the plugins and the numbers of those to kill.
    /// Called on daemon/TUI shutdown.
    pub fn shutdown(&mut self) -> (r: Vec<(String, u64)>)
        ensures
            forall|id: Seq<char>| #[trigger]
                old(self)@.workers.contains_key(id) <==> exists|i: int|
                    0 <= i < r.len() && (#[trigger] r@[i]).0@ == id,
            forall|i: int|
                0 <= i < r.len() ==> (#[trigger] r@[i]).1 == old(self)@.workers[r@[i].0@],
            forall|i: int, j: int|
                0 <= i < j < r.len() ==> (#[trigger] r@[i]).0@ != (#[trigger] r@[j]).0@,
            final(self)@ == (HostModel { workers: Map::empty(), ..old(self)@ }),
            host_ok(final(self)@),
    {
        proof {
            use_type_invariant(&*self);
        }
        let ghost before = self@;
        let mut workers: NameMap<u64> = NameMap::new();
        std::mem::swap(&mut workers, &mut self.workers);
        let keys = workers.keys();
        let mut out: Vec<(String, u64)> = Vec::new();
        let mut i: usize = 0;
        while i < keys.len()
            invariant
                i <= keys.len(),
                out.len() == i,
                workers@ == before.workers,
                forall|j: int|
                    0 <= j < keys.len() ==> before.workers.contains_key((#[trigger] keys@[j])@),
                forall|j: int|
                    0 <= j < i ==> (#[trigger] out@[j]).0@ == keys@[j]@ && out@[j].1
                        == before.workers[keys@[j]@],
            decreases keys.len() - i,
        {
            let id = keys[i].as_str();
            if let Some(worker) = workers.get(id) {
                out.push((id.to_owned(), *worker));
            }
            i += 1;
        }
        proof {
            assert forall|id: Seq<char>| #[trigger]
                before.workers.contains_key(id) <==> exists|i: int|
                    0 <= i < out.len() && (#[trigger] out@[i]).0@ == id by {
                if before.workers.contains_key(id) {
                    let k = choose|k: int| 0 <= k < keys.len() && (#[trigger] keys@[k])@ == id;
                    assert(out@[k].0@ == id);
                }
                if exists|i: int| 0 <= i < out.len() && (#[trigger] out@[i]).0@ == id {
                    let k = choose|k: int| 0 <= k < out.len() && (#[trigger] out@[k]).0@ == id;
                    assert(keys@[k]@ == id);
                }
            }
            assert forall|i: int, j: int| 0 <= i < j < out.len() implies (#[trigger] out@[i]).0@
                != (#[trigger] out@[j]).0@ by {
                assert(text::text_lt(keys@[i]@, keys@[j]@));
                text::text_lt_irreflexive(keys@[i]@);
            }
        }
        out
    }

    /// End a call on a worker: a dead or hung worker poisons every later
    /// call, so a wire failure forgets it, and the respawn budget decides
    /// whether it gets another life.
    pub fn finish_call(
        &mut self,
        plugin_id: &str,
        worker: u64,
        method: &str,
        outcome: Result<Json, CallError>,
    ) -> (r: Result<Json, String>)
        ensures
            outcome_model(r) == (match call_model(outcome) {
                Ok(value) => Ok(value),
                Err(error) => Err(
                    "plugin "@ + plugin_id@ + (" "@ + method@ + (": "@ + call_error_text(error))),
                ),
            }),
            final(self)@ == (if call_model(outcome) matches Err(CallErrorModel::Wire(_)) {
                without_worker(old(self)@, plugin_id@, worker)
            } else {
                old(self)@
            }),
            host_ok(final(self)@),
    {
        proof {
            use_type_invariant(&*self);
        }
        let message = match outcome {
            Ok(value) => {
                return Ok(value);
            },
            Err(CallError::Wire(message)) => {
                self.mark_dead(plugin_id, worker);
                message
            },
            Err(CallError::Rpc(message)) => message,
        };
        let reason = concat2(": ", message.as_str());
        let call = concat3(" ", method, reason.as_str());
        Err(concat3("plugin ", plugin_id, call.as_str()))
    }
}

/// A plugin whose budget is spent gets no worker, however often it is asked
/// for, until the process ends.
pub proof fn spent_budget_refuses(
    host: HostModel,
    plugins: Seq<LoadedPlugin>,
    plugin_id: Seq<char>,
)
    requires
        spawns_of(host, plugin_id) == RESPAWN_BUDGET,
        registry::find_active(plugins, plugin_id) is Some,
    ensures
        worker_choice(host, plugins, plugin_id, false) == Err::<WorkerChoice, Seq<char>>(
            budget_problem(plugin_id),
        ),
{
}

/// Only a plugin that takes part is ever spawned.
pub proof fn only_active_plugins_spawn(
    host: HostModel,
    plugins: Seq<LoadedPlugin>,
    plugin_id: Seq<char>,
    alive: bool,
)
    requires
        worker_choice(host, plugins, plugin_id, alive) == Ok::<WorkerChoice, Seq<char>>(
            WorkerChoice::Spawn,
        ),
    ensures
        registry::find_active(plugins, plugin_id) is Some,
        spawns_of(host, plugin_id) < RESPAWN_BUDGET,
{
}

/// A late report of a worker that was replaced leaves its successor alone.
pub proof fn late_death_keeps_successor(
    host: HostModel,
    plugin_id: Seq<char>,
    old_worker: u64,
)
    requires
        host.workers.contains_key(plugin_id),
        host.workers[plugin_id] != old_worker,
    ensures
        without_worker(host, plugin_id, old_worker) == host,
{
}

/// How a worker is started.
#[derive(Debug)]
pub enum WorkerPlan {
    /// The entrypoint below the plugin's install directory, which is also the
    /// working directory.
    Installed { root: String, entrypoint: String, args: Vec<String> },
    /// The current executable with these arguments, in the application's
    /// directory.
    Builtin { args: Vec<String> },
}

/// What contracts say of a plan.
pub enum PlanModel {
    Installed { root: Seq<char>, entrypoint: Seq<char>, args: Seq<Seq<char>> },
    Builtin { args: Seq<Seq<char>> },
}

impl View for WorkerPlan {
    type V = PlanModel;

    open spec fn view(&self) -> PlanModel {
        match *self {
            WorkerPlan::Installed { root, entrypoint, args } => PlanModel::Installed {
                root: root@,
                entrypoint: entrypoint@,
                args: text::texts(args@),
            },
            WorkerPlan::Builtin { args } => PlanModel::Builtin { args: text::texts(args@) },
        }
    }
}

/// How a plugin's worker is started, or why it has none.
pub open spec fn worker_plan(plugin: LoadedPlugin) -> Result<PlanModel, Seq<char>> {
    match plugin.manifest.runtime {
        None => Err("plugin "@ + plugin.manifest.id@ + " declares no [runtime] section"@),
        Some(runtime) => Ok(
            match plugin.root {
                Some(root) => PlanModel::Installed {
                    root: root@,
                    entrypoint: runtime.entrypoint@,
                    args: text::texts(runtime.args@),
                },
                None => PlanModel::Builtin {
                    args: seq!["__plugin-worker"@, "--id"@, plugin.manifest.id@] + text::texts(
                        runtime.args@,
                    ),
                },
            },
        ),
    }
}

/// Resolve the worker executable: manifest entrypoint relative to the plugin
/// root for installed plugins, the current binary's hidden `__plugin-worker`
/// subcommand for builtins.
pub fn worker_command(plugin: &LoadedPlugin) -> (r: Result<WorkerPlan, String>)
    ensures
        (match r {
            Ok(plan) => Ok(plan@),
            Err(message) => Err(message@),
        }) == worker_plan(*plugin),
{
    let runtime = match &plugin.manifest.runtime {
        Some(runtime) => runtime,
        None => {
            return Err(concat3("plugin ", plugin.id(), " declares no [runtime] section"));
        },
    };
    match &plugin.root {
        Some(root) => Ok(
            WorkerPlan::Installed {
                root: root.clone(),
                entrypoint: runtime.entrypoint.clone(),
                args: copy_texts(&runtime.args),
            },
        ),
        None => {
            let mut args: Vec<String> = Vec::new();
            args.push("__plugin-worker".to_owned());
            args.push("--id".to_owned());
            args.push(plugin.id().to_owned());
            let ghost head = args@;
            let mut rest = copy_texts(&runtime.args);
            let ghost tail = rest@;
            args.append(&mut rest);
            assert(text::texts(args@) =~= text::texts(head) + text::texts(tail));
            assert(text::texts(head) =~= seq![
                "__plugin-worker"@,
                "--id"@,
                plugin.manifest.id@,
            ]);
            Ok(WorkerPlan::Builtin { args })
        },
    }
}

/// Refuse a worker whose entrypoint is no file. `shown` is the path as it is
/// shown to the user.
pub fn check_entrypoint(plugin: &LoadedPlugin, shown: &str, is_file: bool) -> (r: Result<
    (),
    String,
>)
    ensures
        text::refusal(r) == (if is_file {
            None
        } else {
            Some("plugin "@ + plugin.manifest.id@ + (" entrypoint missing: "@ + shown@))
        }),
{
    if is_file {
        Ok(())
    } else {
        let reason = concat2(" entrypoint missing: ", shown);
        Err(concat3("plugin ", plugin.id(), reason.as_str()))
    }
}

/// Max events handed to a subscriber per replay pass.
pub const REPLAY_LIMIT: usize = 1000;

/// One event of the bus.
#[derive(Debug)]
pub struct BusEvent {
    pub seq: u64,
    pub topic: String,
    pub payload: Json,
}

/// The notification that forwards an event.
pub open spec fn event_message(event: BusEvent) -> JsonModel {
    JsonModel::Object(
        map![
            "jsonrpc"@ => JsonModel::Text("2.0"@),
            "method"@ => JsonModel::Text("events.event"@),
            "params"@ => JsonModel::Object(
                map![
                    "seq"@ => JsonModel::Number(NumberModel::Unsigned(event.seq)),
                    "topic"@ => JsonModel::Text(event.topic@),
                    "payload"@ => event.payload@,
                ],
            ),
        ],
    )
}

/// The line that forwards an event to a worker. It holds no line feed, and it
/// is read back as the notification unless the payload nests too deep for
/// the parser.
pub fn notify_event(event: &BusEvent) -> (r: String)
    ensures
        r@ == json::text_of_json(event_message(*event)),
        !r@.contains('\n'),
        json::nests_within(event.payload@, (json::MAX_NESTING - 2) as nat) ==> json::json_of_text(
            r@,
        ) == Some(event_message(*event)),
{
    let params = Json::empty_object().with("seq", Json::unsigned(event.seq)).with(
        "topic",
        Json::Text(event.topic.clone()),
    ).with("payload", event.payload.clone());
    let message = Json::empty_object().with("jsonrpc", Json::text("2.0")).with(
        "method",
        Json::text("events.event"),
    ).with("params", params);
    proof {
        reveal_with_fuel(json::nests_within, 3);
        if json::nests_within(event.payload@, (json::MAX_NESTING - 2) as nat) {
            assert(json::nests_within(params@, (json::MAX_NESTING - 1) as nat));
            assert(json::nests_within(message@, json::MAX_NESTING as nat));
        }
    }
    render_json(&message)
}

/// What the event bus brought.
#[derive(Debug)]
pub enum BusSignal {
    /// One event of a replay pass.
    Replayed(BusEvent),
    /// The replay pass is over, or it failed.
    ReplayEnded,
    /// A live event, and whether one of the subscribed topics matches it.
    Live { event: BusEvent, matches: bool },
    /// Live events were lost.
    Lagged,
    /// The bus is closed.
    Closed,
}

/// Where the worker is that events are forwarded to.
#[derive(Debug, Clone, Copy, PartialEq, Eq, Structural)]
pub enum WorkerLife {
    /// Dropped by the host.
    Gone,
    /// Still known to the host, but it does not answer any more.
    Dead,
    Alive,
}

/// What a forwarder does next.
#[derive(Debug)]
pub enum ForwardStep {
    /// Write this line to the worker, then go on.
    Send(String),
    /// Replay what comes after this number, [`REPLAY_LIMIT`] events at most.
    Replay { after_seq: u64 },
    /// Wait for a live event.
    Receive,
    /// End.
    Stop,
}

/// What contracts say of a step.
pub enum ForwardModel {
    Send(Seq<char>),
    Replay { after_seq: u64 },
    Receive,
    Stop,
}

impl View for ForwardStep {
    type V = ForwardModel;

    open spec fn view(&self) -> ForwardModel {
        match *self {
            ForwardStep::Send(line) => ForwardModel::Send(line@),
            ForwardStep::Replay { after_seq } => ForwardModel::Replay { after_seq },
            ForwardStep::Receive => ForwardModel::Receive,
            ForwardStep::Stop => ForwardModel::Stop,
        }
    }
}

/// What a forwarder does on a signal, and the number of the last event that
/// it saw then.
pub open spec fn forward_step(last_seq: u64, signal: BusSignal, life: WorkerLife) -> (
    u64,
    ForwardModel,
) {
    match signal {
        BusSignal::Replayed(event) => (
            event.seq,
            if life is Gone {
                ForwardModel::Stop
            } else {
                ForwardModel::Send(json::text_of_json(event_message(event)))
            },
        ),
        BusSignal::ReplayEnded => (last_seq, ForwardModel::Receive),
        BusSignal::Live { event, matches } => if event.seq <= last_seq || !matches {
            (last_seq, ForwardModel::Receive)
        } else {
            (
                event.seq,
                if life is Alive {
                    ForwardModel::Send(json::text_of_json(event_message(event)))
                } else {
                    ForwardModel::Stop
                },
            )
        },
        BusSignal::Lagged => (last_seq, ForwardModel::Replay { after_seq: last_seq }),
        BusSignal::Closed => (last_seq, ForwardModel::Stop),
    }
}

/// Forwards matching bus events to a worker as `events.event` notifications:
/// replay from `after_seq` first, then the live broadcast (broadcast lag
/// falls back to replay).
#[derive(Debug)]
pub struct EventForwarder {
    pub last_seq: u64,
}

impl EventForwarder {
    /// Start to forward. Without a number to start after, only events count
    /// that come after the highest number so far.
    pub fn start(after_seq: Option<u64>, highest_seq: u64) -> (r: (Self, ForwardStep))
        ensures
            match after_seq {
                Some(seq) => r.0.last_seq == seq && r.1@ == (ForwardModel::Replay {
                    after_seq: seq,
                }),
                None => r.0.last_seq == highest_seq && r.1@ == ForwardModel::Receive,
            },
    {
        match after_seq {
            Some(seq) => (
                EventForwarder { last_seq: seq },
                ForwardStep::Replay { after_seq: seq },
            ),
            None => (EventForwarder { last_seq: highest_seq }, ForwardStep::Receive),
        }
    }

    /// Take in one signal.
    pub fn step(&mut self, signal: BusSignal, life: WorkerLife) -> (r: ForwardStep)
        ensures
            (final(self).last_seq, r@) == forward_step(old(self).last_seq, signal, life),
    {
        match signal {
            BusSignal::Replayed(event) => {
                self.last_seq = event.seq;
                match life {
                    WorkerLife::Gone => ForwardStep::Stop,
                    _ => ForwardStep::Send(notify_event(&event)),
                }
            },
            BusSignal::ReplayEnded => ForwardStep::Receive,
            BusSignal::Live { event, matches } => {
                if event.seq <= self.last_seq || !matches {
                    return ForwardStep::Receive;
                }
                self.last_seq = event.seq;
                match life {
                    WorkerLife::Alive => ForwardStep::Send(notify_event(&event)),
                    _ => ForwardStep::Stop,
                }
            },
            BusSignal::Lagged => ForwardStep::Replay { after_seq: self.last_seq },
            BusSignal::Closed => ForwardStep::Stop,
        }
    }
}

/// The numbers of the events that a live worker gets, one after another.
pub open spec fn forwarded_seqs(last_seq: u64, signals: Seq<BusSignal>) -> Seq<u64>
    decreases signals.len(),
{
    if signals.len() == 0 {
        seq![]
    } else {
        let (next, step) = forward_step(last_seq, signals[0], WorkerLife::Alive);
        let rest = forwarded_seqs(next, signals.drop_first());
        if step is Send {
            seq![next] + rest
        } else {
            rest
        }
    }
}

/// Whether every replayed event comes after what was seen before it, as the
/// bus replays what comes after a number, in order.
pub open spec fn replays_in_order(last_seq: u64, signals: Seq<BusSignal>) -> bool
    decreases signals.len(),
{
    signals.len() == 0 || ({
        &&& signals[0] matches BusSignal::Replayed(event) ==> event.seq > last_seq
        &&& replays_in_order(
            forward_step(last_seq, signals[0], WorkerLife::Alive).0,
            signals.drop_first(),
        )
    })
}

/// A worker never sees an event twice, nor an older one after a newer one,
/// whatever mix of replay and live events, lags included, brings them.
pub proof fn forwarded_events_rise(last_seq: u64, signals: Seq<BusSignal>)
    requires
        replays_in_order(last_seq, signals),
    ensures
        forall|i: int|
            0 <= i < forwarded_seqs(last_seq, signals).len() ==> #[trigger] forwarded_seqs(
                last_seq,
                signals,
            )[i] > last_seq,
        forall|i: int, j: int|
            0 <= i < j < forwarded_seqs(last_seq, signals).len() ==> #[trigger] forwarded_seqs(
                last_seq,
                signals,
            )[i] < #[trigger] forwarded_seqs(last_seq, signals)[j],
    decreases signals.len(),
{
    if signals.len() > 0 {
        let (next, step) = forward_step(last_seq, signals[0], WorkerLife::Alive);
        forwarded_events_rise(next, signals.drop_first());
        let rest = forwarded_seqs(next, signals.drop_first());
        let all = forwarded_seqs(last_seq, signals);
        if step is Send {
            assert(next > last_seq);
            assert forall|i: int| 0 <= i < all.len() implies #[trigger] all[i] > last_seq by {
                if i > 0 {
                    assert(all[i] == rest[i - 1]);
                }
            }
            assert forall|i: int, j: int| 0 <= i < j < all.len() implies #[trigger] all[i]
                < #[trigger] all[j] by {
                assert(all[j] == rest[j - 1]);
                if i > 0 {
                    assert(all[i] == rest[i - 1]);
                }
            }
        } else {
            assert(next == last_seq);
        }
    }
}

proof fn method_names_differ()
    ensures
        "events.publish"@ != "events.subscribe"@,
        "events.publish"@ != "sessions.list"@,
        "events.publish"@ != "session.meta.get"@,
        "events.publish"@ != "session.meta.set"@,
        "events.publish"@ != "session.meta.cas"@,
        "events.subscribe"@ != "sessions.list"@,
        "events.subscribe"@ != "session.meta.get"@,
        "events.subscribe"@ != "session.meta.set"@,
        "events.subscribe"@ != "session.meta.cas"@,
        "sessions.list"@ != "session.meta.get"@,
        "sessions.list"@ != "session.meta.set"@,
        "sessions.list"@ != "session.meta.cas"@,
        "session.meta.get"@ != "session.meta.set"@,
        "session.meta.get"@ != "session.meta.cas"@,
        "session.meta.set"@ != "session.meta.cas"@,
        !pushes_ui("events.publish"@),
        !pushes_ui("events.subscribe"@),
        !pushes_ui("sessions.list"@),
        !pushes_ui("session.meta.get"@),
        !pushes_ui("session.meta.set"@),
        !pushes_ui("session.meta.cas"@),
{
    reveal_strlit("ui.state.set");
    reveal_strlit("ui.state.remove");
    reveal_strlit("ui.notify");
    reveal_strlit("events.publish");
    reveal_strlit("events.subscribe");
    reveal_strlit("sessions.list");
    reveal_strlit("session.meta.get");
    reveal_strlit("session.meta.set");
    reveal_strlit("session.meta.cas");
    assert("ui.state.set"@[0] == 'u' && "ui.state.remove"@[0] == 'u' && "ui.notify"@[0] == 'u');
    assert("events.publish"@[0] == 'e' && "events.subscribe"@[0] == 'e');
    assert("events.publish"@[7] == 'p' && "events.subscribe"@[7] == 's');
    assert("sessions.list"@[0] == 's' && "sessions.list"@.len() == 13);
    assert("session.meta.get"@[0] == 's' && "session.meta.get"@[13] == 'g');
    assert("session.meta.set"@[0] == 's' && "session.meta.set"@[13] == 's');
    assert("session.meta.cas"@[0] == 's' && "session.meta.cas"@[13] == 'c');
}

/// A call that is taken names one of the methods of the host, and those that
/// reach the bus or the sessions are taken only from a worker that holds the
/// capability for them.
pub proof fn every_service_has_its_capability(
    plugin_id: Seq<char>,
    granted: Seq<Capability>,
    method: Seq<char>,
    params: JsonModel,
)
    requires
        host_request(plugin_id, granted, method, params) is Ok,
    ensures
        ({
            ||| method == "ui.state.set"@
            ||| method == "ui.state.remove"@
            ||| method == "ui.notify"@
            ||| method == "events.publish"@ && granted.contains(Capability::EventsPublish)
            ||| method == "events.subscribe"@ && granted.contains(Capability::EventsSubscribe)
            ||| method == "sessions.list"@ && granted.contains(Capability::SessionsRead)
            ||| method == "session.meta.get"@ && granted.contains(Capability::SessionsRead)
            ||| method == "session.meta.set"@ && granted.contains(Capability::SessionsMetaWrite)
            ||| method == "session.meta.cas"@ && granted.contains(Capability::SessionsMetaWrite)
        }),
        ({
            let asked = host_request(plugin_id, granted, method, params)->Ok_0;
            &&& asked is SetUiState <==> method == "ui.state.set"@
            &&& asked is RemoveUiState <==> method == "ui.state.remove"@
            &&& asked is Notify <==> method == "ui.notify"@
            &&& asked is Publish <==> method == "events.publish"@
            &&& asked is Subscribe <==> method == "events.subscribe"@
            &&& asked is ListSessions <==> method == "sessions.list"@
            &&& asked is GetMeta <==> method == "session.meta.get"@
            &&& asked is SetMeta <==> method == "session.meta.set"@ || method
                == "session.meta.cas"@
        }),
{
    method_names_differ();
    ui_methods_need_no_capability();
}

/// A refusal of a known method for want of a capability tells the plugin, the
/// method and the capability; an unknown method is refused whatever was
/// granted.
pub proof fn refusals_tell_what_is_missing(
    plugin_id: Seq<char>,
    granted: Seq<Capability>,
    method: Seq<char>,
    needed: Capability,
)
    requires
        ({
            ||| method == "events.publish"@ && needed == Capability::EventsPublish
            ||| method == "events.subscribe"@ && needed == Capability::EventsSubscribe
            ||| method == "sessions.list"@ && needed == Capability::SessionsRead
            ||| method == "session.meta.get"@ && needed == Capability::SessionsRead
            ||| method == "session.meta.set"@ && needed == Capability::SessionsMetaWrite
            ||| method == "session.meta.cas"@ && needed == Capability::SessionsMetaWrite
        }),
    ensures
        authorize_problem(plugin_id, granted, method) is None <==> granted.contains(needed),
        !granted.contains(needed) ==> authorize_problem(plugin_id, granted, method) == Some(
            "plugin "@ + plugin_id + (" called "@ + method + (" without the "@
                + capability::capability_name(needed) + " capability"@)),
        ),
        !granted.contains(needed) ==> forall|params: JsonModel| #[trigger]
            host_request(plugin_id, granted, method, params) is Err,
{
    method_names_differ();
}

/// A worker that may publish reaches the bus with its topic and payload as
/// they are, and with no topic outside its own.
pub proof fn publishes_carry_their_payload(
    plugin_id: Seq<char>,
    granted: Seq<Capability>,
    fields: Map<Seq<char>, JsonModel>,
    topic: Seq<char>,
    rest: Seq<char>,
)
    requires
        granted.contains(Capability::EventsPublish),
        fields.contains_key("topic"@),
        fields["topic"@] == JsonModel::Text(topic),
    ensures
        topic == "plugin."@ + plugin_id + "."@ + rest ==> host_request(
            plugin_id,
            granted,
            "events.publish"@,
            JsonModel::Object(fields),
        ) == Ok::<RequestModel, Seq<char>>(
            RequestModel::Publish {
                topic,
                payload: if fields.contains_key("payload"@) {
                    fields["payload"@]
                } else {
                    JsonModel::Null
                },
            },
        ),
        (forall|tail: Seq<char>| topic != #[trigger] ("plugin."@ + plugin_id + "."@ + tail))
            ==> host_request(plugin_id, granted, "events.publish"@, JsonModel::Object(fields))
            is Err,
{
    method_names_differ();
    let own = "plugin."@ + plugin_id + "."@;
    if topic == own + rest {
        assert(topic.take(own.len() as int) =~= own);
    }
    if own.is_prefix_of(topic) {
        let tail = topic.skip(own.len() as int);
        assert(topic =~= own + tail);
        assert(topic == "plugin."@ + plugin_id + "."@ + tail);
    }
}

/// A publish without a topic, a subscription without a list of topics and a
/// call on a session without its id or its value are refused.
pub proof fn incomplete_calls_are_refused(
    plugin_id: Seq<char>,
    granted: Seq<Capability>,
    fields: Map<Seq<char>, JsonModel>,
)
    ensures
        (fields.contains_key("topic"@) ==> !(fields["topic"@] is Text)) ==> host_request(
            plugin_id,
            granted,
            "events.publish"@,
            JsonModel::Object(fields),
        ) is Err,
        (fields.contains_key("topics"@) ==> !(fields["topics"@] is Array)) ==> host_request(
            plugin_id,
            granted,
            "events.subscribe"@,
            JsonModel::Object(fields),
        ) is Err,
        (fields.contains_key("session_id"@) ==> !(fields["session_id"@] is Text)) ==> host_request(
            plugin_id,
            granted,
            "session.meta.get"@,
            JsonModel::Object(fields),
        ) is Err && host_request(
            plugin_id,
            granted,
            "session.meta.set"@,
            JsonModel::Object(fields),
        ) is Err && host_request(
            plugin_id,
            granted,
            "session.meta.cas"@,
            JsonModel::Object(fields),
        ) is Err,
        !fields.contains_key("value"@) ==> host_request(
            plugin_id,
            granted,
            "session.meta.set"@,
            JsonModel::Object(fields),
        ) is Err && host_request(
            plugin_id,
            granted,
            "session.meta.cas"@,
            JsonModel::Object(fields),
        ) is Err,
        (fields.contains_key("contribution_id"@) ==> !(fields["contribution_id"@] is Text))
            ==> host_request(
            plugin_id,
            granted,
            "ui.state.set"@,
            JsonModel::Object(fields),
        ) is Err && host_request(
            plugin_id,
            granted,
            "ui.state.remove"@,
            JsonModel::Object(fields),
        ) is Err,
        (fields.contains_key("title"@) ==> !(fields["title"@] is Text)) ==> host_request(
            plugin_id,
            granted,
            "ui.notify"@,
            JsonModel::Object(fields),
        ) is Err,
        !fields.contains_key("payload"@) ==> host_request(
            plugin_id,
            granted,
            "ui.state.set"@,
            JsonModel::Object(fields),
        ) is Err,
{
    method_names_differ();
    ui_methods_need_no_capability();
}

/// A worker that may subscribe is forwarded the topics that it listed, all of
/// them and in their order, and what came after the number that it gave.
pub proof fn subscriptions_carry_their_topics(
    plugin_id: Seq<char>,
    granted: Seq<Capability>,
    fields: Map<Seq<char>, JsonModel>,
    items: Seq<JsonModel>,
)
    requires
        granted.contains(Capability::EventsSubscribe),
        fields.contains_key("topics"@),
        fields["topics"@] == JsonModel::Array(items),
    ensures
        ({
            let asked = host_request(
                plugin_id,
                granted,
                "events.subscribe"@,
                JsonModel::Object(fields),
            );
            &&& asked is Ok <==> forall|i: int|
                0 <= i < items.len() ==> #[trigger] items[i] is Text
            &&& asked matches Ok(request) ==> (request matches RequestModel::Subscribe {
                topics,
                after_seq,
            } && topics.len() == items.len() && (forall|i: int|
                0 <= i < items.len() ==> items[i] == JsonModel::Text(#[trigger] topics[i])) && after_seq == (if fields.contains_key("after_seq"@) {
                match fields["after_seq"@] {
                    JsonModel::Number(NumberModel::Unsigned(n)) => Some(n),
                    _ => None,
                }
            } else {
                None
            }))
        }),
{
    method_names_differ();
}

/// A worker that may read sessions lists them and reads the session that it
/// names.
pub proof fn reads_name_their_session(
    plugin_id: Seq<char>,
    granted: Seq<Capability>,
    fields: Map<Seq<char>, JsonModel>,
    session_id: Seq<char>,
)
    requires
        granted.contains(Capability::SessionsRead),
    ensures
        host_request(plugin_id, granted, "sessions.list"@, JsonModel::Object(fields)) == Ok::<
            RequestModel,
            Seq<char>,
        >(RequestModel::ListSessions),
        fields.contains_key("session_id"@) && fields["session_id"@] == JsonModel::Text(session_id)
            ==> host_request(
            plugin_id,
            granted,
            "session.meta.get"@,
            JsonModel::Object(fields),
        ) == Ok::<RequestModel, Seq<char>>(RequestModel::GetMeta { session_id }),
{
    method_names_differ();
}

/// A worker that may write sessions has its writes taken as they are: a plain
/// write expects nothing, and a compare-and-swap expects exactly what its
/// field `expected` holds, null only where there is no such field.
pub proof fn writes_carry_their_expectation(
    plugin_id: Seq<char>,
    granted: Seq<Capability>,
    fields: Map<Seq<char>, JsonModel>,
    session_id: Seq<char>,
)
    requires
        granted.contains(Capability::SessionsMetaWrite),
        fields.contains_key("session_id"@),
        fields["session_id"@] == JsonModel::Text(session_id),
        fields.contains_key("value"@),
    ensures
        host_request(plugin_id, granted, "session.meta.set"@, JsonModel::Object(fields)) == Ok::<
            RequestModel,
            Seq<char>,
        >(RequestModel::SetMeta { session_id, expected: None, value: fields["value"@] }),
        fields.contains_key("expected"@) ==> host_request(
            plugin_id,
            granted,
            "session.meta.cas"@,
            JsonModel::Object(fields),
        ) == Ok::<RequestModel, Seq<char>>(
            RequestModel::SetMeta {
                session_id,
                expected: Some(fields["expected"@]),
                value: fields["value"@],
            },
        ),
        !fields.contains_key("expected"@) ==> host_request(
            plugin_id,
            granted,
            "session.meta.cas"@,
            JsonModel::Object(fields),
        ) == Ok::<RequestModel, Seq<char>>(
            RequestModel::SetMeta {
                session_id,
                expected: Some(JsonModel::Null),
                value: fields["value"@],
            },
        ),
{
    method_names_differ();
}

/// Whether the session with this id stands at a place, no earlier one having
/// the id.
pub open spec fn stands_at(sessions: Seq<SessionModel>, session_id: Seq<char>, at: int) -> bool {
    &&& 0 <= at < sessions.len()
    &&& sessions[at].id == session_id
    &&& forall|j: int| 0 <= j < at ==> (#[trigger] sessions[j]).id != session_id
}

/// A read of a session gives the value that the plugin keeps in it, null where
/// it keeps none, and refuses a session that is not there.
pub proof fn reads_give_what_is_kept(
    sessions: Seq<SessionModel>,
    plugin_id: Seq<char>,
    session_id: Seq<char>,
    at: int,
)
    ensures
        0 <= at < sessions.len() && sessions[at].id == session_id && (forall|j: int|
            0 <= j < at ==> (#[trigger] sessions[j]).id != session_id) ==> ({
            let kept = sessions[at].plugin_meta;
            &&& kept.contains_key(plugin_id) ==> read_meta(sessions, plugin_id, session_id)
                == Ok::<JsonModel, Seq<char>>(kept[plugin_id])
            &&& !kept.contains_key(plugin_id) ==> read_meta(sessions, plugin_id, session_id)
                == Ok::<JsonModel, Seq<char>>(JsonModel::Null)
        }),
        (forall|j: int| 0 <= j < sessions.len() ==> (#[trigger] sessions[j]).id != session_id)
            ==> read_meta(sessions, plugin_id, session_id) == Err::<JsonModel, Seq<char>>(
            "unknown session "@ + session_id,
        ),
{
    session_place_bounds(sessions, session_id);
    if stands_at(sessions, session_id, at) {
        session_place_is(sessions, session_id, at);
    }
}

/// A compare-and-swap of a worker, end to end: it writes the value in its
/// field `value` exactly where what its plugin keeps in the session is what
/// the field `expected` holds, and keeps every session as it was elsewhere.
pub proof fn worker_swaps_compare(
    sessions: Seq<SessionModel>,
    plugin_id: Seq<char>,
    granted: Seq<Capability>,
    fields: Map<Seq<char>, JsonModel>,
    session_id: Seq<char>,
    at: int,
    kept: JsonModel,
    asked: RequestModel,
)
    requires
        granted.contains(Capability::SessionsMetaWrite),
        fields.contains_key("session_id"@),
        fields["session_id"@] == JsonModel::Text(session_id),
        fields.contains_key("value"@),
        fields.contains_key("expected"@),
        0 <= at < sessions.len(),
        sessions[at].id == session_id,
        forall|j: int| 0 <= j < at ==> (#[trigger] sessions[j]).id != session_id,
        sessions[at].plugin_meta.contains_key(plugin_id) ==> kept
            == sessions[at].plugin_meta[plugin_id],
        !sessions[at].plugin_meta.contains_key(plugin_id) ==> kept is Null,
        host_request(plugin_id, granted, "session.meta.cas"@, JsonModel::Object(fields)) == Ok::<
            RequestModel,
            Seq<char>,
        >(asked),
    ensures
        asked matches RequestModel::SetMeta { session_id: named, expected, value } && ({
            let (after, outcome) = meta_write(sessions, plugin_id, named, expected, value);
            let holds = json::json_eq(kept, fields["expected"@]);
            let written = fields["value"@];
            &&& holds ==> outcome == Ok::<MetaWriteModel, Seq<char>>(
                MetaWriteModel { swapped: true, current: written },
            )
            &&& !holds ==> outcome == Ok::<MetaWriteModel, Seq<char>>(
                MetaWriteModel { swapped: false, current: kept },
            )
            &&& !holds ==> after == sessions
            &&& holds ==> after.len() == sessions.len() && after[at].id == session_id
            &&& holds && written is Null ==> after[at].plugin_meta
                == sessions[at].plugin_meta.remove(plugin_id)
            &&& holds && !(written is Null) ==> after[at].plugin_meta
                == sessions[at].plugin_meta.insert(plugin_id, written)
            &&& forall|j: int|
                0 <= j < sessions.len() && j != at ==> #[trigger] after[j] == sessions[j]
        }),
{
    writes_carry_their_expectation(plugin_id, granted, fields, session_id);
    session_place_is(sessions, session_id, at);
}

/// A plain write always takes effect in the session that it names, and a write
/// to a session that is not there changes nothing.
pub proof fn plain_writes_take_effect(
    sessions: Seq<SessionModel>,
    plugin_id: Seq<char>,
    session_id: Seq<char>,
    value: JsonModel,
    at: int,
)
    ensures
        0 <= at < sessions.len() && sessions[at].id == session_id && (forall|j: int|
            0 <= j < at ==> (#[trigger] sessions[j]).id != session_id) ==> ({
            let (after, outcome) = meta_write(sessions, plugin_id, session_id, None, value);
            &&& outcome == Ok::<MetaWriteModel, Seq<char>>(
                MetaWriteModel { swapped: true, current: value },
            )
            &&& after.len() == sessions.len()
            &&& after[at].id == session_id
            &&& value is Null ==> after[at].plugin_meta == sessions[at].plugin_meta.remove(
                plugin_id,
            )
            &&& !(value is Null) ==> after[at].plugin_meta == sessions[at].plugin_meta.insert(
                plugin_id,
                value,
            )
            &&& forall|j: int|
                0 <= j < sessions.len() && j != at ==> #[trigger] after[j] == sessions[j]
        }),
        (forall|j: int| 0 <= j < sessions.len() ==> (#[trigger] sessions[j]).id != session_id)
            ==> (forall|expected: Option<JsonModel>| #[trigger]
            meta_write(sessions, plugin_id, session_id, expected, value) == (
                sessions,
                Err::<MetaWriteModel, Seq<char>>("unknown session "@ + session_id),
            )),
{
    session_place_bounds(sessions, session_id);
    if stands_at(sessions, session_id, at) {
        session_place_is(sessions, session_id, at);
    }
}

/// A push of a worker carries the contribution, the session, the time to live
/// and the payload that its parameters hold; a removal and a notification
/// carry theirs.
pub proof fn pushes_carry_their_parameters(
    plugin_id: Seq<char>,
    granted: Seq<Capability>,
    fields: Map<Seq<char>, JsonModel>,
    named: Seq<char>,
    session: Option<Seq<char>>,
    ttl: Option<u64>,
)
    requires
        match session {
            Some(id) => fields.contains_key("session_id"@) && fields["session_id"@]
                == JsonModel::Text(id),
            None => fields.contains_key("session_id"@) ==> !(fields["session_id"@] is Text),
        },
        match ttl {
            Some(ms) => fields.contains_key("ttl_ms"@) && fields["ttl_ms"@] == JsonModel::Number(
                NumberModel::Unsigned(ms),
            ),
            None => fields.contains_key("ttl_ms"@) ==> !(fields["ttl_ms"@] matches JsonModel::Number(
                NumberModel::Unsigned(_),
            )),
        },
    ensures
        fields.contains_key("contribution_id"@) && fields["contribution_id"@] == JsonModel::Text(
            named,
        ) && fields.contains_key("payload"@) ==> host_request(
            plugin_id,
            granted,
            "ui.state.set"@,
            JsonModel::Object(fields),
        ) == (match payload::payload_of(fields["payload"@]) {
            Some(payload) => Ok::<RequestModel, Seq<char>>(
                RequestModel::SetUiState {
                    contribution_id: named,
                    session_id: session,
                    ttl_ms: ttl,
                    payload,
                },
            ),
            None => Err("ui.state.set needs a valid payload"@),
        }),
        fields.contains_key("contribution_id"@) && fields["contribution_id"@] == JsonModel::Text(
            named,
        ) ==> host_request(plugin_id, granted, "ui.state.remove"@, JsonModel::Object(fields))
            == Ok::<RequestModel, Seq<char>>(
            RequestModel::RemoveUiState { contribution_id: named, session_id: session },
        ),
        fields.contains_key("title"@) && fields["title"@] == JsonModel::Text(named) ==> ({
            let asked = host_request(plugin_id, granted, "ui.notify"@, JsonModel::Object(fields));
            let given = |body: Seq<char>, severity: Severity|
                Ok::<RequestModel, Seq<char>>(
                    RequestModel::Notify { title: named, body, severity, session_id: session },
                );
            let plain = !fields.contains_key("severity"@);
            let bare = !fields.contains_key("body"@);
            &&& bare && plain ==> asked == given(seq![], Severity::Info)
            &&& !bare && plain ==> (fields["body"@] matches JsonModel::Text(body) ==> asked
                == given(body, Severity::Info))
            &&& !bare && !(fields["body"@] is Text) ==> asked is Err
            &&& bare && !plain && fields["severity"@] == JsonModel::Text("info"@) ==> asked
                == given(seq![], Severity::Info)
            &&& bare && !plain && fields["severity"@] == JsonModel::Text("success"@) ==> asked
                == given(seq![], Severity::Success)
            &&& bare && !plain && fields["severity"@] == JsonModel::Text("warning"@) ==> asked
                == given(seq![], Severity::Warning)
            &&& bare && !plain && fields["severity"@] == JsonModel::Text("error"@) ==> asked
                == given(seq![], Severity::Error)
        }),
{
    ui_methods_need_no_capability();
    reveal_strlit("info");
    reveal_strlit("success");
    reveal_strlit("warning");
    reveal_strlit("error");
    assert("info"@.len() == 4 && "success"@.len() == 7 && "warning"@.len() == 7 && "error"@.len()
        == 5);
    assert("success"@[0] == 's' && "warning"@[0] == 'w');
}

/// What a message carries is read off it by name: a request its number, its
/// method and its parameters, an answer its number and either the result or
/// the code and the text of the refusal, and nothing else.
pub proof fn messages_carry_their_parts(
    id: u64,
    method: Seq<char>,
    value: JsonModel,
    code: i64,
    problem: Seq<char>,
    name: Seq<char>,
)
    ensures
        ({
            let number = JsonModel::Number(NumberModel::Unsigned(id));
            let version = JsonModel::Text("2.0"@);
            &&& request_message(id, method, value) matches JsonModel::Object(fields)
                && fields.contains_key(name) == (name == "jsonrpc"@ || name == "id"@ || name
                == "method"@ || name == "params"@) && fields["jsonrpc"@] == version
                && fields["id"@] == number && fields["method"@] == JsonModel::Text(method)
                && fields["params"@] == value
            &&& reply_message(id, code, Ok(value)) matches JsonModel::Object(fields)
                && fields.contains_key(name) == (name == "jsonrpc"@ || name == "id"@ || name
                == "result"@) && fields["jsonrpc"@] == version && fields["id"@] == number
                && fields["result"@] == value
            &&& reply_message(id, code, Err(problem)) matches JsonModel::Object(fields)
                && fields.contains_key(name) == (name == "jsonrpc"@ || name == "id"@ || name
                == "error"@) && fields["jsonrpc"@] == version && fields["id"@] == number && (
            fields["error"@] matches JsonModel::Object(error) && error.contains_key(name) == (name
                == "code"@ || name == "message"@) && error["message"@] == JsonModel::Text(problem)
                && error["code"@] == JsonModel::Number(
                if code < 0 {
                    NumberModel::Negative(code)
                } else {
                    NumberModel::Unsigned(code as u64)
                },
            ))
        }),
{
    reveal_strlit("jsonrpc");
    reveal_strlit("id");
    reveal_strlit("method");
    reveal_strlit("params");
    reveal_strlit("result");
    reveal_strlit("error");
    reveal_strlit("code");
    reveal_strlit("message");
    assert("jsonrpc"@.len() == 7 && "id"@.len() == 2 && "method"@.len() == 6 && "params"@.len()
        == 6 && "result"@.len() == 6 && "error"@.len() == 5);
    assert("code"@.len() == 4 && "message"@.len() == 7);
    assert("method"@[0] == 'm' && "params"@[0] == 'p' && "result"@[0] == 'r');
}

/// The event that a worker gets carries its number, its topic and its payload.
pub proof fn events_carry_their_parts(event: BusEvent, name: Seq<char>)
    ensures
        event_message(event) matches JsonModel::Object(fields) && fields.contains_key(name) == (name
            == "jsonrpc"@ || name == "method"@ || name == "params"@) && fields["jsonrpc"@]
            == JsonModel::Text("2.0"@) && fields["method"@] == JsonModel::Text("events.event"@) && (
        fields["params"@] matches JsonModel::Object(params) && params.contains_key(name) == (name
            == "seq"@ || name == "topic"@ || name == "payload"@) && params["seq"@]
            == JsonModel::Number(NumberModel::Unsigned(event.seq)) && params["topic"@]
            == JsonModel::Text(event.topic@) && params["payload"@] == event.payload@),
{
    reveal_strlit("jsonrpc");
    reveal_strlit("method");
    reveal_strlit("params");
    reveal_strlit("seq");
    reveal_strlit("topic");
    reveal_strlit("payload");
    assert("jsonrpc"@.len() == 7 && "method"@.len() == 6 && "params"@.len() == 6);
    assert("seq"@.len() == 3 && "topic"@.len() == 5 && "payload"@.len() == 7);
    assert("method"@[0] == 'm' && "params"@[0] == 'p');
}

/// Whatever a worker sends: without a number it is ignored; under a number and
/// without a method it is an answer, which settles the call that waits under
/// the number and is ignored where none does; under a number and with a method
/// it is a call, which is performed or refused under that number.
pub proof fn messages_find_their_way(
    worker: WorkerModel,
    fields: Map<Seq<char>, JsonModel>,
    id: u64,
)
    ensures
        ({
            let msg = JsonModel::Object(fields);
            let numbered = fields.contains_key("id"@) && fields["id"@] == JsonModel::Number(
                NumberModel::Unsigned(id),
            );
            let calls = fields.contains_key("method"@) && fields["method"@] is Text;
            let params = if fields.contains_key("params"@) {
                fields["params"@]
            } else {
                JsonModel::Null
            };
            &&& (fields.contains_key("id"@) ==> !(fields["id"@] matches JsonModel::Number(
                NumberModel::Unsigned(_),
            ))) ==> routed(worker, msg) is Ignored && after_message(worker, msg) == worker
            &&& numbered && !calls && !worker.pending.contains(id) ==> routed(worker, msg)
                is Ignored && after_message(worker, msg) == worker
            &&& numbered && !calls && worker.pending.contains(id) && !fields.contains_key("error"@)
                ==> routed(worker, msg) == (DeliveryModel::Settle {
                id,
                outcome: Ok(
                    if fields.contains_key("result"@) {
                        fields["result"@]
                    } else {
                        JsonModel::Null
                    },
                ),
            })
            &&& numbered && !calls && worker.pending.contains(id) && fields.contains_key("error"@)
                ==> (routed(worker, msg) matches DeliveryModel::Settle { id: to, outcome } && to
                == id && outcome is Err)
            &&& numbered && calls ==> after_message(worker, msg) == worker && routed(worker, msg)
                == (match host_request(
                worker.plugin_id,
                worker.capabilities,
                fields["method"@]->Text_0,
                params,
            ) {
                Ok(request) => DeliveryModel::Perform { id, request },
                Err(problem) => DeliveryModel::Reply(
                    json::text_of_json(error_message(id, -32000int as i64, problem)),
                ),
            })
        }),
{
}

/// An error without a text is told as one that is unknown, and one with a text
/// by its text.
pub proof fn worker_errors_are_told(
    worker: WorkerModel,
    fields: Map<Seq<char>, JsonModel>,
    error: Map<Seq<char>, JsonModel>,
    id: u64,
)
    requires
        worker.pending.contains(id),
        fields.contains_key("id"@),
        fields["id"@] == JsonModel::Number(NumberModel::Unsigned(id)),
        !fields.contains_key("method"@),
        fields.contains_key("error"@),
        fields["error"@] == JsonModel::Object(error),
    ensures
        ({
            let got = routed(worker, JsonModel::Object(fields));
            &&& !error.contains_key("message"@) ==> got == (DeliveryModel::Settle {
                id,
                outcome: Err("unknown error"@),
            })
            &&& error.contains_key("message"@) ==> (error["message"@] matches JsonModel::Text(said)
                ==> got == (DeliveryModel::Settle { id, outcome: Err(said) }))
        }),
{
}

/// Settling a call, or giving it up, ends that call and leaves every other one
/// waiting, the worker as it was.
pub proof fn other_calls_go_on_waiting(worker: WorkerModel, id: u64, other: u64, msg: JsonModel)
    ensures
        without_call(worker, id).pending.contains(other) <==> worker.pending.contains(other)
            && other != id,
        without_call(worker, id).plugin_id == worker.plugin_id,
        without_call(worker, id).capabilities == worker.capabilities,
        without_call(worker, id).next_id == worker.next_id,
        without_call(worker, id).alive == worker.alive,
        routed(worker, msg) is Settle && routed(worker, msg)->Settle_id == id ==> after_message(
            worker,
            msg,
        ) == without_call(worker, id),
{
    let keep = other_than(id);
    let left = worker.pending.filter(keep);
    lists::filter_members(worker.pending, keep);
    if left.contains(other) {
        let k = choose|k: int| 0 <= k < left.len() && left[k] == other;
        worker.pending.lemma_filter_pred(keep, k);
        assert(worker.pending.contains(left[k]));
    }
    if worker.pending.contains(other) && other != id {
        let k = choose|k: int| 0 <= k < worker.pending.len() && worker.pending[k] == other;
        assert(keep(worker.pending[k]));
        worker.pending.lemma_filter_contains(keep, k);
    }
}

/// Every end of a call is told apart: an answer by what it holds, every failure
/// of the wire by its own text.
pub proof fn ends_are_told_apart(value: Json, message: String, secs: u64, nanos: u32)
    ensures
        call_outcome(CallEnd::Answered(Ok(value))) == Ok::<JsonModel, CallErrorModel>(value@),
        call_outcome(CallEnd::Answered(Err(message))) == Err::<JsonModel, CallErrorModel>(
            CallErrorModel::Rpc(message@),
        ),
        call_outcome(CallEnd::WriteFailed(message)) == Err::<JsonModel, CallErrorModel>(
            CallErrorModel::Wire("worker write failed: "@ + message@),
        ),
        call_outcome(CallEnd::TimedOut { secs, nanos }) == Err::<JsonModel, CallErrorModel>(
            CallErrorModel::Wire(
                "timed out after "@ + duration_text(secs, nanos) + "; worker killed"@,
            ),
        ),
        call_outcome(CallEnd::Disconnected) == Err::<JsonModel, CallErrorModel>(
            CallErrorModel::Wire("worker exited mid-call"@),
        ),
        call_outcome(CallEnd::Lost(WorkerLoss::Died)) == Err::<JsonModel, CallErrorModel>(
            CallErrorModel::Wire("worker died"@),
        ),
        call_outcome(CallEnd::Lost(WorkerLoss::ClosedOutput)) == Err::<JsonModel, CallErrorModel>(
            CallErrorModel::Wire("worker closed stdout"@),
        ),
{
}

/// A plugin that takes part is served by the worker that runs for it; where
/// none answers, it gets a new one as long as it had fewer than three.
pub proof fn active_plugins_are_served(
    host: HostModel,
    plugins: Seq<LoadedPlugin>,
    plugin_id: Seq<char>,
    alive: bool,
    at: int,
)
    requires
        0 <= at < plugins.len(),
        plugins[at].manifest.id@ == plugin_id,
        forall|j: int| 0 <= j < at ==> (#[trigger] plugins[j]).manifest.id@ != plugin_id,
    ensures
        ({
            let choice = worker_choice(host, plugins, plugin_id, alive);
            let running = host.workers.contains_key(plugin_id) && alive;
            let spawns = if host.spawn_counts.contains_key(plugin_id) {
                host.spawn_counts[plugin_id]
            } else {
                0
            };
            let takes_part = plugins[at].enabled && plugins[at].granted;
            &&& running ==> choice == Ok::<WorkerChoice, Seq<char>>(
                WorkerChoice::Running(host.workers[plugin_id]),
            )
            &&& !running && !takes_part ==> choice == Err::<WorkerChoice, Seq<char>>(
                "plugin "@ + plugin_id + " is not active"@,
            )
            &&& !running && takes_part && spawns < 3 ==> choice == Ok::<WorkerChoice, Seq<char>>(
                WorkerChoice::Spawn,
            )
            &&& !running && takes_part && spawns >= 3 ==> choice is Err
        }),
{
    registry::lookups_find_the_first(plugins, plugin_id, at);
}

/// A plugin that nobody knows gets no new worker.
pub proof fn unknown_plugins_are_not_served(
    host: HostModel,
    plugins: Seq<LoadedPlugin>,
    plugin_id: Seq<char>,
)
    requires
        forall|j: int| 0 <= j < plugins.len() ==> (#[trigger] plugins[j]).manifest.id@ != plugin_id,
    ensures
        worker_choice(host, plugins, plugin_id, false) is Err,
        !host.workers.contains_key(plugin_id) ==> worker_choice(host, plugins, plugin_id, true)
            is Err,
{
    registry::unknown_plugins_are_not_found(plugins, plugin_id);
}

/// A worker that died is forgotten, and no other plugin's worker nor any count
/// changes with it.
pub proof fn deaths_touch_one_plugin(
    host: HostModel,
    plugin_id: Seq<char>,
    worker: u64,
    other: Seq<char>,
)
    ensures
        ({
            let after = without_worker(host, plugin_id, worker);
            &&& after.spawn_counts == host.spawn_counts
            &&& after.last_worker == host.last_worker
            &&& host.workers.contains_key(plugin_id) && host.workers[plugin_id] == worker
                ==> !after.workers.contains_key(plugin_id)
            &&& other != plugin_id ==> after.workers.contains_key(other)
                == host.workers.contains_key(other)
            &&& other != plugin_id && host.workers.contains_key(other) ==> after.workers[other]
                == host.workers[other]
        }),
{
}

/// An installed plugin runs its own entrypoint below its directory, a plugin of
/// this binary the hidden subcommand under its id, and both get the arguments
/// that the manifest lists, all and in order.
pub proof fn plans_start_what_the_manifest_names(plugin: LoadedPlugin)
    ensures
        plugin.manifest.runtime is None ==> worker_plan(plugin) is Err,
        plugin.manifest.runtime matches Some(runtime) ==> ({
            let listed = runtime.args@;
            &&& plugin.root matches Some(dir) ==> (worker_plan(plugin) matches Ok(
                PlanModel::Installed { root, entrypoint, args },
            ) && root == dir@ && entrypoint == runtime.entrypoint@ && args.len() == listed.len()
                && forall|i: int| 0 <= i < args.len() ==> #[trigger] args[i] == listed[i]@)
            &&& plugin.root is None ==> (worker_plan(plugin) matches Ok(PlanModel::Builtin { args })
                && args.len() == listed.len() + 3 && args[0] == "__plugin-worker"@ && args[1]
                == "--id"@ && args[2] == plugin.manifest.id@ && forall|i: int|
                0 <= i < listed.len() ==> args[i + 3] == (#[trigger] listed[i])@)
        }),
{
}

/// A worker that lives gets every replayed event, and every live one that
/// matches and is newer than the last; it gets no other. The number of the
/// last event follows what it gets, and a lag is made up for from there.
pub proof fn live_workers_get_what_is_new(last_seq: u64, signal: BusSignal, life: WorkerLife)
    ensures
        ({
            let (next, step) = forward_step(last_seq, signal, life);
            &&& signal matches BusSignal::Replayed(event) ==> next == event.seq && (life is Gone
                ==> step is Stop) && (!(life is Gone) ==> step == ForwardModel::Send(
                json::text_of_json(event_message(event)),
            ))
            &&& signal matches BusSignal::Live { event, matches } ==> (event.seq > last_seq
                && matches ==> next == event.seq && (life is Alive ==> step == ForwardModel::Send(
                json::text_of_json(event_message(event)),
            )) && (!(life is Alive) ==> step is Stop)) && (event.seq <= last_seq || !matches ==> next
                == last_seq && step is Receive)
            &&& signal is ReplayEnded ==> next == last_seq && step is Receive
            &&& signal is Lagged ==> next == last_seq && step == (ForwardModel::Replay {
                after_seq: last_seq,
            })
            &&& signal is Closed ==> next == last_seq && step is Stop
        }),
{
}

/// A call that lacks a parameter, or has one of the wrong kind, is told which:
/// the first one that is missing, in the order in which they are looked at.
pub proof fn missing_parameters_are_named(
    plugin_id: Seq<char>,
    granted: Seq<Capability>,
    fields: Map<Seq<char>, JsonModel>,
    prefix: Seq<char>,
)
    ensures
        ({
            let params = JsonModel::Object(fields);
            let no_session = !fields.contains_key("session_id"@) || !(fields["session_id"@] is Text);
            let no_session_told = "missing string param "@ + text::debug_text("session_id"@);
            let reads = granted.contains(Capability::SessionsRead);
            let writes = granted.contains(Capability::SessionsMetaWrite);
            &&& granted.contains(Capability::EventsPublish) && (!fields.contains_key("topic"@) || !(
            fields["topic"@] is Text)) ==> host_request(
                plugin_id,
                granted,
                "events.publish"@,
                params,
            ) == Err::<RequestModel, Seq<char>>("events.publish needs a topic"@)
            &&& granted.contains(Capability::EventsPublish) && fields.contains_key("topic"@)
                && fields["topic"@] is Text && !("plugin."@ + plugin_id + "."@).is_prefix_of(
                fields["topic"@]->Text_0,
            ) ==> host_request(plugin_id, granted, "events.publish"@, params) == Err::<
                RequestModel,
                Seq<char>,
            >(
                "plugin "@ + plugin_id + (" may only publish under "@ + ("plugin."@ + plugin_id
                    + "."@) + "*"@),
            )
            &&& granted.contains(Capability::EventsSubscribe) && (!fields.contains_key("topics"@)
                || !(fields["topics"@] is Array)) ==> host_request(
                plugin_id,
                granted,
                "events.subscribe"@,
                params,
            ) == Err::<RequestModel, Seq<char>>("events.subscribe needs topics: [string]"@)
            &&& reads && no_session ==> host_request(
                plugin_id,
                granted,
                "session.meta.get"@,
                params,
            ) == Err::<RequestModel, Seq<char>>(no_session_told)
            &&& writes && no_session ==> host_request(
                plugin_id,
                granted,
                "session.meta.set"@,
                params,
            ) == Err::<RequestModel, Seq<char>>(no_session_told)
            &&& writes && no_session ==> host_request(
                plugin_id,
                granted,
                "session.meta.cas"@,
                params,
            ) == Err::<RequestModel, Seq<char>>(no_session_told)
            &&& writes && !no_session && !fields.contains_key("value"@) ==> host_request(
                plugin_id,
                granted,
                "session.meta.set"@,
                params,
            ) == Err::<RequestModel, Seq<char>>("session.meta.set"@ + " needs a value"@)
            &&& writes && !no_session && !fields.contains_key("value"@) ==> host_request(
                plugin_id,
                granted,
                "session.meta.cas"@,
                params,
            ) == Err::<RequestModel, Seq<char>>("session.meta.cas"@ + " needs a value"@)
        }),
{
    method_names_differ();
}

/// A push of UI state that lacks a parameter, or has one that cannot be read,
/// is told which.
pub proof fn missing_ui_parameters_are_named(
    plugin_id: Seq<char>,
    granted: Seq<Capability>,
    fields: Map<Seq<char>, JsonModel>,
)
    ensures
        ({
            let params = JsonModel::Object(fields);
            let no_title = !fields.contains_key("title"@) || !(fields["title"@] is Text);
            let no_contribution = !fields.contains_key("contribution_id"@) || !(
            fields["contribution_id"@] is Text);
            let bad_body = fields.contains_key("body"@) && !(fields["body"@] is Text);
            let told = "missing string param "@ + text::debug_text("contribution_id"@);
            &&& no_title ==> host_request(plugin_id, granted, "ui.notify"@, params) == Err::<
                RequestModel,
                Seq<char>,
            >("missing string param "@ + text::debug_text("title"@))
            &&& !no_title && bad_body ==> host_request(plugin_id, granted, "ui.notify"@, params)
                == Err::<RequestModel, Seq<char>>("ui.notify body must be a string"@)
            &&& !no_title && !bad_body && fields.contains_key("severity"@)
                && payload::severity_given(Some(fields["severity"@])) is None ==> host_request(
                plugin_id,
                granted,
                "ui.notify"@,
                params,
            ) == Err::<RequestModel, Seq<char>>(
                "ui.notify severity must be info, success, warning or error"@,
            )
            &&& no_contribution ==> host_request(plugin_id, granted, "ui.state.set"@, params)
                == Err::<RequestModel, Seq<char>>(told)
            &&& no_contribution ==> host_request(plugin_id, granted, "ui.state.remove"@, params)
                == Err::<RequestModel, Seq<char>>(told)
            &&& !no_contribution && !fields.contains_key("payload"@) ==> host_request(
                plugin_id,
                granted,
                "ui.state.set"@,
                params,
            ) == Err::<RequestModel, Seq<char>>("ui.state.set needs a valid payload"@)
            &&& !no_contribution && fields.contains_key("payload"@) && payload::payload_of(
                fields["payload"@],
            ) is None ==> host_request(plugin_id, granted, "ui.state.set"@, params) == Err::<
                RequestModel,
                Seq<char>,
            >("ui.state.set needs a valid payload"@)
        }),
{
    reveal_strlit("ui.notify");
    reveal_strlit("ui.state.set");
    reveal_strlit("ui.state.remove");
    assert("ui.notify"@.len() == 9 && "ui.state.set"@.len() == 12 && "ui.state.remove"@.len() == 15);
    assert(payload::payload_of(JsonModel::Null) is None);
    method_names_differ();
}

/// A call of a method that the host does not have is told so, whatever the
/// plugin was granted.
pub proof fn unknown_methods_are_named(
    plugin_id: Seq<char>,
    granted: Seq<Capability>,
    method: Seq<char>,
    params: JsonModel,
)
    requires
        method != "events.publish"@,
        method != "events.subscribe"@,
        method != "sessions.list"@,
        method != "session.meta.get"@,
        method != "session.meta.set"@,
        method != "session.meta.cas"@,
        method != "ui.state.set"@,
        method != "ui.state.remove"@,
        method != "ui.notify"@,
    ensures
        host_request(plugin_id, granted, method, params) == Err::<RequestModel, Seq<char>>(
            "unknown host method "@ + text::debug_text(method),
        ),
{
}

/// A plugin without a worker is told why it gets none: it does not take part,
/// or it had its three.
pub proof fn refused_workers_are_explained(
    host: HostModel,
    plugins: Seq<LoadedPlugin>,
    plugin_id: Seq<char>,
    alive: bool,
)
    ensures
        worker_choice(host, plugins, plugin_id, alive) matches Err(message) ==> ({
            &&& registry::find_active(plugins, plugin_id) is None ==> message == "plugin "@
                + plugin_id + " is not active"@
            &&& registry::find_active(plugins, plugin_id) is Some ==> message == "plugin "@
                + plugin_id
                + " worker crashed 3 times; not respawning (disable and re-enable the plugin to reset)"@
        }),
{
}

/// Spawns are counted from none, plugin by plugin.
pub proof fn spawns_are_counted_from_none(
    host: HostModel,
    plugin_id: Seq<char>,
    other: Seq<char>,
    n: u32,
)
    ensures
        !host.spawn_counts.contains_key(plugin_id) ==> spawns_of(host, plugin_id) == 0,
        ({
            let after = HostModel { spawn_counts: host.spawn_counts.insert(plugin_id, n), ..host };
            &&& spawns_of(after, plugin_id) == n
            &&& other != plugin_id ==> spawns_of(after, other) == spawns_of(host, other)
        }),
{
}

/// What contracts say of a checked request are all its parts.
pub proof fn request_models_are_faithful(
    name: String,
    said: String,
    session: Option<String>,
    value: Json,
    expected: Option<Json>,
    topics: Vec<String>,
    after_seq: Option<u64>,
    ttl_ms: Option<u64>,
    payload: UiPayload,
    severity: Severity,
)
    ensures
        (HostRequest::Publish { topic: name, payload: value })@ == (RequestModel::Publish {
            topic: name@,
            payload: value@,
        }),
        (HostRequest::Subscribe { topics, after_seq })@ == (RequestModel::Subscribe {
            topics: text::texts(topics@),
            after_seq,
        }),
        HostRequest::ListSessions@ is ListSessions,
        (HostRequest::GetMeta { session_id: name })@ == (RequestModel::GetMeta {
            session_id: name@,
        }),
        (HostRequest::SetMeta { session_id: name, expected, value })@ == (RequestModel::SetMeta {
            session_id: name@,
            expected: match expected {
                Some(json) => Some(json@),
                None => None,
            },
            value: value@,
        }),
        (HostRequest::SetUiState { contribution_id: name, session_id: session, ttl_ms, payload })@
            == (RequestModel::SetUiState {
            contribution_id: name@,
            session_id: text::optional_text(session),
            ttl_ms,
            payload: payload@,
        }),
        (HostRequest::RemoveUiState { contribution_id: name, session_id: session })@ == (
        RequestModel::RemoveUiState {
            contribution_id: name@,
            session_id: text::optional_text(session),
        }),
        (HostRequest::Notify { title: name, body: said, severity, session_id: session })@ == (
        RequestModel::Notify {
            title: name@,
            body: said@,
            severity,
            session_id: text::optional_text(session),
        }),
{
}

/// What contracts say of results tells a success from a refusal, with what
/// either holds.
pub proof fn outcome_models_are_faithful(
    request: HostRequest,
    message: String,
    value: Json,
    written: MetaWriteOutcome,
    choice: WorkerChoice,
)
    ensures
        request_outcome(Ok(request)) == Ok::<RequestModel, Seq<char>>(request@),
        request_outcome(Err(message)) == Err::<RequestModel, Seq<char>>(message@),
        outcome_model(Ok(value)) == Ok::<JsonModel, Seq<char>>(value@),
        outcome_model(Err(message)) == Err::<JsonModel, Seq<char>>(message@),
        write_outcome(Ok(written)) == Ok::<MetaWriteModel, Seq<char>>(
            MetaWriteModel { swapped: written.swapped, current: written.current@ },
        ),
        write_outcome(Err(message)) == Err::<MetaWriteModel, Seq<char>>(message@),
        call_model(Ok(value)) == Ok::<JsonModel, CallErrorModel>(value@),
        call_model(Err(CallError::Wire(message))) == Err::<JsonModel, CallErrorModel>(
            CallErrorModel::Wire(message@),
        ),
        call_model(Err(CallError::Rpc(message))) == Err::<JsonModel, CallErrorModel>(
            CallErrorModel::Rpc(message@),
        ),
        call_error_text(CallErrorModel::Wire(message@)) == message@,
        call_error_text(CallErrorModel::Rpc(message@)) == message@,
        choice_model(Ok(choice)) == Ok::<WorkerChoice, Seq<char>>(choice),
        choice_model(Err(message)) == Err::<WorkerChoice, Seq<char>>(message@),
{
}

/// What contracts say of sessions, of what becomes of a message, of how a worker
/// is started and of what is forwarded are all their parts.
pub proof fn host_models_are_faithful(
    sessions: Seq<SessionRecord>,
    i: int,
    plugin_id: Seq<char>,
    id: u64,
    outcome: Result<Json, String>,
    line: String,
    request: HostRequest,
    root: String,
    args: Vec<String>,
    after_seq: u64,
)
    ensures
        session_models(sessions).len() == sessions.len(),
        0 <= i < sessions.len() ==> ({
            let session = session_models(sessions)[i];
            let meta = sessions[i].plugin_meta@;
            &&& session.id == sessions[i].id@
            &&& session.plugin_meta.contains_key(plugin_id) == meta.contains_key(plugin_id)
            &&& meta.contains_key(plugin_id) ==> session.plugin_meta[plugin_id]
                == meta[plugin_id]@
        }),
        (Delivery::Settle { id, outcome })@ == (DeliveryModel::Settle {
            id,
            outcome: outcome_model(outcome),
        }),
        Delivery::Reply(line)@ == DeliveryModel::Reply(line@),
        (Delivery::Perform { id, request })@ == (DeliveryModel::Perform { id, request: request@ }),
        Delivery::Ignored@ is Ignored,
        (WorkerPlan::Installed { root, entrypoint: line, args })@ == (PlanModel::Installed {
            root: root@,
            entrypoint: line@,
            args: text::texts(args@),
        }),
        (WorkerPlan::Builtin { args })@ == (PlanModel::Builtin { args: text::texts(args@) }),
        ForwardStep::Send(line)@ == ForwardModel::Send(line@),
        (ForwardStep::Replay { after_seq })@ == (ForwardModel::Replay { after_seq }),
        ForwardStep::Receive@ is Receive,
        ForwardStep::Stop@ is Stop,
{
}

/// A plugin that does not say what to run is told so.
pub proof fn plans_need_a_runtime(plugin: LoadedPlugin)
    ensures
        plugin.manifest.runtime is None ==> worker_plan(plugin) == Err::<PlanModel, Seq<char>>(
            "plugin "@ + plugin.manifest.id@ + " declares no [runtime] section"@,
        ),
        plugin.manifest.runtime is Some ==> worker_plan(plugin) is Ok,
{
}

} // verus!
