//! Hidden `aoe __plugin-worker --id <id>`: the worker for builtin plugins. A
//! single installed binary ships every first-party worker; the plugin host
//! spawns this subcommand with piped stdio and speaks ndjson JSON-RPC.
//!
//! Workers exit on stdin EOF, which is how the host (or a crashed host's
//! closed pipe) shuts them down. This module takes one line and says what to
//! answer; the status of a pane is looked up by the caller in between.

use vstd::prelude::*;

use crate::json;
use crate::json::parse_json;
use crate::json::Json;
use crate::json::JsonModel;
use crate::plugin::host;
use crate::plugin::host::reply_line;
use crate::text;
use crate::text::concat2;
use crate::text::concat3;
use crate::text::debug_of;
use crate::text::is_blank;
use crate::text::same_text;

verus! {

/// What the worker was started with.
#[derive(Debug)]
pub struct PluginWorkerArgs {
    /// Builtin plugin id this worker serves, e.g. `aoe.status`.
    pub id: String,
}

/// The code of a worker's refusals.
pub const METHOD_NOT_FOUND: i64 = -32601;

/// A string field, empty where there is none.
pub open spec fn text_or_empty(value: JsonModel, key: Seq<char>) -> Seq<char> {
    match json::text_field(value, key) {
        Some(s) => s,
        None => seq![],
    }
}

fn text_or(value: &Json, key: &str) -> (r: String)
    ensures
        r@ == text_or_empty(value@, key@),
{
    match value.text_at(key) {
        Some(s) => s,
        None => {
            let empty = String::new();
            assert(empty@ =~= seq![]);
            empty
        },
    }
}

/// Whether the worker serves a method: the status plugin detects batches.
pub open spec fn serves(plugin_id: Seq<char>, method: Seq<char>) -> bool {
    plugin_id == "aoe.status"@ && method == "status.detect_batch"@
}

/// Why a method is refused, or `None` where it is served.
pub open spec fn method_problem(plugin_id: Seq<char>, method: Seq<char>) -> Option<Seq<char>> {
    if serves(plugin_id, method) {
        None
    } else {
        Some("builtin worker "@ + plugin_id + (" does not handle "@ + method))
    }
}

/// Refuse every method that the worker does not serve.
pub fn handle(plugin_id: &str, method: &str) -> (r: Result<(), String>)
    ensures
        text::refusal(r) == method_problem(plugin_id@, method@),
{
    if same_text(plugin_id, "aoe.status") && same_text(method, "status.detect_batch") {
        Ok(())
    } else {
        let what = concat2(" does not handle ", method);
        Err(concat3("builtin worker ", plugin_id, what.as_str()))
    }
}

/// The snapshots of a batch.
pub open spec fn snapshots_of(params: JsonModel) -> Seq<JsonModel> {
    match json::field(params, "snapshots"@) {
        Some(JsonModel::Array(items)) => items,
        _ => seq![],
    }
}

/// Whether a snapshot is of an agent whose panes can be read.
pub open spec fn is_readable(snapshot: JsonModel) -> bool {
    text_or_empty(snapshot, "agent"@) == "codex"@
}

/// The pane texts of the snapshots that can be read, in order.
pub open spec fn readable_panes(snapshots: Seq<JsonModel>) -> Seq<Seq<char>>
    decreases snapshots.len(),
{
    if snapshots.len() == 0 {
        seq![]
    } else {
        let head = readable_panes(snapshots.drop_last());
        if is_readable(snapshots.last()) {
            head.push(text_or_empty(snapshots.last(), "pane_text"@))
        } else {
            head
        }
    }
}

/// The result for one snapshot: the status of a pane that can be read, an
/// error for any other agent.
pub open spec fn snapshot_result(snapshot: JsonModel, status: Seq<char>) -> JsonModel {
    let session = JsonModel::Text(text_or_empty(snapshot, "session_id"@));
    if is_readable(snapshot) {
        JsonModel::Object(
            map!["session_id"@ => session, "status"@ => JsonModel::Text(status)],
        )
    } else {
        JsonModel::Object(
            map![
                "session_id"@ => session,
                "error"@ => JsonModel::Text(
                    "aoe.status worker has no parser for agent "@ + text::debug_text(
                        text_or_empty(snapshot, "agent"@),
                    ),
                ),
            ],
        )
    }
}

/// One result per snapshot; the statuses belong to the snapshots that can be
/// read, in order.
pub open spec fn batch_results(
    snapshots: Seq<JsonModel>,
    statuses: Seq<Seq<char>>,
) -> Seq<JsonModel> {
    Seq::new(
        snapshots.len(),
        |i: int|
            snapshot_result(snapshots[i], statuses[readable_panes(snapshots.take(i)).len() as int]),
    )
}

fn elements(params: &Json) -> (r: Vec<Json>)
    ensures
        json::items_model(r@) == snapshots_of(params@),
{
    let found = match params.get("snapshots") {
        Some(value) => match value.as_array() {
            Some(_) => value.clone(),
            None => Json::Null,
        },
        None => Json::Null,
    };
    match found {
        Json::Array(items) => items,
        _ => {
            let none: Vec<Json> = Vec::new();
            none
        },
    }
}

/// The pane texts whose status a batch asks for, in order.
pub fn panes_to_detect(params: &Json) -> (r: Vec<String>)
    ensures
        text::texts(r@) == readable_panes(snapshots_of(params@)),
{
    let snapshots = elements(params);
    let ghost all = json::items_model(snapshots@);
    proof {
        json::items_model_index(snapshots@);
    }
    let mut out: Vec<String> = Vec::new();
    let mut i: usize = 0;
    assert(text::texts(out@) =~= readable_panes(all.take(0)));
    while i < snapshots.len()
        invariant
            i <= snapshots.len(),
            all.len() == snapshots.len(),
            forall|j: int| 0 <= j < all.len() ==> #[trigger] all[j] == snapshots@[j]@,
            text::texts(out@) == readable_panes(all.take(i as int)),
        decreases snapshots.len() - i,
    {
        assert(all.take(i + 1).drop_last() =~= all.take(i as int));
        assert(all.take(i + 1).last() == snapshots@[i as int]@);
        let agent = text_or(&snapshots[i], "agent");
        if same_text(agent.as_str(), "codex") {
            let ghost before = text::texts(out@);
            let pane = text_or(&snapshots[i], "pane_text");
            let ghost model = pane@;
            out.push(pane);
            assert(text::texts(out@) =~= before.push(model));
        }
        i += 1;
    }
    assert(all.take(i as int) =~= all);
    out
}

proof fn fewer_panes_before(snapshots: Seq<JsonModel>, i: int)
    requires
        0 <= i < snapshots.len(),
        is_readable(snapshots[i]),
    ensures
        readable_panes(snapshots.take(i)).len() < readable_panes(snapshots).len(),
    decreases snapshots.len(),
{
    let head = snapshots.drop_last();
    if i < head.len() {
        fewer_panes_before(head, i);
        assert(head.take(i) =~= snapshots.take(i));
    } else {
        assert(snapshots.take(i) =~= head);
    }
}

/// Batched codex detection: one result per snapshot, errors isolated per
/// snapshot so one bad pane never fails its siblings. `statuses` holds the
/// status of each text of [`panes_to_detect`].
pub fn detect_batch(params: &Json, statuses: &Vec<String>) -> (r: Json)
    requires
        statuses.len() == readable_panes(snapshots_of(params@)).len(),
    ensures
        r@ == JsonModel::Object(
            map![
                "results"@ => JsonModel::Array(
                    batch_results(snapshots_of(params@), text::texts(statuses@)),
                ),
            ],
        ),
{
    let snapshots = elements(params);
    let ghost all = json::items_model(snapshots@);
    let ghost given = text::texts(statuses@);
    proof {
        json::items_model_index(snapshots@);
    }
    let mut results: Vec<Json> = Vec::new();
    let mut next: usize = 0;
    let mut i: usize = 0;
    assert(readable_panes(all.take(0)).len() == 0);
    assert(json::items_model(results@) =~= batch_results(all, given).take(0));
    while i < snapshots.len()
        invariant
            i <= snapshots.len(),
            all.len() == snapshots.len(),
            forall|j: int| 0 <= j < all.len() ==> #[trigger] all[j] == snapshots@[j]@,
            given == text::texts(statuses@),
            statuses.len() == readable_panes(all).len(),
            next == readable_panes(all.take(i as int)).len(),
            json::items_model(results@) == batch_results(all, given).take(i as int),
        decreases snapshots.len() - i,
    {
        assert(all.take(i + 1).drop_last() =~= all.take(i as int));
        assert(all.take(i + 1).last() == snapshots@[i as int]@);
        let snapshot = &snapshots[i];
        let head = Json::empty_object().with(
            "session_id",
            Json::Text(text_or(snapshot, "session_id")),
        );
        let agent = text_or(snapshot, "agent");
        let result = if same_text(agent.as_str(), "codex") {
            proof {
                fewer_panes_before(all, i as int);
            }
            let status = statuses[next].clone();
            next += 1;
            head.with("status", Json::Text(status))
        } else {
            let shown = debug_of(agent.as_str());
            let message = concat2("aoe.status worker has no parser for agent ", shown.as_str());
            head.with("error", Json::Text(message))
        };
        let ghost wanted = batch_results(all, given);
        assert(result@ == wanted[i as int]);
        let ghost before = results@;
        results.push(result);
        assert(results@.drop_last() =~= before);
        assert(wanted.take(i + 1) =~= wanted.take(i as int).push(wanted[i as int]));
        i += 1;
    }
    let ghost wanted = batch_results(all, given);
    assert(wanted.take(i as int) =~= wanted);
    Json::empty_object().with("results", Json::Array(results))
}

/// What to do about a line.
#[derive(Debug)]
pub enum WorkerTask {
    /// Nothing: a blank line, no JSON, or a notification.
    Skip,
    /// Write this refusal.
    Refuse(String),
    /// Look up the statuses of [`panes_to_detect`], then write the line of
    /// [`batch_reply`].
    Detect { id: u64, params: Json },
}

/// What contracts say of a task.
pub enum TaskModel {
    Skip,
    Refuse(Seq<char>),
    Detect { id: u64, params: JsonModel },
}

impl View for WorkerTask {
    type V = TaskModel;

    open spec fn view(&self) -> TaskModel {
        match *self {
            WorkerTask::Skip => TaskModel::Skip,
            WorkerTask::Refuse(line) => TaskModel::Refuse(line@),
            WorkerTask::Detect { id, params } => TaskModel::Detect { id, params: params@ },
        }
    }
}

/// What a message asks of the worker. Notifications need no reply.
pub open spec fn task_of(plugin_id: Seq<char>, msg: JsonModel) -> TaskModel {
    match json::u64_field(msg, "id"@) {
        None => TaskModel::Skip,
        Some(id) => match method_problem(plugin_id, text_or_empty(msg, "method"@)) {
            Some(problem) => TaskModel::Refuse(
                json::text_of_json(host::error_message(id, METHOD_NOT_FOUND, problem)),
            ),
            None => TaskModel::Detect { id, params: json::field_or_null(msg, "params"@) },
        },
    }
}

/// What a line asks of the worker.
pub open spec fn line_task(plugin_id: Seq<char>, line: Seq<char>) -> TaskModel {
    if text::blank(line) {
        TaskModel::Skip
    } else {
        match json::json_of_text(line) {
            Some(msg) => task_of(plugin_id, msg),
            None => TaskModel::Skip,
        }
    }
}

/// Take in one message.
pub fn take_message(args: &PluginWorkerArgs, msg: &Json) -> (r: WorkerTask)
    ensures
        r@ == task_of(args.id@, msg@),
{
    let id = match msg.u64_at("id") {
        Some(id) => id,
        None => {
            return WorkerTask::Skip;
        },
    };
    let method = text_or(msg, "method");
    match handle(args.id.as_str(), method.as_str()) {
        Ok(_) => WorkerTask::Detect { id, params: msg.at_or_null("params") },
        Err(problem) => WorkerTask::Refuse(reply_line(id, METHOD_NOT_FOUND, Err(problem))),
    }
}

/// Take in one line.
pub fn take_line(args: &PluginWorkerArgs, line: &str) -> (r: WorkerTask)
    ensures
        r@ == line_task(args.id@, line@),
{
    if is_blank(line) {
        return WorkerTask::Skip;
    }
    match parse_json(line) {
        Some(msg) => take_message(args, &msg),
        None => WorkerTask::Skip,
    }
}

/// The line that answers a batch.
pub fn batch_reply(id: u64, params: &Json, statuses: &Vec<String>) -> (r: String)
    requires
        statuses.len() == readable_panes(snapshots_of(params@)).len(),
    ensures
        r@ == json::text_of_json(
            host::result_message(
                id,
                JsonModel::Object(
                    map![
                        "results"@ => JsonModel::Array(
                            batch_results(snapshots_of(params@), text::texts(statuses@)),
                        ),
                    ],
                ),
            ),
        ),
        !r@.contains('\n'),
{
    reply_line(id, METHOD_NOT_FOUND, Ok(detect_batch(params, statuses)))
}

/// Every snapshot gets one result under its own session, whatever the others
/// are: the result of one depends on that snapshot and its status alone.
pub proof fn snapshots_are_isolated(snapshots: Seq<JsonModel>, statuses: Seq<Seq<char>>, i: int)
    requires
        0 <= i < snapshots.len(),
        statuses.len() == readable_panes(snapshots).len(),
    ensures
        batch_results(snapshots, statuses).len() == snapshots.len(),
        json::text_field(batch_results(snapshots, statuses)[i], "session_id"@) == Some(
            text_or_empty(snapshots[i], "session_id"@),
        ),
        exists|status: Seq<char>|
            batch_results(snapshots, statuses)[i] == #[trigger] snapshot_result(
                snapshots[i],
                status,
            ) && (is_readable(snapshots[i]) ==> statuses.contains(status)),
{
    reveal_strlit("session_id");
    reveal_strlit("status");
    reveal_strlit("error");
    assert("session_id"@.len() == 10 && "status"@.len() == 6 && "error"@.len() == 5);
    let at = readable_panes(snapshots.take(i)).len() as int;
    assert(batch_results(snapshots, statuses)[i] == snapshot_result(snapshots[i], statuses[at]));
    if is_readable(snapshots[i]) {
        fewer_panes_before(snapshots, i);
        assert(statuses.contains(statuses[at]));
    }
}

/// The worker serves the detection of batches for the status plugin and refuses
/// everything else, saying what it was asked.
pub proof fn only_batches_are_served(plugin_id: Seq<char>, method: Seq<char>)
    ensures
        method_problem("aoe.status"@, "status.detect_batch"@) is None,
        plugin_id != "aoe.status"@ || method != "status.detect_batch"@ ==> method_problem(
            plugin_id,
            method,
        ) == Some("builtin worker "@ + plugin_id + (" does not handle "@ + method)),
{
}

/// A message without a number asks nothing; a request of the served method asks
/// for its parameters to be looked at, and any other one is refused under its
/// number.
pub proof fn requests_are_told_apart(
    plugin_id: Seq<char>,
    fields: Map<Seq<char>, JsonModel>,
    id: u64,
)
    ensures
        ({
            let msg = JsonModel::Object(fields);
            let numbered = fields.contains_key("id"@) && fields["id"@] == JsonModel::Number(
                json::NumberModel::Unsigned(id),
            );
            let method = if fields.contains_key("method"@) && fields["method"@] is Text {
                fields["method"@]->Text_0
            } else {
                Seq::empty()
            };
            let params = if fields.contains_key("params"@) {
                fields["params"@]
            } else {
                JsonModel::Null
            };
            let served = plugin_id == "aoe.status"@ && method == "status.detect_batch"@;
            &&& !fields.contains_key("id"@) ==> task_of(plugin_id, msg) is Skip
            &&& numbered && served ==> task_of(plugin_id, msg) == (TaskModel::Detect { id, params })
            &&& numbered && !served ==> task_of(plugin_id, msg) == TaskModel::Refuse(
                json::text_of_json(
                    host::error_message(
                        id,
                        -32601int as i64,
                        "builtin worker "@ + plugin_id + (" does not handle "@ + method),
                    ),
                ),
            )
        }),
{
    assert(seq![] =~= Seq::<char>::empty());
}

/// A blank line and one that is no JSON ask nothing; any other line asks what
/// its message does.
pub proof fn lines_ask_what_they_hold(plugin_id: Seq<char>, line: Seq<char>)
    ensures
        (forall|j: int| 0 <= j < line.len() ==> text::white_space(#[trigger] line[j]))
            ==> line_task(plugin_id, line) is Skip,
        json::json_of_text(line) is None ==> line_task(plugin_id, line) is Skip,
        (exists|j: int| 0 <= j < line.len() && !text::white_space(#[trigger] line[j])) ==> (
        json::json_of_text(line) matches Some(msg) ==> line_task(plugin_id, line) == task_of(
            plugin_id,
            msg,
        )),
{
}

/// The snapshots of a batch are those under `snapshots`, all and in order, and
/// none where there is no such list.
pub proof fn batches_hold_their_snapshots(
    fields: Map<Seq<char>, JsonModel>,
    items: Seq<JsonModel>,
)
    ensures
        fields.contains_key("snapshots"@) && fields["snapshots"@] == JsonModel::Array(items)
            ==> snapshots_of(JsonModel::Object(fields)) == items,
        !fields.contains_key("snapshots"@) ==> snapshots_of(JsonModel::Object(fields)).len() == 0,
{
}

/// Each snapshot is taken by itself: one of codex adds its pane text to those
/// to be read, and its result holds the session and the status that was read
/// for it; one of another agent adds nothing, and its result holds the session
/// and an error. The results of the others stay as they are.
pub proof fn snapshots_are_answered_one_by_one(
    before: Seq<JsonModel>,
    snapshot: Map<Seq<char>, JsonModel>,
    session: Seq<char>,
    agent: Seq<char>,
    pane: Seq<char>,
    statuses: Seq<Seq<char>>,
)
    requires
        snapshot.contains_key("session_id"@),
        snapshot["session_id"@] == JsonModel::Text(session),
        snapshot.contains_key("agent"@),
        snapshot["agent"@] == JsonModel::Text(agent),
        snapshot.contains_key("pane_text"@),
        snapshot["pane_text"@] == JsonModel::Text(pane),
    ensures
        ({
            let all = before.push(JsonModel::Object(snapshot));
            let results = batch_results(all, statuses);
            let read = readable_panes(before);
            &&& results.len() == before.len() + 1
            &&& results.take(before.len() as int) == batch_results(before, statuses)
            &&& agent == "codex"@ ==> readable_panes(all) == read.push(pane)
            &&& agent == "codex"@ ==> results[before.len() as int] == JsonModel::Object(
                map![
                    "session_id"@ => JsonModel::Text(session),
                    "status"@ => JsonModel::Text(statuses[read.len() as int]),
                ],
            )
            &&& agent != "codex"@ ==> readable_panes(all) == read
            &&& agent != "codex"@ ==> (results[before.len() as int] matches JsonModel::Object(result)
                && !result.contains_key("status"@) && result["session_id"@] == JsonModel::Text(
                session,
            ) && result.contains_key("error"@) && result["error"@] is Text)
        }),
{
    reveal_strlit("session_id");
    reveal_strlit("status");
    reveal_strlit("error");
    assert("session_id"@.len() == 10 && "status"@.len() == 6 && "error"@.len() == 5);
    let all = before.push(JsonModel::Object(snapshot));
    assert(all.drop_last() =~= before);
    assert(all.take(before.len() as int) =~= before);
    assert forall|i: int| 0 <= i < before.len() implies all.take(i) == #[trigger] before.take(i) by {
        assert(all.take(i) =~= before.take(i));
    }
    assert(batch_results(all, statuses).take(before.len() as int) =~= batch_results(
        before,
        statuses,
    ));
}

/// A snapshot of an agent that cannot be read is answered with the agent's
/// name.
pub proof fn unreadable_agents_are_named(
    snapshots: Seq<JsonModel>,
    i: int,
    snapshot: Map<Seq<char>, JsonModel>,
    agent: Seq<char>,
    statuses: Seq<Seq<char>>,
)
    requires
        0 <= i < snapshots.len(),
        snapshots[i] == JsonModel::Object(snapshot),
        agent != "codex"@,
        snapshot.contains_key("agent"@),
        snapshot["agent"@] == JsonModel::Text(agent),
    ensures
        batch_results(snapshots, statuses)[i] matches JsonModel::Object(result)
            && result.contains_key("error"@) && result["error"@] == JsonModel::Text(
            "aoe.status worker has no parser for agent "@ + text::debug_text(agent),
        ),
{
    reveal_strlit("session_id");
    reveal_strlit("error");
    assert("session_id"@.len() == 10 && "error"@.len() == 5);
}

/// What contracts say of a task is the task and what it holds.
pub proof fn task_models_are_faithful(line: String, id: u64, params: Json)
    ensures
        WorkerTask::Skip@ is Skip,
        WorkerTask::Refuse(line)@ == TaskModel::Refuse(line@),
        (WorkerTask::Detect { id, params })@ == (TaskModel::Detect { id, params: params@ }),
{
}

} // verus!
