use aoe::cli::plugin_worker::batch_reply;
use aoe::cli::plugin_worker::detect_batch;
use aoe::cli::plugin_worker::handle;
use aoe::cli::plugin_worker::panes_to_detect;
use aoe::cli::plugin_worker::take_line;
use aoe::cli::plugin_worker::PluginWorkerArgs;
use aoe::cli::plugin_worker::WorkerTask;
use aoe::json::parse_json;
use aoe::json::same_json;

#[test]
fn detect_batch_isolates_per_snapshot_errors() {
    let params = parse_json(
        "{\"snapshots\":[{\"session_id\":\"s1\",\"agent\":\"codex\",\"pane_text\":\"Working (esc to interrupt)\"},{\"session_id\":\"s2\",\"agent\":\"made-up\",\"pane_text\":\"x\"}]}",
    )
    .unwrap();
    assert_eq!(panes_to_detect(&params), ["Working (esc to interrupt)"]);
    let result = detect_batch(&params, &vec!["running".to_string()]);
    let results = result.get("results").unwrap().as_array().unwrap();
    assert_eq!(results.len(), 2);
    assert!(results[0].get("status").is_some());
    assert_eq!(results[1].get("session_id").unwrap().as_str(), Some("s2"));
    assert!(results[1].get("error").is_some());
    assert_eq!(
        results[1].text_at("error").as_deref(),
        Some("aoe.status worker has no parser for agent \"made-up\"")
    );
    assert_eq!(results[0].text_at("status").as_deref(), Some("running"));
}

#[test]
fn test_builtin_worker_answers_status_batch() {
    let request = "{\"jsonrpc\":\"2.0\",\"id\":1,\"method\":\"status.detect_batch\",\"params\":{\"snapshots\":[{\"session_id\":\"s1\",\"agent\":\"codex\",\"pane_text\":\"Working (esc to interrupt)\"}]}}";
    let args = PluginWorkerArgs { id: "aoe.status".into() };
    let WorkerTask::Detect { id, params } = take_line(&args, request) else {
        panic!("the batch must be detected");
    };
    let statuses: Vec<String> = panes_to_detect(&params).iter().map(|_| "running".to_string()).collect();
    let stdout = batch_reply(id, &params, &statuses);
    assert!(
        stdout.contains("\"session_id\":\"s1\"") && stdout.contains("\"status\""),
        "expected a per-snapshot result:\n{stdout}"
    );
}

#[test]
fn lines_that_need_no_answer_are_skipped() {
    let args = PluginWorkerArgs { id: "aoe.status".into() };
    for line in ["", "  \t", "nonsense", "{\"method\":\"events.event\"}", "{\"id\":\"1\"}"] {
        assert!(matches!(take_line(&args, line), WorkerTask::Skip), "{line:?}");
    }
}

#[test]
fn other_methods_are_refused() {
    let args = PluginWorkerArgs { id: "aoe.web".into() };
    let WorkerTask::Refuse(line) = take_line(&args, "{\"id\":7,\"method\":\"status.detect_batch\"}") else {
        panic!("the method must be refused");
    };
    assert!(same_json(
        &parse_json(&line).unwrap(),
        &parse_json("{\"jsonrpc\":\"2.0\",\"id\":7,\"error\":{\"code\":-32601,\"message\":\"builtin worker aoe.web does not handle status.detect_batch\"}}").unwrap()
    ));
    assert_eq!(
        handle("aoe.status", "").unwrap_err(),
        "builtin worker aoe.status does not handle "
    );
    assert!(handle("aoe.status", "status.detect_batch").is_ok());
}

#[test]
fn a_batch_without_snapshots_is_empty() {
    for params in ["null", "{}", "{\"snapshots\":3}"] {
        let params = parse_json(params).unwrap();
        assert!(panes_to_detect(&params).is_empty());
        let result = detect_batch(&params, &vec![]);
        assert!(same_json(&result, &parse_json("{\"results\":[]}").unwrap()));
    }
}
