use aoe::acp::session_tee::route_event;
use aoe::acp::session_tee::span_tag;
use aoe::acp::session_tee::unquote;
use aoe::acp::session_tee::LineVisitor;
use aoe::acp::session_tee::SessionTeeLayer;
use aoe::acp::session_tee::SessionVisitor;
use aoe::acp::session_tee::WriterChoice;
use aoe::acp::session_tee::MAX_OPEN_SESSION_LOGS;

fn visitor(fields: &[(&str, &str)]) -> LineVisitor {
    let mut v = LineVisitor::default();
    for (name, value) in fields {
        v.push(name, value.to_string());
    }
    v
}

#[test]
fn routes_event_with_session_field_to_its_file() {
    let v = visitor(&[("message", "watchdog fired"), ("session", "sess-a")]);
    assert_eq!(route_event("acp.protocol", &v, &vec![]).as_deref(), Some("sess-a"));
    let body = v.format("2024-01-01T00:00:00.000000Z", "WARN", "acp.protocol");
    assert!(body.contains("watchdog fired"), "got: {body}");
    assert!(body.contains("acp.protocol"), "got: {body}");
    assert_eq!(body, "2024-01-01T00:00:00.000000Z  WARN acp.protocol: watchdog fired\n");
}

#[test]
fn no_cross_session_leakage() {
    let x = visitor(&[("message", "x only"), ("session", "sess-x")]);
    let y = visitor(&[("message", "y only"), ("session", "sess-y")]);
    let scope = vec![Some("sess-y".to_string())];
    assert_eq!(route_event("acp.protocol", &x, &scope).as_deref(), Some("sess-x"));
    assert_eq!(route_event("acp.protocol", &y, &vec![]).as_deref(), Some("sess-y"));
    let x = x.format("t", "INFO", "acp.protocol");
    let y = y.format("t", "INFO", "acp.protocol");
    assert!(x.contains("x only") && !x.contains("y only"), "x log: {x}");
    assert!(y.contains("y only") && !y.contains("x only"), "y log: {y}");
}

#[test]
fn drops_event_without_session() {
    let v = visitor(&[("message", "no session here")]);
    assert_eq!(route_event("acp.protocol", &v, &vec![None, None]), None);
}

#[test]
fn inherits_session_from_span_scope() {
    let mut tag = SessionVisitor::default();
    tag.capture("session", "sess-span".to_string());
    let outer = span_tag("acp_session", tag);
    assert_eq!(outer.as_deref(), Some("sess-span"));
    // Event carries no explicit `session` field; it must be attributed via
    // the enclosing span scope.
    let v = visitor(&[("message", "inherited via span")]);
    let scope = vec![None, outer, Some("inner".to_string())];
    assert_eq!(route_event("acp.protocol", &v, &scope).as_deref(), Some("sess-span"));
}

#[test]
fn skips_tee_target_to_avoid_reentrancy() {
    let v = visitor(&[("message", "internal"), ("session", "sess-z")]);
    assert_eq!(
        route_event("acp.tee", &v, &vec![Some("s".to_string())]),
        None,
        "events on the acp.tee target must be skipped"
    );
}

#[test]
fn only_session_spans_are_tagged() {
    let mut tag = SessionVisitor::default();
    tag.capture("session_id", "rare".to_string());
    tag.capture("session", "plain".to_string());
    tag.capture("session_id", "late".to_string());
    tag.capture("other", "x".to_string());
    assert_eq!(tag.session.as_deref(), Some("plain"));
    assert_eq!(span_tag("request", tag), None);
}

#[test]
fn other_fields_are_appended_in_order() {
    let v = visitor(&[("a", "1"), ("session_id", "s"), ("b", "two words")]);
    assert_eq!(v.kv, " a=1 b=two words");
    assert_eq!(v.session.as_deref(), Some("s"));
    assert_eq!(v.format("t", "INFO", "x"), "t  INFO x:  a=1 b=two words\n");
}

#[test]
fn quotes_are_stripped_like_trim_matches() {
    for s in ["", "\"", "\"\"", "\"abc\"", "\"\"a\"b\"", "plain", "a\"b", "\"é\""] {
        assert_eq!(unquote(s), s.trim_matches('"'));
    }
}

#[test]
fn lines_carry_the_time() {
    let v = visitor(&[("message", "m")]);
    assert_eq!(
        v.format_at(1_700_000_000, 123_456_789, "INFO", "t").as_deref(),
        Some("2023-11-14T22:13:20.123456Z  INFO t: m\n")
    );
    assert_eq!(v.format_at(i64::MAX, 0, "INFO", "t"), None);
}

fn open(tee: &mut SessionTeeLayer, session: &str, idle: &Vec<String>) -> WriterChoice {
    let choice = tee.writer_for(session, true, idle);
    if matches!(choice, WriterChoice::Open { .. }) {
        assert!(tee.opened(session));
    }
    choice
}

#[test]
fn the_oldest_idle_writer_makes_room() {
    let mut tee = SessionTeeLayer::new();
    let none: Vec<String> = vec![];
    for i in 0..MAX_OPEN_SESSION_LOGS {
        assert!(matches!(
            open(&mut tee, &format!("s{i}"), &none),
            WriterChoice::Open { evict: None }
        ));
    }
    // s0 becomes the most recent one.
    assert!(matches!(open(&mut tee, "s0", &none), WriterChoice::Cached));
    // Nobody is idle: the line is dropped.
    assert!(matches!(open(&mut tee, "new", &none), WriterChoice::Drop));
    let idle: Vec<String> = ["s0", "s7", "s3"].iter().map(|s| s.to_string()).collect();
    match open(&mut tee, "new", &idle) {
        WriterChoice::Open { evict } => assert_eq!(evict.as_deref(), Some("s3")),
        other => panic!("{other:?}"),
    }
    assert!(matches!(open(&mut tee, "new", &none), WriterChoice::Cached));
    assert!(matches!(tee.writer_for("../x", false, &idle), WriterChoice::Drop));
    assert_eq!(tee.tick(), MAX_OPEN_SESSION_LOGS as u64 + 5);
}

#[test]
fn a_writer_is_entered_once() {
    let mut tee = SessionTeeLayer::new();
    assert!(matches!(tee.writer_for("s", true, &vec![]), WriterChoice::Open { evict: None }));
    assert!(tee.opened("s"));
    assert!(!tee.opened("s"));
}

#[test]
fn fields_count_by_name_in_any_order() {
    let v = visitor(&[
        ("session_id", "first"),
        ("message", "early"),
        ("a", "1"),
        ("session_id", "second"),
        ("message", "late"),
        ("b", "2"),
    ]);
    assert_eq!(v.session.as_deref(), Some("first"));
    assert_eq!(v.message.as_deref(), Some("late"));
    assert_eq!(v.kv, " a=1 b=2");
    let v = visitor(&[("session", "x"), ("session_id", "id"), ("session", "y")]);
    assert_eq!(v.session.as_deref(), Some("y"));
    let v = visitor(&[("session_id", "id"), ("session", "y")]);
    assert_eq!(v.session.as_deref(), Some("y"));
}
