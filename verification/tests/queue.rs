use aoe::tui::structured_view::queue::is_clear_boundary;
use aoe::tui::structured_view::queue::PromptQueue;
use aoe::tui::structured_view::queue::QueueDrainMode;

fn queue(items: &[&str]) -> PromptQueue {
    let mut q = PromptQueue::default();
    for it in items {
        q.push((*it).to_string());
    }
    q
}

#[test]
fn empty_queue_has_no_batch() {
    let q = PromptQueue::default();
    assert!(q.is_empty());
    assert_eq!(q.next_batch(QueueDrainMode::Serial), None);
    assert_eq!(q.next_batch(QueueDrainMode::Combined), None);
}

#[test]
fn serial_takes_only_the_head() {
    let q = queue(&["first", "second", "third"]);
    let (text, count) = q.next_batch(QueueDrainMode::Serial).expect("batch");
    assert_eq!(text, "first");
    assert_eq!(count, 1);
}

#[test]
fn combined_joins_the_whole_queue_with_blank_lines() {
    let q = queue(&["alpha", "beta", "gamma"]);
    let (text, count) = q.next_batch(QueueDrainMode::Combined).expect("batch");
    assert_eq!(text, "alpha\n\nbeta\n\ngamma");
    assert_eq!(count, 3);
}

#[test]
fn combined_fires_a_leading_clear_alias_alone() {
    let q = queue(&["/clear", "do the thing", "and this"]);
    let (text, count) = q.next_batch(QueueDrainMode::Combined).expect("batch");
    assert_eq!(text, "/clear");
    assert_eq!(count, 1);
}

#[test]
fn combined_batches_up_to_a_clear_boundary() {
    let q = queue(&["one", "two", "/new", "three"]);
    let (text, count) = q.next_batch(QueueDrainMode::Combined).expect("batch");
    assert_eq!(text, "one\n\ntwo");
    assert_eq!(count, 2);
}

#[test]
fn clear_boundary_tolerates_whitespace_and_arguments() {
    assert!(is_clear_boundary("/clear"));
    assert!(is_clear_boundary("  /clear  "));
    assert!(is_clear_boundary("/clear --hard"));
    assert!(is_clear_boundary("/new fresh"));
    assert!(!is_clear_boundary("/cleart"));
    assert!(!is_clear_boundary("clear"));
    assert!(!is_clear_boundary("tell me about /clear"));
    assert!(!is_clear_boundary(""));
}

#[test]
fn clear_boundary_takes_unicode_space() {
    assert!(is_clear_boundary("\u{3000}/clear"));
    assert!(is_clear_boundary("/new\u{a0}x"));
    assert!(!is_clear_boundary("/new\u{200b}x"));
}

#[test]
fn drop_front_removes_consumed_entries_only() {
    let mut q = queue(&["a", "b", "c"]);
    q.drop_front(2);
    let remaining: Vec<&String> = q.iter().collect();
    assert_eq!(remaining, vec!["c"]);
}

#[test]
fn drop_front_saturates_at_len() {
    let mut q = queue(&["only"]);
    q.drop_front(5);
    assert!(q.is_empty());
}

#[test]
fn clear_empties_the_queue() {
    let mut q = queue(&["x", "y"]);
    q.clear();
    assert!(q.is_empty());
}

#[test]
fn get_borrows_by_index_or_none() {
    let q = queue(&["a", "b"]);
    assert_eq!(q.get(0).map(String::as_str), Some("a"));
    assert_eq!(q.get(1).map(String::as_str), Some("b"));
    assert_eq!(q.get(2), None);
}

#[test]
fn replace_edits_in_place_and_reports_hit() {
    let mut q = queue(&["a", "b", "c"]);
    assert!(q.replace(1, "B".to_string()));
    let items: Vec<&String> = q.iter().collect();
    assert_eq!(items, vec!["a", "B", "c"]);
}

#[test]
fn replace_out_of_range_is_a_miss() {
    let mut q = queue(&["only"]);
    assert!(!q.replace(3, "x".to_string()));
    let items: Vec<&String> = q.iter().collect();
    assert_eq!(items, vec!["only"]);
}

#[test]
fn draining_batch_by_batch_consumes_every_entry_once() {
    let mut q = queue(&["one", "two", "/new", "/clear now", "three"]);
    let mut batches: Vec<(String, usize)> = Vec::new();
    while let Some((text, count)) = q.next_batch(QueueDrainMode::Combined) {
        q.drop_front(count);
        batches.push((text, count));
    }
    assert_eq!(
        batches,
        vec![
            ("one\n\ntwo".to_string(), 2),
            ("/new".to_string(), 1),
            ("/clear now".to_string(), 1),
            ("three".to_string(), 1),
        ]
    );
    assert_eq!(q.len(), 0);
}

#[test]
fn combined_rounds_alternate_with_clears_and_keep_the_order() {
    let items = ["one", "two", "/clear", "/new", "three", "four", "/clear x"];
    let mut q = queue(&items);
    let mut rounds: Vec<Vec<String>> = Vec::new();
    while let Some((text, n)) = q.next_batch(QueueDrainMode::Combined) {
        let round: Vec<String> = q.iter().take(n).cloned().collect();
        assert_eq!(text, round.join("\n\n"));
        rounds.push(round);
        q.drop_front(n);
    }
    assert_eq!(rounds.concat(), items);
    let sizes: Vec<usize> = rounds.iter().map(Vec::len).collect();
    assert_eq!(sizes, [2, 1, 1, 2, 1]);
}
