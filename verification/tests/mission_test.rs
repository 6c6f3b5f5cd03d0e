use agentverse::agent::AgentId;
use agentverse::mission::{
    activity_feed, age_short_text, newest_three, see_all_label, shown_agents, time_ago_text, FeedRow,
};
use agentverse::overlay::{bubble_text, label_text};

fn row(name: &str, timestamp: i64) -> FeedRow {
    FeedRow {
        agent_name: name.to_string(),
        timestamp,
        text: format!("{}@{}", name, timestamp),
    }
}

#[test]
fn test_feed_newest_first_and_capped_at_ten() {
    let rows: Vec<FeedRow> = (0..15).map(|i| row("a", (i * 7) % 15)).collect();
    let (shown, total) = activity_feed(rows, false, false);
    assert_eq!(total, 15);
    assert_eq!(shown.len(), 10);
    let stamps: Vec<i64> = shown.iter().map(|r| r.timestamp).collect();
    assert_eq!(stamps, vec![14, 13, 12, 11, 10, 9, 8, 7, 6, 5]);
}

#[test]
fn test_feed_selected_agent_shows_twenty() {
    let rows: Vec<FeedRow> = (0..25).map(|i| row("b", i)).collect();
    let (shown, total) = activity_feed(rows, true, false);
    assert_eq!(total, 25);
    assert_eq!(shown.len(), 20);
    assert_eq!(shown[0].timestamp, 24);
    assert_eq!(shown[19].timestamp, 5);
}

#[test]
fn test_feed_show_all_keeps_every_row() {
    let rows = vec![row("a", 3), row("b", 9), row("c", 1)];
    let (shown, total) = activity_feed(rows, false, true);
    assert_eq!(total, 3);
    let names: Vec<&str> = shown.iter().map(|r| r.agent_name.as_str()).collect();
    assert_eq!(names, vec!["b", "a", "c"]);
}

#[test]
fn test_feed_empty() {
    let (shown, total) = activity_feed(Vec::new(), true, false);
    assert_eq!(total, 0);
    assert!(shown.is_empty());
}

#[test]
fn test_time_ago_texts() {
    assert_eq!(time_ago_text(0), "0s ago");
    assert_eq!(time_ago_text(59), "59s ago");
    assert_eq!(time_ago_text(60), "1m ago");
    assert_eq!(time_ago_text(3599), "59m ago");
    assert_eq!(time_ago_text(3600), "1h ago");
    assert_eq!(time_ago_text(7300), "2h ago");
    assert_eq!(time_ago_text(-3), "-3s ago");
    assert_eq!(age_short_text(125), "2m");
}

#[test]
fn test_see_all_labels() {
    assert_eq!(see_all_label(15, 10, false), Some("See All (15 total)".to_string()));
    assert_eq!(see_all_label(15, 15, true), Some("Show Less (showing 15)".to_string()));
    assert_eq!(see_all_label(4, 4, false), None);
}

#[test]
fn test_newest_three() {
    assert_eq!(newest_three(vec![1, 2, 3, 4, 5]), vec![5, 4, 3]);
    assert_eq!(newest_three(vec![1, 2]), vec![2, 1]);
    assert!(newest_three(Vec::<u8>::new()).is_empty());
}

#[test]
fn test_shown_agents() {
    let ids = vec![AgentId(1), AgentId(2), AgentId(3)];
    assert_eq!(shown_agents(&ids, None), ids);
    assert_eq!(shown_agents(&ids, Some(AgentId(2))), vec![AgentId(2)]);
    assert!(shown_agents(&ids, Some(AgentId(9))).is_empty());
}

#[test]
fn test_label_text() {
    assert_eq!(label_text("crab-alpha"), "crab-alpha");
    assert_eq!(label_text("fourteen-chars"), "fourteen-chars");
    assert_eq!(label_text("a-very-long-agent-name"), "a-very-long...");
    // 17 bytes in 9 characters: cut after 11 bytes.
    assert_eq!(label_text("aéééééééé"), "aééééé...");
    // 14 bytes in 8 characters: shown whole.
    assert_eq!(label_text("ééééééé"), "ééééééé");
}

#[test]
fn test_bubble_text() {
    let short = "hello there";
    assert_eq!(bubble_text(short), short);
    let long = "x".repeat(41);
    assert_eq!(bubble_text(&long), format!("{}...", "x".repeat(37)));
    let accents = format!("a{}", "é".repeat(30));
    assert_eq!(bubble_text(&accents), format!("a{}...", "é".repeat(18)));
}
