use clawscope::messages::dirs_path;
use clawscope::messages::parse_error_message;
use clawscope::messages::read_error_message;
use clawscope::sessions::SessionEntry;
use clawscope::sessions::sort_entries;
use clawscope::table::render_sessions;
use clawscope::table::render_table;
use clawscope::table::session_col_width;
use clawscope::table::sessions_table;

fn entry(id: &str, updated_at: i64) -> SessionEntry {
    SessionEntry { id: id.to_string(), updated_at }
}

fn ids(entries: &[SessionEntry]) -> Vec<String> {
    entries.iter().map(|e| e.id.clone()).collect()
}

#[test]
fn ordering_active_first_then_recent() {
    // A and B are within the five-minute window at this `now`; C is not.
    let now: i64 = 1_000_000;
    let sorted = sort_entries(
        vec![entry("a", 900_000), entry("b", 950_000), entry("c", 100_000)],
        now,
    );
    assert_eq!(ids(&sorted), vec!["b", "a", "c"]);
}

#[test]
fn ordering_within_stopped_bucket_descending() {
    let now: i64 = 10_000_000;
    let sorted = sort_entries(
        vec![entry("old", 1_000), entry("older", 10), entry("newer", 2_000)],
        now,
    );
    assert_eq!(ids(&sorted), vec!["newer", "old", "older"]);
}

#[test]
fn ordering_empty_and_single() {
    assert_eq!(ids(&sort_entries(vec![], 0)), Vec::<String>::new());
    assert_eq!(ids(&sort_entries(vec![entry("only", 5)], 0)), vec!["only"]);
}

#[test]
fn ordering_keeps_duplicate_timestamps() {
    let now: i64 = 0;
    let sorted = sort_entries(vec![entry("p", 42), entry("q", 42), entry("r", 50)], now);
    assert_eq!(sorted.len(), 3);
    assert_eq!(sorted[0].id, "r");
    let mut tail: Vec<String> = ids(&sorted)[1..].to_vec();
    tail.sort();
    assert_eq!(tail, vec!["p", "q"]);
}

#[test]
fn column_width_tracks_longest_identifier() {
    let entries = vec![entry("x", 0), entry("session-name-is-long", 0)];
    assert_eq!(session_col_width(&entries), 20);
}

#[test]
fn column_width_never_below_heading() {
    assert_eq!(session_col_width(&vec![]), 7);
    assert_eq!(session_col_width(&vec![entry("ab", 0)]), 7);
    assert_eq!(session_col_width(&vec![entry("exactly7", 0)]), 8);
}

#[test]
fn empty_registry_prints_header_and_separator_only() {
    let lines = render_sessions(vec![], 123_456);
    assert_eq!(lines.len(), 2);
    assert_eq!(lines[0], "SESSION  STATUS    LAST ACTIVE");
    assert_eq!(lines[1], "-".repeat(39));
}

#[test]
fn table_rows_are_padded_and_ordered() {
    let now: i64 = 1_000_000;
    let lines = render_sessions(vec![entry("beta", 100_000), entry("alpha", 950_000)], now);
    assert_eq!(
        lines,
        vec![
            "SESSION  STATUS    LAST ACTIVE".to_string(),
            "-".repeat(39),
            "alpha    active    50 seconds ago".to_string(),
            "beta     stopped   15 minutes ago".to_string(),
        ]
    );
}

#[test]
fn table_widens_with_long_identifier() {
    let now: i64 = 400_000;
    let lines = render_table(&vec![entry("a-rather-long-session", 399_000)], now);
    assert_eq!(lines[0], "SESSION                STATUS    LAST ACTIVE");
    assert_eq!(lines[1], "-".repeat(21 + 32));
    assert_eq!(lines[2], "a-rather-long-session  active    just now");
}

#[test]
fn sessions_table_renders_against_the_real_clock() {
    let lines = sessions_table(vec![entry("live", i64::MAX)]);
    assert_eq!(lines.len(), 3);
    assert_eq!(lines[0], "SESSION  STATUS    LAST ACTIVE");
    // A timestamp far in the future is active and "just now" at any clock value.
    assert_eq!(lines[2], "live     active    just now");
}

#[test]
fn registry_path_from_home() {
    assert_eq!(
        dirs_path(Some("/home/me")),
        "/home/me/.openclaw/agents/main/sessions/sessions.json"
    );
    assert_eq!(
        dirs_path(None),
        "/root/.openclaw/agents/main/sessions/sessions.json"
    );
}

#[test]
fn error_messages() {
    assert_eq!(
        read_error_message("/tmp/none/sessions.json"),
        "Failed to read sessions file: /tmp/none/sessions.json"
    );
    assert_eq!(parse_error_message(), "Failed to parse sessions.json");
}
