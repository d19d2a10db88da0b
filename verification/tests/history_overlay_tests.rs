use dictate::history::{history_entry, keep_last, last_entries, trimmed_history, MAX_ENTRIES};
use dictate::overlay_ipc::{preview_caption, OverlayState};

#[test]
fn append_and_list_roundtrip() {
    let entry = history_entry("  hello world ", "segmented", true, 1_700_000_000).unwrap();
    let entries = last_entries(vec![entry], 10);
    assert_eq!(entries.len(), 1);
    assert_eq!(entries[0].text, "hello world");
    assert_eq!(entries[0].profile, "segmented");
    assert_eq!(entries[0].ts, 1_700_000_000);
    assert!(last_entries(Vec::new(), 10).is_empty());
}

#[test]
fn blank_or_disabled_text_is_not_recorded() {
    assert!(history_entry("   ", "segmented", true, 1).is_none());
    assert!(history_entry("hello", "segmented", false, 1).is_none());
}

#[test]
fn history_file_keeps_the_newest_lines() {
    let lines: Vec<String> = (0..MAX_ENTRIES + 3).map(|i| format!("line {i}")).collect();
    let kept = trimmed_history(lines).unwrap();
    assert_eq!(kept.len(), MAX_ENTRIES);
    assert_eq!(kept[0], "line 3");
    assert!(trimmed_history(vec!["one".to_string()]).is_none());
}

#[test]
fn listing_limits_to_the_last_entries() {
    assert_eq!(keep_last(vec![1, 2, 3, 4], 2), vec![3, 4]);
    assert_eq!(keep_last(vec![1, 2], 5), vec![1, 2]);
    let entries: Vec<_> = (0..5u64)
        .map(|i| history_entry("x", "p", true, i).unwrap())
        .collect();
    let last = last_entries(entries, 2);
    assert_eq!(last.iter().map(|e| e.ts).collect::<Vec<_>>(), vec![3, 4]);
    let all: Vec<_> = (0..3u64).map(|i| history_entry("x", "p", true, i).unwrap()).collect();
    assert_eq!(last_entries(all, 0).len(), 3);
}

#[test]
fn overlay_names_and_caption() {
    assert_eq!(OverlayState::Idle.as_str(), "idle");
    assert_eq!(OverlayState::Listening.as_str(), "listening");
    assert_eq!(OverlayState::Processing.as_str(), "processing");
    let long: String = "é".repeat(130);
    assert_eq!(preview_caption(&long).chars().count(), 120);
    assert_eq!(preview_caption("short"), "short");
}
