use libcrucible::transcript::{latest_transcript_lines, upsert_transcript_entry, TranscriptEntry};

#[test]
fn upsert_replaces_an_agent_line_in_place() {
    let mut entries: Vec<TranscriptEntry> = Vec::new();
    upsert_transcript_entry(&mut entries, "codex", "one".to_string(), 1);
    upsert_transcript_entry(&mut entries, "gemini", "two".to_string(), 2);
    upsert_transcript_entry(&mut entries, "codex", "three".to_string(), 3);
    assert_eq!(entries.len(), 2);
    assert_eq!(entries[0].id, "codex");
    assert_eq!(entries[0].rendered, "three");
    assert_eq!(entries[0].seq, 3);
    assert_eq!(entries[1].id, "gemini");
    assert_eq!(entries[1].rendered, "two");
}

#[test]
fn latest_lines_keep_the_newest_in_time_order() {
    let mut entries: Vec<TranscriptEntry> = Vec::new();
    upsert_transcript_entry(&mut entries, "a", "a5".to_string(), 5);
    upsert_transcript_entry(&mut entries, "b", "b1".to_string(), 1);
    upsert_transcript_entry(&mut entries, "c", "c9".to_string(), 9);
    upsert_transcript_entry(&mut entries, "d", "d3".to_string(), 3);
    assert_eq!(latest_transcript_lines(&entries, 2), vec!["a5".to_string(), "c9".to_string()]);
    assert_eq!(
        latest_transcript_lines(&entries, 10),
        vec!["b1".to_string(), "d3".to_string(), "a5".to_string(), "c9".to_string()]
    );
    assert!(latest_transcript_lines(&entries, 0).is_empty());
    assert!(latest_transcript_lines(&Vec::new(), 3).is_empty());
}

#[test]
fn latest_lines_keep_input_order_among_equal_numbers() {
    let mut entries: Vec<TranscriptEntry> = Vec::new();
    upsert_transcript_entry(&mut entries, "x", "x".to_string(), 4);
    upsert_transcript_entry(&mut entries, "y", "y".to_string(), 4);
    upsert_transcript_entry(&mut entries, "z", "z".to_string(), 2);
    assert_eq!(latest_transcript_lines(&entries, 1), vec!["x".to_string()]);
    assert_eq!(latest_transcript_lines(&entries, 3), vec!["z".to_string(), "x".to_string(), "y".to_string()]);
}
