use libcrucible::builtin_packs::built_in_requirements_pack;
use libcrucible::consensus::{
    fallback_summary, importance_rank, normalize_item_key, ConsensusItem, ItemImportance, ItemTracker,
    RawConsensusItem,
};
use libcrucible::report::Confidence;

fn raw(kind: &str, title: &str, message: &str, importance: ItemImportance) -> RawConsensusItem {
    RawConsensusItem {
        kind: kind.to_string(),
        importance,
        title: title.to_string(),
        message: message.to_string(),
        confidence: Confidence::High,
        anchors: Vec::new(),
    }
}

fn item(title: &str, message: &str) -> ConsensusItem {
    ConsensusItem {
        agent: "codex".to_string(),
        kind: "risk".to_string(),
        importance: ItemImportance::High,
        title: title.to_string(),
        message: message.to_string(),
        confidence: Confidence::High,
        anchors: Vec::new(),
        round: 1,
        raised_by: vec!["codex".to_string()],
    }
}

#[test]
fn item_keys_normalize_words_and_case() {
    assert_eq!(
        normalize_item_key(&raw("Risk", "Rollout", "  Needs   FLAG ", ItemImportance::Low)),
        "risk:rollout:needs flag"
    );
    assert_eq!(importance_rank(&ItemImportance::High), 3);
    assert_eq!(importance_rank(&ItemImportance::Low), 1);
}

#[test]
fn tracker_counts_each_agent_once_per_item() {
    let mut t = ItemTracker::new(750, 2);
    let a = raw("risk", "Rollout", "needs flag", ItemImportance::Medium);
    t.ingest(1, "codex", &vec![a.clone(), a.clone()]);
    t.ingest(1, "gemini", &vec![raw("risk", "rollout", "Needs  flag", ItemImportance::High)]);
    t.ingest(1, "gemini", &vec![raw("gap", "Docs", "missing", ItemImportance::Low)]);
    let all = t.all_items();
    assert_eq!(all.len(), 2);
    assert_eq!(all[0].raised_by, vec!["codex".to_string(), "gemini".to_string()]);
    assert_eq!(all[0].importance, ItemImportance::High);
    let unresolved = t.unresolved_items();
    assert_eq!(unresolved.len(), 1);
    assert_eq!(unresolved[0].title, "Docs");
}

#[test]
fn fallback_summary_lists_items() {
    let pack = built_in_requirements_pack();
    let text = fallback_summary(&pack, &[item("Flag", "add a flag")], &[]);
    assert_eq!(
        text,
        "# Requirements Review\n\n## Agreed Items\n- Flag: add a flag\n\n## Unresolved Items\n- None\n"
    );
}
