use anytra::thinking::{SequentialThinking, ThoughtData};

fn value_of(text: &str) -> serde_json::Value {
    serde_json::from_str(text).unwrap()
}

#[test]
fn test_thought_data_creation() {
    let thought = ThoughtData::new("Test thought".to_string(), 1, 3, true);
    assert_eq!(thought.thought, "Test thought");
    assert_eq!(thought.thought_number, 1);
    assert_eq!(thought.total_thoughts, 3);
    assert!(thought.next_thought_needed);
    assert!(thought.is_revision.is_none());
}

#[test]
fn test_thought_data_with_revision() {
    let thought = ThoughtData::new("Revised thought".to_string(), 2, 3, false).with_revision(1);
    assert!(thought.is_revision.unwrap());
    assert_eq!(thought.revises_thought, Some(1));
}

#[test]
fn test_thought_data_with_branch() {
    let thought =
        ThoughtData::new("Branch thought".to_string(), 3, 3, false).with_branch(2, "branch1".to_string());
    assert_eq!(thought.branch_from_thought, Some(2));
    assert_eq!(thought.branch_id, Some("branch1".to_string()));
}

#[test]
fn test_sequential_thinking_creation() {
    let st = SequentialThinking::new();
    assert!(st.get_thought_history().is_empty());
    assert!(st.get_branches().is_empty());
}

#[test]
fn test_validate_thought_data_valid() {
    let st = SequentialThinking::new();
    let input = value_of(
        r#"{
        "thought": "Valid thought",
        "thoughtNumber": 1,
        "totalThoughts": 3,
        "nextThoughtNeeded": true
    }"#,
    );

    let result = st.validate_thought_data(&input);
    assert!(result.is_ok());
    let thought = result.unwrap();
    assert_eq!(thought.thought, "Valid thought");
    assert_eq!(thought.thought_number, 1);
    assert_eq!(thought.total_thoughts, 3);
    assert!(thought.next_thought_needed);
}

#[test]
fn test_validate_thought_data_invalid() {
    let st = SequentialThinking::new();
    let input = value_of(
        r#"{
        "thought": "Test",
        "thoughtNumber": "invalid",
        "totalThoughts": 3,
        "nextThoughtNeeded": true
    }"#,
    );

    let result = st.validate_thought_data(&input);
    assert!(result.is_err());
    assert!(result.unwrap_err().contains("Invalid thoughtNumber"));
}

#[test]
fn test_validate_thought_data_not_object() {
    let st = SequentialThinking::new();
    let result = st.validate_thought_data(&value_of("[1, 2]"));
    assert!(result.unwrap_err().contains("must be a JSON object"));
}

#[test]
fn test_validate_thought_data_missing_flag() {
    let st = SequentialThinking::new();
    let input = value_of(r#"{"thought": "T", "thoughtNumber": 1, "totalThoughts": 1}"#);
    let result = st.validate_thought_data(&input);
    assert!(result.unwrap_err().contains("Invalid nextThoughtNeeded"));
}

#[test]
fn test_format_thought() {
    let st = SequentialThinking::new();
    let thought = ThoughtData::new("Test thought".to_string(), 1, 3, true);

    let formatted = st.format_thought(&thought);
    assert!(formatted.contains("💭 Thought"));
    assert!(formatted.contains("1/3"));
    assert!(formatted.contains("Test thought"));
}

#[test]
fn test_format_revision_thought() {
    let st = SequentialThinking::new();
    let thought = ThoughtData::new("Revised".to_string(), 2, 3, false).with_revision(1);

    let formatted = st.format_thought(&thought);
    assert!(formatted.contains("🔄 Revision"));
    assert!(formatted.contains("(revising thought 1)"));
}

#[test]
fn test_format_branch_thought() {
    let st = SequentialThinking::new();
    let thought =
        ThoughtData::new("B".to_string(), 3, 3, false).with_branch(2, "alt".to_string());
    let formatted = st.format_thought(&thought);
    assert!(formatted.contains("🌿 Branch"));
    assert!(formatted.contains("(from thought 2, ID: Some(\"alt\"))"));
}

#[test]
fn test_process_thought() {
    let mut st = SequentialThinking::new();
    let input = value_of(
        r#"{
        "thought": "Process this thought",
        "thoughtNumber": 1,
        "totalThoughts": 3,
        "nextThoughtNeeded": true
    }"#,
    );

    let result = st.process_thought(&input);
    assert!(result.is_ok());
    assert_eq!(st.get_thought_history().len(), 1);
    assert_eq!(st.get_thought_history()[0].thought, "Process this thought");
}

#[test]
fn test_process_thought_with_branch() {
    let mut st = SequentialThinking::new();
    let input = value_of(
        r#"{
        "thought": "Branch thought",
        "thoughtNumber": 2,
        "totalThoughts": 3,
        "nextThoughtNeeded": false,
        "branchFromThought": 1,
        "branchId": "test_branch"
    }"#,
    );

    let result = st.process_thought(&input);
    assert!(result.is_ok());
    assert_eq!(st.get_thought_history().len(), 1);
    let branches = st.get_branches();
    assert!(branches.iter().any(|b| b.id == "test_branch"));
    let branch = branches.iter().find(|b| b.id == "test_branch").unwrap();
    assert_eq!(branch.thoughts.len(), 1);
}

#[test]
fn test_process_thought_invalid() {
    let mut st = SequentialThinking::new();
    let input = value_of(
        r#"{
        "thought": "Test",
        "thoughtNumber": "invalid",
        "totalThoughts": 3,
        "nextThoughtNeeded": true
    }"#,
    );

    let result = st.process_thought(&input);
    assert!(result.is_err());
    assert!(result.unwrap_err().contains("Invalid thoughtNumber"));
}

#[test]
fn test_total_thoughts_raised_never_lowered() {
    let mut st = SequentialThinking::new();
    let high = value_of(
        r#"{"thought": "A", "thoughtNumber": 5, "totalThoughts": 3, "nextThoughtNeeded": true}"#,
    );
    let summary = st.process_thought(&high).unwrap();
    assert_eq!(summary.total_thoughts, 5);
    let low = value_of(
        r#"{"thought": "B", "thoughtNumber": 2, "totalThoughts": 7, "nextThoughtNeeded": false}"#,
    );
    let summary = st.process_thought(&low).unwrap();
    assert_eq!(summary.total_thoughts, 7);
    assert_eq!(summary.thought_history_length, 2);
}

#[test]
fn test_branch_keeps_relative_order() {
    let mut st = SequentialThinking::new();
    let records = [
        r#"{"thought": "first", "thoughtNumber": 1, "totalThoughts": 3, "nextThoughtNeeded": true, "branchFromThought": 1, "branchId": "alt"}"#,
        r#"{"thought": "middle", "thoughtNumber": 2, "totalThoughts": 3, "nextThoughtNeeded": true}"#,
        r#"{"thought": "last", "thoughtNumber": 3, "totalThoughts": 3, "nextThoughtNeeded": false, "branchFromThought": 1, "branchId": "alt"}"#,
    ];
    for r in records.iter() {
        st.process_thought(&value_of(r)).unwrap();
    }
    assert_eq!(st.get_thought_history().len(), 3);
    let branches = st.get_branches();
    assert_eq!(branches.len(), 1);
    let branch = &branches[0];
    assert_eq!(branch.id, "alt");
    assert_eq!(branch.thoughts.len(), 2);
    assert_eq!(branch.thoughts[0].thought, "first");
    assert_eq!(branch.thoughts[1].thought, "last");
    // The branch records appear in the main sequence in the same order.
    assert_eq!(st.get_thought_history()[0].thought, "first");
    assert_eq!(st.get_thought_history()[2].thought, "last");
}

#[test]
fn test_first_summary_has_no_branches() {
    let mut st = SequentialThinking::new();
    let input = value_of(
        r#"{
        "thought": "Process this thought",
        "thoughtNumber": 1,
        "totalThoughts": 3,
        "nextThoughtNeeded": true
    }"#,
    );
    let summary = st.process_thought(&input).unwrap();
    assert_eq!(summary.thought_number, 1);
    assert_eq!(summary.total_thoughts, 3);
    assert!(summary.next_thought_needed);
    assert_eq!(summary.branches, Vec::<String>::new());
    assert_eq!(summary.thought_history_length, 1);
}

#[test]
fn test_summary_lists_branch_ids() {
    let mut st = SequentialThinking::new();
    let a = value_of(
        r#"{"thought": "A", "thoughtNumber": 1, "totalThoughts": 2, "nextThoughtNeeded": true, "branchFromThought": 1, "branchId": "one"}"#,
    );
    let b = value_of(
        r#"{"thought": "B", "thoughtNumber": 2, "totalThoughts": 2, "nextThoughtNeeded": false, "branchFromThought": 1, "branchId": "two"}"#,
    );
    st.process_thought(&a).unwrap();
    let summary = st.process_thought(&b).unwrap();
    assert_eq!(summary.branches, vec!["one".to_string(), "two".to_string()]);
}
