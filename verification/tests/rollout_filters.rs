use lance_context_core::rollout_filter::{FilterDocument, FilterValue, RolloutFilters};

fn text(value: &str) -> FilterValue {
    FilterValue::Text(value.to_string())
}

fn document(fields: Vec<(&str, FilterValue)>) -> FilterDocument {
    FilterDocument::Fields(
        fields
            .into_iter()
            .map(|(key, value)| (key.to_string(), value))
            .collect(),
    )
}

#[test]
fn rollout_filters_parse_supported_fields() {
    let filters = RolloutFilters::from_json_value(document(vec![
        ("rollout_id", text("traj-1")),
        ("problem_id", text("problem-7")),
        ("policy_version", text("ckpt-42")),
        ("role", text("assistant")),
        ("include_in_training", FilterValue::Flag(false)),
        ("artifact_type", text("screenshot")),
    ]))
    .unwrap();

    assert_eq!(filters.rollout_id.as_deref(), Some("traj-1"));
    assert_eq!(filters.problem_id.as_deref(), Some("problem-7"));
    assert_eq!(filters.policy_version.as_deref(), Some("ckpt-42"));
    assert_eq!(filters.role.as_deref(), Some("assistant"));
    assert_eq!(filters.include_in_training, Some(false));
    assert_eq!(filters.artifact_type.as_deref(), Some("screenshot"));
}

#[test]
fn rollout_filters_reject_unknown_and_wrong_types() {
    assert!(RolloutFilters::from_json_value(document(vec![("reward", FilterValue::Other)])).is_err());
    assert!(
        RolloutFilters::from_json_value(document(vec![("policy_version", FilterValue::Other)]))
            .is_err()
    );
    assert!(
        RolloutFilters::from_json_value(document(vec![("include_in_training", text("yes"))]))
            .is_err()
    );
    assert!(RolloutFilters::from_json_value(FilterDocument::Other).is_err());
}

#[test]
fn rollout_filter_errors_name_the_key() {
    let error = |fields| RolloutFilters::from_json_value(document(fields)).err();
    assert_eq!(
        error(vec![("reward", FilterValue::Other)]).as_deref(),
        Some("unsupported rollout filter 'reward'")
    );
    assert_eq!(
        error(vec![("role", FilterValue::Flag(true))]).as_deref(),
        Some("rollout filter 'role' must be a string")
    );
    assert_eq!(
        error(vec![("include_in_training", text("yes"))]).as_deref(),
        Some("rollout filter 'include_in_training' must be a boolean")
    );
    // The first refused field is the one reported.
    assert_eq!(
        error(vec![
            ("role", text("user")),
            ("nope", FilterValue::Other),
            ("problem_id", FilterValue::Other),
        ])
        .as_deref(),
        Some("unsupported rollout filter 'nope'")
    );
    assert_eq!(
        RolloutFilters::from_json_value(FilterDocument::Other)
            .err()
            .as_deref(),
        Some("rollout filters must be a JSON object")
    );
}

#[test]
fn rollout_filter_expression_escapes_strings_and_fields() {
    let filters = RolloutFilters {
        policy_version: Some("worker's-ckpt".to_string()),
        role: Some("assistant".to_string()),
        include_in_training: Some(true),
        ..Default::default()
    };

    assert_eq!(
        filters.expression().as_deref(),
        Some(
            "role = 'assistant' AND policy_version = 'worker''s-ckpt' AND include_in_training = true"
        )
    );
}

#[test]
fn empty_filters_have_no_expression() {
    assert_eq!(RolloutFilters::default().expression(), None);
    let blank = RolloutFilters {
        id: Some(String::new()),
        ..Default::default()
    };
    assert_eq!(blank.expression(), None);
    let excluded = RolloutFilters {
        id: Some("row".to_string()),
        include_in_training: Some(false),
        ..Default::default()
    };
    assert_eq!(
        excluded.expression().as_deref(),
        Some("id = 'row' AND include_in_training = false")
    );
}
