use altai_control::feature_flag_repository::{
    FeatureFlagError, FeatureFlagRepository, FeatureFlagTable, CONTROL_PLANE_ENABLED_FLAG,
};

#[test]
fn absent_flag_reads_as_none_not_a_default() {
    let repo = FeatureFlagTable::new();
    assert_eq!(
        repo.get(CONTROL_PLANE_ENABLED_FLAG).unwrap(),
        None,
        "an undecided flag must not read as any default value"
    );
}

#[test]
fn set_then_get_round_trips_the_recorded_fact() {
    let mut repo = FeatureFlagTable::new();
    repo.set(CONTROL_PLANE_ENABLED_FLAG, "true").unwrap();
    assert_eq!(repo.get(CONTROL_PLANE_ENABLED_FLAG).unwrap(), Some("true".into()));
}

#[test]
fn resetting_an_existing_flag_is_idempotent_and_stores_one_row() {
    let mut repo = FeatureFlagTable::new();
    repo.set(CONTROL_PLANE_ENABLED_FLAG, "true").unwrap();
    repo.set(CONTROL_PLANE_ENABLED_FLAG, "true").unwrap();
    assert_eq!(repo.get(CONTROL_PLANE_ENABLED_FLAG).unwrap(), Some("true".into()));
    repo.set(CONTROL_PLANE_ENABLED_FLAG, "false").unwrap();
    assert_eq!(repo.get(CONTROL_PLANE_ENABLED_FLAG).unwrap(), Some("false".into()));
    assert_eq!(repo.count(), 1);
}

#[test]
fn set_if_absent_writes_once_and_preserves_the_first_decision() {
    let mut repo = FeatureFlagTable::new();
    assert!(repo.set_if_absent(CONTROL_PLANE_ENABLED_FLAG, "true").unwrap());
    assert!(!repo.set_if_absent(CONTROL_PLANE_ENABLED_FLAG, "false").unwrap());
    assert_eq!(
        repo.get(CONTROL_PLANE_ENABLED_FLAG).unwrap(),
        Some("true".into()),
        "a lost race must never overwrite the winner's value"
    );
}

#[test]
fn empty_keys_and_values_fail_closed() {
    let mut repo = FeatureFlagTable::new();
    assert!(matches!(repo.set("", "true"), Err(FeatureFlagError::InvalidFlagKey(_))));
    assert!(matches!(
        repo.set(CONTROL_PLANE_ENABLED_FLAG, ""),
        Err(FeatureFlagError::InvalidFlagKey(_))
    ));
}

#[test]
fn flag_errors_read_as_sentences() {
    let repo = FeatureFlagTable::new();
    let error = repo.get(" \t").unwrap_err();
    assert_eq!(error.to_text(), "invalid flag key: flag key is required");
    let mut repo = FeatureFlagTable::new();
    let error = repo.set_if_absent("k", "").unwrap_err();
    assert_eq!(error.to_text(), "invalid flag key: flag value is required");
    let error = FeatureFlagError::Internal { reason: "locked".to_string() };
    assert_eq!(error.to_text(), "feature flag error: locked");
}
