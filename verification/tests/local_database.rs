use altai_control::local_migration::{
    adapter_at, migrate_next, LocalAdapter, LocalMigrationError, LocalMigrationRunner,
    MigrationEvent, MigrationStage, LOCAL_ADAPTER_COUNT, LOCAL_WORK_DB_SCHEMA_VERSION,
};

/// Runs a migration over a ledger and names the adapters that it opened.
fn migrate(ledger: Option<i64>) -> Result<(LocalMigrationRunner, Vec<LocalAdapter>), LocalMigrationError> {
    let mut runner = LocalMigrationRunner::new();
    let mut opened: Vec<LocalAdapter> = Vec::new();
    loop {
        let event = match runner.stage {
            MigrationStage::Preflight | MigrationStage::Ledger => {
                MigrationEvent::LedgerRead { version: ledger }
            }
            MigrationStage::Adapter { index, .. } => {
                opened.push(adapter_at(index));
                MigrationEvent::Done
            }
            MigrationStage::Core | MigrationStage::Recording { .. } => MigrationEvent::Done,
            MigrationStage::Finished { .. } => return Ok((runner, opened)),
        };
        runner.advance(event)?;
    }
}

#[test]
fn initializes_every_local_table_family_once() {
    let (runner, opened) = migrate(None).unwrap();
    assert_eq!(opened.len(), LOCAL_ADAPTER_COUNT);
    assert_eq!(opened[0], LocalAdapter::Scope);
    assert_eq!(opened[19], LocalAdapter::NotificationProposal);
    assert_eq!(opened[20], LocalAdapter::CronAutomationTransfer);
    match runner.stage {
        MigrationStage::Finished { report } => {
            assert_eq!(report.schema_version, LOCAL_WORK_DB_SCHEMA_VERSION);
            assert!(report.applied);
        }
        other => panic!("expected the end, got {other:?}"),
    }
    let (runner, opened) = migrate(Some(LOCAL_WORK_DB_SCHEMA_VERSION)).unwrap();
    assert_eq!(opened.len(), LOCAL_ADAPTER_COUNT);
    match runner.stage {
        MigrationStage::Finished { report } => assert!(!report.applied),
        other => panic!("expected the end, got {other:?}"),
    }
}

#[test]
fn rejects_a_newer_semantic_schema_before_opening_adapters() {
    let error = match migrate(Some(99)) {
        Err(error) => error,
        Ok(_) => panic!("a newer schema is refused"),
    };
    assert!(matches!(
        error,
        LocalMigrationError::UnsupportedSchema {
            current: 99,
            supported: LOCAL_WORK_DB_SCHEMA_VERSION,
        }
    ));
    let mut runner = LocalMigrationRunner::new();
    assert!(runner.advance(MigrationEvent::LedgerRead { version: Some(99) }).is_err());
    assert_eq!(runner.stage, MigrationStage::Preflight);
}

#[test]
fn a_failure_ends_the_migration_where_it_stands() {
    let error = migrate_next(
        MigrationStage::Core,
        MigrationEvent::Failed { reason: "disk full".to_string() },
    )
    .unwrap_err();
    assert!(matches!(error, LocalMigrationError::Database { reason } if reason == "disk full"));
    assert_eq!(
        migrate_next(MigrationStage::Core, MigrationEvent::LedgerRead { version: None }).unwrap(),
        MigrationStage::Core
    );
}
