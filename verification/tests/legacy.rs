use altai_control::legacy_import::{
    assembled_work_item, assignment_storage_status, execution_phase_for, framed_legacy_key,
    project_assignment, todo_storage_status, ImportedAssignment, ImportedTodo, LegacyAssignment,
    LegacyAssignmentSource, LegacyAssignmentStatus, LegacyImportAttribution, LegacyImportError,
    LegacyImportReport, LegacyImporter, LegacyMapping, LegacyMappingRepository, LegacyMappingTable,
    LegacyTodo, LegacyTodoOrigin, LegacyTodoStatus, ASSIGNMENTS_STORE_FILE, ASSIGNMENTS_STORE_KEY,
    MAX_JSON_SOURCE_ENTRIES, MAX_LEGACY_JSON_BYTES, TODOS_STORE_FILE, TODOS_STORE_KEY_PREFIX,
};
use altai_control::legacy_store::{read_assignments_store, read_bounded_store, read_todos_store};
use altai_control::model::{EntityId, Revision};
use altai_control::work_item_repository::{
    ExecutionPhase, WorkItem, WorkItemRepository, WorkItemRepositoryError, WorkItemTable,
    WorkStatus,
};
use serde_json::Value;

const ASSIGNMENT_A: &str = r#"{
    "id": "asg_a",
    "source": {"kind": "task", "prompt": "Ship the importer"},
    "sessionId": "sess_1",
    "title": "Ship importer",
    "status": "done",
    "createdAt": 1700000000000,
    "updatedAt": 1700000001000
}"#;

const ASSIGNMENT_B_ISSUE_SOURCE: &str = r#"{
    "id": "asg_b",
    "source": {"kind": "issue", "owner": "altaidevorg", "repo": "altai-app", "number": 101, "url": "https://github.com/altaidevorg/altai-app/issues/101"},
    "sessionId": "sess_2",
    "title": "Triage issue",
    "status": "running",
    "createdAt": 1700000010000,
    "updatedAt": 1700000020000
}"#;

const MANUAL_TODO: &str = r#"{
    "id": "t_1",
    "title": "Manual board request",
    "description": "User-created durable work",
    "status": "pending",
    "origin": "manual"
}"#;

struct Fixture {
    importer: LegacyImporter<LegacyMappingTable, WorkItemTable>,
    assignments: Option<Vec<u8>>,
    todos: Option<Vec<u8>>,
}

fn project_id() -> EntityId {
    EntityId::new("project_id", "proj_legacy_import")
}

fn other_project_id() -> EntityId {
    EntityId::new("project_id", "proj_other")
}

fn organization_id() -> EntityId {
    EntityId::new("organization_id", "local")
}

fn fixture() -> Fixture {
    let mut work_items = WorkItemTable::new();
    work_items.put_project(&project_id(), organization_id());
    work_items.put_project(&other_project_id(), organization_id());
    Fixture {
        importer: LegacyImporter::new(LegacyMappingTable::new(), work_items),
        assignments: None,
        todos: None,
    }
}

fn attribution() -> LegacyImportAttribution {
    LegacyImportAttribution { organization_id: organization_id(), project_id: project_id() }
}

fn write_store(fixture: &mut Fixture, name: &str, contents: &str) {
    if name == ASSIGNMENTS_STORE_FILE {
        fixture.assignments = Some(contents.as_bytes().to_vec());
    } else {
        fixture.todos = Some(contents.as_bytes().to_vec());
    }
}

fn assignments_file(entries: &[&str]) -> String {
    format!("{{\"{ASSIGNMENTS_STORE_KEY}\": [{}]}}", entries.join(",\n"))
}

fn todos_file(session_id: &str, entries: &[&str]) -> String {
    format!("{{\"{TODOS_STORE_KEY_PREFIX}{session_id}\": [{}]}}", entries.join(",\n"))
}

fn text_of(value: &Value, key: &str) -> Option<String> {
    value.get(key)?.as_str().map(|text| text.to_string())
}

fn decode_source(value: &Value) -> Option<LegacyAssignmentSource> {
    match value.get("kind")?.as_str()? {
        "task" => Some(LegacyAssignmentSource::Task { prompt: text_of(value, "prompt")? }),
        "issue" => Some(LegacyAssignmentSource::Issue {
            owner: text_of(value, "owner")?,
            repo: text_of(value, "repo")?,
            number: value.get("number")?.as_u64()?,
            url: text_of(value, "url")?,
        }),
        _ => None,
    }
}

fn decode_assignment(entry: &str) -> Option<ImportedAssignment> {
    let value: Value = serde_json::from_str(entry).ok()?;
    let status = match value.get("status")?.as_str()? {
        "dispatching" => LegacyAssignmentStatus::Dispatching,
        "running" => LegacyAssignmentStatus::Running,
        "awaiting-approval" => LegacyAssignmentStatus::AwaitingApproval,
        "done" => LegacyAssignmentStatus::Done,
        "failed" => LegacyAssignmentStatus::Failed,
        "cancelled" => LegacyAssignmentStatus::Cancelled,
        _ => return None,
    };
    Some(ImportedAssignment {
        record: LegacyAssignment {
            id: text_of(&value, "id")?,
            source: decode_source(value.get("source")?)?,
            session_id: text_of(&value, "sessionId")?,
            title: text_of(&value, "title")?,
            status,
            origin: None,
            orchestration: None,
            run_config: None,
            delivery: None,
            created_at: value.get("createdAt")?.as_u64()?,
            updated_at: value.get("updatedAt")?.as_u64()?,
        },
        record_json: value.to_string(),
    })
}

fn decode_todo(session_id: &str, entry: &str) -> Option<ImportedTodo> {
    let value: Value = serde_json::from_str(entry).ok()?;
    let status = match value.get("status")?.as_str()? {
        "pending" => LegacyTodoStatus::Pending,
        "in_progress" => LegacyTodoStatus::InProgress,
        "completed" => LegacyTodoStatus::Completed,
        _ => return None,
    };
    let origin = match text_of(&value, "origin").as_deref() {
        Some("manual") => Some(LegacyTodoOrigin::Manual),
        Some("agent") => Some(LegacyTodoOrigin::Agent),
        _ => None,
    };
    Some(ImportedTodo {
        session_id: session_id.to_string(),
        record: LegacyTodo {
            id: text_of(&value, "id")?,
            title: text_of(&value, "title")?,
            description: text_of(&value, "description"),
            status,
            origin,
        },
        record_json: value.to_string(),
    })
}

fn read(path: &str, contents: &Option<Vec<u8>>) -> Result<Vec<u8>, LegacyImportError> {
    let missing = || "No such file or directory".to_string();
    let size = contents.as_ref().map(|bytes| bytes.len() as u64).ok_or_else(missing);
    read_bounded_store(path, size, || contents.clone().ok_or_else(missing))
}

fn import(
    fixture: &mut Fixture,
    attribution: Option<&LegacyImportAttribution>,
) -> Result<LegacyImportReport, LegacyImportError> {
    let bytes = read(ASSIGNMENTS_STORE_FILE, &fixture.assignments)?;
    let entries = read_assignments_store(ASSIGNMENTS_STORE_FILE, &bytes)?;
    let bytes = read(TODOS_STORE_FILE, &fixture.todos)?;
    let sessions = read_todos_store(TODOS_STORE_FILE, &bytes)?;
    let assignments: Vec<Option<ImportedAssignment>> =
        entries.iter().map(|entry| decode_assignment(entry)).collect();
    let mut todos: Vec<Option<ImportedTodo>> = Vec::new();
    for at in 0..sessions.len() {
        for entry in sessions.row(at) {
            todos.push(decode_todo(sessions.key(at), entry));
        }
    }
    fixture.importer.import(&assignments, &todos, attribution)
}

fn seed_standard_stores(fixture: &mut Fixture) {
    write_store(
        fixture,
        ASSIGNMENTS_STORE_FILE,
        &assignments_file(&[ASSIGNMENT_A, ASSIGNMENT_B_ISSUE_SOURCE]),
    );
    write_store(fixture, TODOS_STORE_FILE, &todos_file("sess_board", &[MANUAL_TODO]));
}

fn assignment_legacy_key(id: &str) -> String {
    framed_legacy_key("assignment", &vec![id.to_string()])
}

fn todo_legacy_key(session_id: &str, id: &str) -> String {
    framed_legacy_key("todo", &vec![session_id.to_string(), id.to_string()])
}

fn assignment_work_item_id(id: &str) -> EntityId {
    EntityId::new("work_item_id", &assignment_legacy_key(id))
}

fn manual_todo_work_item_id(session_id: &str, id: &str) -> EntityId {
    EntityId::new("work_item_id", &todo_legacy_key(session_id, id))
}

fn mapping_row_count(fixture: &Fixture) -> usize {
    fixture.importer.mappings.count()
}

fn provenance_of(item: &WorkItem) -> Value {
    serde_json::from_str(&item.description).unwrap()
}

#[test]
fn reimport_is_a_full_no_op() {
    let mut fixture = fixture();
    seed_standard_stores(&mut fixture);
    let attr = attribution();

    let first = import(&mut fixture, Some(&attr)).unwrap();
    assert_eq!(first.assignments_total, 2);
    assert_eq!(first.assignments_imported, 2);
    assert_eq!(first.todos_imported_manual_only, 1);
    assert_eq!(first.external_objects_skipped, 1);
    assert_eq!(mapping_row_count(&fixture), 3);
    assert_eq!(fixture.importer.work_items.count(), 3);

    let second = import(&mut fixture, Some(&attr)).unwrap();
    assert_eq!(second.assignments_imported, 0);
    assert_eq!(second.assignments_unchanged, 2);
    assert_eq!(second.todos_imported_manual_only, 0);
    assert_eq!(second.todos_skipped_agent_plan, 0);
    assert_eq!(mapping_row_count(&fixture), 3);
    assert_eq!(fixture.importer.work_items.count(), 3);
}

#[test]
fn a_smaller_import_deletes_nothing() {
    let mut fixture = fixture();
    seed_standard_stores(&mut fixture);
    let attr = attribution();
    import(&mut fixture, Some(&attr)).unwrap();

    write_store(&mut fixture, ASSIGNMENTS_STORE_FILE, &assignments_file(&[ASSIGNMENT_A]));
    write_store(&mut fixture, TODOS_STORE_FILE, "{}");
    let second = import(&mut fixture, Some(&attr)).unwrap();
    assert_eq!(second.assignments_total, 1);
    assert_eq!(second.assignments_unchanged, 1);
    assert_eq!(mapping_row_count(&fixture), 3);
    assert_eq!(fixture.importer.work_items.count(), 3);
    assert!(fixture
        .importer
        .work_items
        .get(&manual_todo_work_item_id("sess_board", "t_1"))
        .is_ok());
}

#[test]
fn changed_assignment_content_updates_exactly_one_row() {
    let mut fixture = fixture();
    write_store(&mut fixture, ASSIGNMENTS_STORE_FILE, &assignments_file(&[ASSIGNMENT_A]));
    write_store(&mut fixture, TODOS_STORE_FILE, "{}");
    let attr = attribution();
    import(&mut fixture, Some(&attr)).unwrap();

    let renamed = r#"{
        "id": "asg_a",
        "source": {"kind": "task", "prompt": "Ship the importer"},
        "sessionId": "sess_1",
        "title": "Renamed by user edit",
        "status": "done",
        "createdAt": 1700000000000,
        "updatedAt": 1700000099999
    }"#;
    write_store(&mut fixture, ASSIGNMENTS_STORE_FILE, &assignments_file(&[renamed]));

    let second = import(&mut fixture, Some(&attr)).unwrap();
    assert_eq!(second.assignments_updated, 1);
    assert_eq!(second.assignments_imported, 0);

    let stored = fixture.importer.work_items.get(&assignment_work_item_id("asg_a")).unwrap();
    assert_eq!(stored.title, "Renamed by user edit");
    assert_eq!(stored.revision, Revision { value: 1 });

    let third = import(&mut fixture, Some(&attr)).unwrap();
    assert_eq!(third.assignments_unchanged, 1);
    assert_eq!(third.assignments_updated, 0);
    assert_eq!(mapping_row_count(&fixture), 1);
}

#[test]
fn corrupt_entries_are_skipped_and_counted() {
    let mut fixture = fixture();
    write_store(
        &mut fixture,
        ASSIGNMENTS_STORE_FILE,
        &assignments_file(&[ASSIGNMENT_A, r#"{"id": 42}"#, ASSIGNMENT_B_ISSUE_SOURCE]),
    );
    write_store(
        &mut fixture,
        TODOS_STORE_FILE,
        &todos_file("sess_board", &[MANUAL_TODO, r#"{"nonsense": true}"#]),
    );
    let report = import(&mut fixture, Some(&attribution())).unwrap();
    assert_eq!(report.assignments_total, 3);
    assert_eq!(report.assignments_skipped_corrupt, 1);
    assert_eq!(report.assignments_imported, 2);
    assert_eq!(report.todos_total, 2);
    assert_eq!(report.todos_skipped_corrupt, 1);
    assert_eq!(report.todos_imported_manual_only, 1);
    assert_eq!(mapping_row_count(&fixture), 3);
}

#[test]
fn agent_plan_and_originless_todos_never_become_work_items() {
    let mut fixture = fixture();
    let agent_plan =
        r#"{"id": "t_plan", "title": "Plan step", "status": "in_progress", "origin": "agent"}"#;
    let origin_less = r#"{"id": "t_runtime", "title": "Runtime leftover", "status": "completed"}"#;
    write_store(&mut fixture, ASSIGNMENTS_STORE_FILE, "{\"assignments\": []}");
    write_store(
        &mut fixture,
        TODOS_STORE_FILE,
        &todos_file("sess_x", &[agent_plan, origin_less, MANUAL_TODO]),
    );
    let report = import(&mut fixture, Some(&attribution())).unwrap();
    assert_eq!(report.todos_total, 3);
    assert_eq!(report.todos_skipped_agent_plan, 2);
    assert_eq!(report.todos_imported_manual_only, 1);
    assert_eq!(fixture.importer.work_items.count(), 1);
    let imported = manual_todo_work_item_id("sess_x", "t_1");
    assert_eq!(fixture.importer.work_items.get(&imported).unwrap().id.value, imported.value);
}

#[test]
fn manual_todo_is_stamped_at_import_time_and_classified() {
    let mut fixture = fixture();
    let completed = r#"{"id": "t_2", "title": "Finished board request", "status": "completed", "origin": "manual"}"#;
    write_store(&mut fixture, ASSIGNMENTS_STORE_FILE, "{\"assignments\": []}");
    write_store(
        &mut fixture,
        TODOS_STORE_FILE,
        &todos_file("sess_board", &[MANUAL_TODO, completed]),
    );
    import(&mut fixture, Some(&attribution())).unwrap();

    let pending_item = fixture
        .importer
        .work_items
        .get(&manual_todo_work_item_id("sess_board", "t_1"))
        .unwrap();
    assert!(!pending_item.created_at.starts_with("legacy-ms:"));
    assert_eq!(pending_item.created_at, pending_item.updated_at);
    assert_eq!(pending_item.status, WorkStatus::Backlog);

    let completed_item = fixture
        .importer
        .work_items
        .get(&manual_todo_work_item_id("sess_board", "t_2"))
        .unwrap();
    assert_eq!(completed_item.status, WorkStatus::Done);
    assert_eq!(completed_item.execution_phase, ExecutionPhase::Terminal);
    let provenance = provenance_of(&completed_item);
    assert_eq!(provenance["legacy_record"]["status"], "completed");
}

#[test]
fn attribution_and_provenance_flow_into_created_work_items() {
    let mut fixture = fixture();
    seed_standard_stores(&mut fixture);
    import(&mut fixture, Some(&attribution())).unwrap();

    let item = fixture
        .importer
        .work_items
        .get_in_project(&project_id(), &assignment_work_item_id("asg_a"))
        .unwrap();
    assert_eq!(item.status, WorkStatus::Done);
    assert_eq!(item.created_at, "legacy-ms:1700000000000");
    assert_eq!(item.updated_at, "legacy-ms:1700000001000");
    let provenance = provenance_of(&item);
    assert_eq!(provenance["legacy_key"], assignment_legacy_key("asg_a"));
    assert_eq!(provenance["legacy_record"]["status"], "done");
    assert_eq!(provenance["legacy_record"]["source"]["prompt"], "Ship the importer");

    let issue_item = fixture.importer.work_items.get(&assignment_work_item_id("asg_b")).unwrap();
    let issue_provenance = provenance_of(&issue_item);
    assert_eq!(issue_provenance["legacy_record"]["source"]["kind"], "issue");
    assert_eq!(issue_provenance["legacy_record"]["source"]["number"], 101);

    assert!(matches!(
        fixture
            .importer
            .work_items
            .get_in_project(&other_project_id(), &assignment_work_item_id("asg_a")),
        Err(WorkItemRepositoryError::ProjectMismatch { .. })
    ));
}

#[test]
fn missing_store_files_and_corrupt_top_level_are_invalid_store() {
    let mut fixture = fixture();
    assert!(matches!(
        import(&mut fixture, Some(&attribution())),
        Err(LegacyImportError::InvalidStore { .. })
    ));

    write_store(&mut fixture, ASSIGNMENTS_STORE_FILE, &assignments_file(&[ASSIGNMENT_A]));
    assert!(matches!(
        import(&mut fixture, Some(&attribution())),
        Err(LegacyImportError::InvalidStore { .. })
    ));

    write_store(&mut fixture, TODOS_STORE_FILE, "not json at all");
    assert!(matches!(
        import(&mut fixture, Some(&attribution())),
        Err(LegacyImportError::InvalidStore { .. })
    ));
}

#[test]
fn missing_attribution_is_refused() {
    let mut fixture = fixture();
    seed_standard_stores(&mut fixture);
    assert!(matches!(
        import(&mut fixture, None).unwrap_err(),
        LegacyImportError::AttributionRequired
    ));
    assert_eq!(mapping_row_count(&fixture), 0);
}

#[test]
fn mapping_rows_survive_reopen() {
    let mut fixture = fixture();
    write_store(&mut fixture, ASSIGNMENTS_STORE_FILE, &assignments_file(&[ASSIGNMENT_A]));
    write_store(&mut fixture, TODOS_STORE_FILE, "{\"todos:x\": []}");
    let first = import(&mut fixture, Some(&attribution())).unwrap();
    assert_eq!(first.assignments_imported, 1);

    let Fixture { importer, assignments, todos } = fixture;
    let mut reopened = Fixture {
        importer: LegacyImporter::new(importer.mappings, importer.work_items),
        assignments,
        todos,
    };
    let second = import(&mut reopened, Some(&attribution())).unwrap();
    assert_eq!(second.assignments_imported, 0);
    assert_eq!(second.assignments_unchanged, 1);
}

#[test]
fn revision_conflict_fails_closed_naming_the_key() {
    let mut fixture = fixture();
    write_store(&mut fixture, ASSIGNMENTS_STORE_FILE, &assignments_file(&[ASSIGNMENT_A]));
    write_store(&mut fixture, TODOS_STORE_FILE, "{}");
    import(&mut fixture, Some(&attribution())).unwrap();

    let key = assignment_legacy_key("asg_a");
    let mapping = fixture.importer.mappings.find(&key).unwrap().unwrap();
    fixture.importer.mappings.put(
        &key,
        LegacyMapping {
            canonical_work_item_id: "wi_foreign".to_string(),
            content_hash: mapping.content_hash,
        },
    );
    fixture
        .importer
        .work_items
        .create(WorkItem {
            id: EntityId::new("work_item_id", "wi_foreign"),
            project_id: other_project_id(),
            goal_id: None,
            parent_work_item_id: None,
            kind: "task".to_string(),
            title: "Foreign row".to_string(),
            description: String::new(),
            status: WorkStatus::Backlog,
            execution_phase: ExecutionPhase::Unstarted,
            revision: Revision::initial(),
            created_at: "now".to_string(),
            updated_at: "now".to_string(),
        })
        .unwrap();

    let renamed = r#"{
        "id": "asg_a",
        "source": {"kind": "task", "prompt": "Ship the importer"},
        "sessionId": "sess_1",
        "title": "Changed underneath",
        "status": "done",
        "createdAt": 1700000000000,
        "updatedAt": 1700000055555
    }"#;
    write_store(&mut fixture, ASSIGNMENTS_STORE_FILE, &assignments_file(&[renamed]));
    match import(&mut fixture, Some(&attribution())) {
        Err(LegacyImportError::RevisionConflict { legacy_key }) => assert_eq!(legacy_key, key),
        other => panic!("expected a revision conflict, got {other:?}"),
    }
}

#[test]
fn framed_keys_keep_different_composite_splits_apart() {
    let mut fixture = fixture();
    let todo = |id: &str| {
        format!(
            r#"{{"id": "{id}", "title": "Split probe", "status": "pending", "origin": "manual"}}"#
        )
    };
    write_store(&mut fixture, ASSIGNMENTS_STORE_FILE, "{\"assignments\": []}");
    write_store(
        &mut fixture,
        TODOS_STORE_FILE,
        &format!("{{\"todos:a:b\": [{}], \"todos:a\": [{}]}}", todo("c"), todo("b:c")),
    );
    let report = import(&mut fixture, Some(&attribution())).unwrap();
    assert_eq!(report.todos_imported_manual_only, 2);
    assert_eq!(mapping_row_count(&fixture), 2);
    fixture.importer.work_items.get(&manual_todo_work_item_id("a:b", "c")).unwrap();
    fixture.importer.work_items.get(&manual_todo_work_item_id("a", "b:c")).unwrap();
    assert_ne!(
        todo_legacy_key("a:b", "c"),
        todo_legacy_key("a", "b:c"),
        "different splits of the same characters must not collide"
    );
}

#[test]
fn oversized_files_and_entry_arrays_are_invalid_stores() {
    let mut fixture = fixture();
    let padding = "x".repeat(MAX_LEGACY_JSON_BYTES as usize + 1);
    write_store(
        &mut fixture,
        ASSIGNMENTS_STORE_FILE,
        &format!("{{\"{ASSIGNMENTS_STORE_KEY}\": [], \"pad\": \"{padding}\"}}"),
    );
    write_store(&mut fixture, TODOS_STORE_FILE, "{}");
    assert!(matches!(
        import(&mut fixture, Some(&attribution())),
        Err(LegacyImportError::InvalidStore { .. })
    ));

    let over_cap: Vec<&str> = vec![r#"{"junk": true}"#; MAX_JSON_SOURCE_ENTRIES + 1];
    write_store(&mut fixture, ASSIGNMENTS_STORE_FILE, &assignments_file(&over_cap));
    assert!(matches!(
        import(&mut fixture, Some(&attribution())),
        Err(LegacyImportError::InvalidStore { .. })
    ));
}

#[test]
fn crash_recovery_converges_or_fails_closed() {
    let build_candidate = || {
        let entry = decode_assignment(ASSIGNMENT_A).unwrap();
        let projection = project_assignment(&entry).unwrap();
        assembled_work_item(
            &attribution(),
            &projection,
            "legacy-ms:1700000000000".to_string(),
            "legacy-ms:1700000001000".to_string(),
            Revision::initial(),
        )
    };
    let seeded = || {
        let mut fixture = fixture();
        write_store(&mut fixture, ASSIGNMENTS_STORE_FILE, &assignments_file(&[ASSIGNMENT_A]));
        write_store(&mut fixture, TODOS_STORE_FILE, "{}");
        fixture
    };
    {
        let mut fixture = seeded();
        fixture.importer.work_items.create(build_candidate()).unwrap();
        let recovered = import(&mut fixture, Some(&attribution())).unwrap();
        assert_eq!(recovered.assignments_imported, 1);
        assert_eq!(mapping_row_count(&fixture), 1);
    }
    {
        let mut fixture = seeded();
        let mut drifted = build_candidate();
        drifted.description = "{}".to_string();
        fixture.importer.work_items.create(drifted).unwrap();
        assert!(matches!(
            import(&mut fixture, Some(&attribution())),
            Err(LegacyImportError::RevisionConflict { .. })
        ));
    }
    {
        let mut fixture = seeded();
        let mut foreign = build_candidate();
        foreign.project_id = other_project_id();
        fixture.importer.work_items.create(foreign).unwrap();
        assert!(matches!(
            import(&mut fixture, Some(&attribution())),
            Err(LegacyImportError::RevisionConflict { .. })
        ));
    }
}

#[test]
fn keys_carry_the_length_of_every_component_in_bytes() {
    assert_eq!(assignment_legacy_key("asg_a"), "legacy:v1:assignment:5:asg_a");
    assert_eq!(todo_legacy_key("\u{e9}", ""), "legacy:v1:todo:2:\u{e9}:0:");
}

#[test]
fn statuses_classify_into_canonical_ones() {
    assert_eq!(assignment_storage_status(LegacyAssignmentStatus::Done), WorkStatus::Done);
    assert_eq!(todo_storage_status(LegacyTodoStatus::Pending), WorkStatus::Backlog);
    assert_eq!(todo_storage_status(LegacyTodoStatus::Completed), WorkStatus::Done);
    assert_eq!(execution_phase_for(WorkStatus::Done), ExecutionPhase::Terminal);
    assert_eq!(execution_phase_for(WorkStatus::Backlog), ExecutionPhase::Unstarted);
}

#[test]
fn a_store_that_is_no_object_of_arrays_is_named() {
    let error = read_assignments_store("a.json", b"{\"assignments\": 1}").unwrap_err();
    assert_eq!(
        error.to_text(),
        "legacy import store is invalid: the assignments key must hold an array"
    );
    assert!(read_assignments_store("a.json", b"{}").unwrap().is_empty());
    let error = match read_todos_store("t.json", b"{\"todos:x\": {}}") {
        Err(error) => error,
        Ok(_) => panic!("a session holds an array"),
    };
    assert_eq!(
        error.to_text(),
        "legacy import store is invalid: todo session 'todos:x' must hold an array"
    );
    let error = read_assignments_store("a.json", b"[]").unwrap_err();
    assert!(error.to_text().starts_with("legacy import store is invalid: a.json is not valid JSON: "));
    let entries = read_assignments_store("a.json", b"{\"assignments\": [ {\"b\": 1, \"a\": \"x\"} ]}")
        .unwrap();
    assert_eq!(entries.len(), 1);
    let entry: Value = serde_json::from_str(&entries[0]).unwrap();
    assert_eq!(entry["a"], "x");
    let sessions = match read_todos_store("t.json", b"{\"todos:b\": [1], \"other\": 5, \"todos:a\": []}") {
        Ok(sessions) => sessions,
        Err(_) => panic!("both sessions hold arrays"),
    };
    assert_eq!(sessions.len(), 2);
    assert_eq!(sessions.key(0), "a");
    assert_eq!(sessions.row(1), &vec!["1".to_string()]);
}

#[test]
fn import_errors_read_as_sentences() {
    let missing = read_bounded_store("s.json", Err("gone".to_string()), || Ok(Vec::new()));
    assert_eq!(
        missing.unwrap_err().to_text(),
        "legacy import store is invalid: s.json is unreadable: gone"
    );
    let large = read_bounded_store("s.json", Ok(MAX_LEGACY_JSON_BYTES + 1), || Ok(Vec::new()));
    assert_eq!(
        large.unwrap_err().to_text(),
        "legacy import store is invalid: s.json exceeds the 4194304 byte store cap"
    );
    assert_eq!(
        read_bounded_store("s.json", Ok(MAX_LEGACY_JSON_BYTES), || Ok(vec![1u8])).unwrap(),
        vec![1u8]
    );
    let failed = read_bounded_store("s.json", Ok(1), || Err("denied".to_string()));
    assert_eq!(
        failed.unwrap_err().to_text(),
        "legacy import store is invalid: s.json is unreadable: denied"
    );
    assert_eq!(
        LegacyImportError::AttributionRequired.to_text(),
        "legacy import requires host-resolved organization/project attribution"
    );
    assert_eq!(
        LegacyImportError::RevisionConflict { legacy_key: "k".to_string() }.to_text(),
        "legacy import lost the canonical row for k to another writer"
    );
    assert_eq!(
        LegacyImportError::Database { reason: "r".to_string() }.to_text(),
        "legacy import database error: r"
    );
    assert_eq!(
        LegacyImportError::Serialization { reason: "r".to_string() }.to_text(),
        "legacy import serialization error: r"
    );
    assert_eq!(LegacyImportReport::default().todos_total, 0);
}
