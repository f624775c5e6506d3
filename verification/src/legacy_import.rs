//! A read-only, idempotent projection of the legacy stores into work items. An identical re-import
//! writes nothing, changed content updates exactly one work item under optimistic concurrency, and
//! nothing is ever deleted.
use vstd::prelude::*;
use vstd::string::*;
use crate::model::{EntityId, Revision, WORK_ITEM_ID};
use crate::outside;
use crate::record::Record;
use crate::table::Table;
use crate::text;
use crate::work_item_repository::{
    ExecutionPhase, WorkItem, WorkItemRepository, WorkItemRepositoryError, WorkItems, WorkStatus,
    TASK,
};

verus! {

/// The file of the assignments.
pub const ASSIGNMENTS_STORE_FILE: &'static str = "altai-assignments.json";

/// The file of the todos.
pub const TODOS_STORE_FILE: &'static str = "altai-ai-todos.json";

/// The member of the assignments store that holds the records.
pub const ASSIGNMENTS_STORE_KEY: &'static str = "assignments";

/// Before the session in the key of each member of the todos store.
pub const TODOS_STORE_KEY_PREFIX: &'static str = "todos:";

/// The largest store file, in bytes.
pub const MAX_LEGACY_JSON_BYTES: u64 = 4_194_304;

/// The longest array of records.
pub const MAX_JSON_SOURCE_ENTRIES: usize = 2_000;

/// Where imported work items go. The host resolves it; nothing is created for it here.
#[derive(Debug)]
pub struct LegacyImportAttribution {
    pub organization_id: EntityId,
    pub project_id: EntityId,
}

/// What an import counted. Records whose work item was written count as imported or updated.
#[derive(Debug, Clone, Copy, PartialEq, Eq, Structural)]
pub struct LegacyImportReport {
    pub assignments_total: usize,
    pub assignments_imported: usize,
    pub assignments_unchanged: usize,
    pub assignments_updated: usize,
    pub assignments_skipped_corrupt: usize,
    pub todos_total: usize,
    pub todos_imported_manual_only: usize,
    pub todos_skipped_agent_plan: usize,
    pub todos_skipped_corrupt: usize,
    pub external_objects_skipped: usize,
}

impl Default for LegacyImportReport {
    fn default() -> (r: Self)
        ensures
            r.assignments_total == 0,
            r.assignments_imported == 0,
            r.assignments_unchanged == 0,
            r.assignments_updated == 0,
            r.assignments_skipped_corrupt == 0,
            r.todos_total == 0,
            r.todos_imported_manual_only == 0,
            r.todos_skipped_agent_plan == 0,
            r.todos_skipped_corrupt == 0,
            r.external_objects_skipped == 0,
    {
        LegacyImportReport {
            assignments_total: 0,
            assignments_imported: 0,
            assignments_unchanged: 0,
            assignments_updated: 0,
            assignments_skipped_corrupt: 0,
            todos_total: 0,
            todos_imported_manual_only: 0,
            todos_skipped_agent_plan: 0,
            todos_skipped_corrupt: 0,
            external_objects_skipped: 0,
        }
    }
}

/// Why an import failed.
#[derive(Debug)]
pub enum LegacyImportError {
    /// A store is missing, unreadable or corrupt as a whole.
    InvalidStore { reason: String },
    /// The host has not resolved the attribution.
    AttributionRequired,
    /// Another writer moved the work item of a known key.
    RevisionConflict { legacy_key: String },
    Database { reason: String },
    Serialization { reason: String },
}

impl LegacyImportError {
    /// The error in words.
    pub fn to_text(&self) -> (r: String)
        ensures
            r@ == match *self {
                LegacyImportError::InvalidStore { reason } => "legacy import store is invalid: "@
                    + reason@,
                LegacyImportError::AttributionRequired => {
                    "legacy import requires host-resolved organization/project attribution"@
                },
                LegacyImportError::RevisionConflict { legacy_key } => {
                    "legacy import lost the canonical row for "@ + legacy_key@
                        + " to another writer"@
                },
                LegacyImportError::Database { reason } => "legacy import database error: "@
                    + reason@,
                LegacyImportError::Serialization { reason } => {
                    "legacy import serialization error: "@ + reason@
                },
            },
    {
        match self {
            LegacyImportError::InvalidStore { reason } => text::joined(
                "legacy import store is invalid: ",
                reason,
            ),
            LegacyImportError::AttributionRequired => {
                "legacy import requires host-resolved organization/project attribution".to_owned()
            },
            LegacyImportError::RevisionConflict { legacy_key } => {
                let mut out: String = text::joined(
                    "legacy import lost the canonical row for ",
                    legacy_key,
                );
                out.append(" to another writer");
                out
            },
            LegacyImportError::Database { reason } => text::joined(
                "legacy import database error: ",
                reason,
            ),
            LegacyImportError::Serialization { reason } => text::joined(
                "legacy import serialization error: ",
                reason,
            ),
        }
    }
}

/// The life of an assignment, kept as it is in the provenance.
#[derive(Debug, Clone, Copy, PartialEq, Eq, Structural)]
pub enum LegacyAssignmentStatus {
    Dispatching,
    Running,
    AwaitingApproval,
    Done,
    Failed,
    Cancelled,
}

/// The life of a todo.
#[derive(Debug, Clone, Copy, PartialEq, Eq, Structural)]
pub enum LegacyTodoStatus {
    Pending,
    InProgress,
    Completed,
}

/// Who made an assignment.
#[derive(Debug, Clone, Copy, PartialEq, Eq, Structural)]
pub enum LegacyAssignmentOrigin {
    Manual,
    Orchestrator,
}

/// Who made a todo. Only a manual one is a request for work.
#[derive(Debug, Clone, Copy, PartialEq, Eq, Structural)]
pub enum LegacyTodoOrigin {
    Agent,
    Manual,
}

/// What an assignment was made from.
#[derive(Debug)]
pub enum LegacyAssignmentSource {
    Issue { owner: String, repo: String, number: u64, url: String },
    Pr { owner: String, repo: String, number: u64, url: String },
    Todo { todo_id: String },
    Task { prompt: String },
}

/// How an assignment was orchestrated.
#[derive(Debug)]
pub struct LegacyAssignmentOrchestration {
    pub workspace_key: String,
    pub task_session_id: String,
    pub task_key: String,
    pub attempt: u64,
}

/// How an assignment ran.
#[derive(Debug)]
pub struct LegacyAssignmentRunConfig {
    pub agent_id: Option<String>,
    pub model_id: Option<String>,
    pub skills: Option<Vec<String>>,
    pub permission_mode: Option<String>,
    pub workspace_path: Option<String>,
    pub branch_name: Option<String>,
    pub base_branch: Option<String>,
}

/// A delivery on a branch.
#[derive(Debug)]
pub struct LegacyDeliveryRun {
    pub workspace_path: String,
    pub branch_name: String,
    pub base_branch: String,
    pub error: Option<String>,
}

/// A delivery as a draft pull request.
#[derive(Debug)]
pub struct LegacyDeliveryDraftPr {
    pub workspace_path: String,
    pub branch_name: String,
    pub base_branch: String,
    pub pull_number: u64,
    pub pull_url: String,
}

/// How the result of an assignment was delivered.
#[derive(Debug)]
pub enum LegacyAssignmentDelivery {
    Worktree(LegacyDeliveryRun),
    Publishing(LegacyDeliveryRun),
    Applying(LegacyDeliveryRun),
    Applied(LegacyDeliveryRun),
    Failed(LegacyDeliveryRun),
    DraftPr(LegacyDeliveryDraftPr),
}

/// A legacy assignment.
#[derive(Debug)]
pub struct LegacyAssignment {
    pub id: String,
    pub source: LegacyAssignmentSource,
    pub session_id: String,
    pub title: String,
    pub status: LegacyAssignmentStatus,
    pub origin: Option<LegacyAssignmentOrigin>,
    pub orchestration: Option<LegacyAssignmentOrchestration>,
    pub run_config: Option<LegacyAssignmentRunConfig>,
    pub delivery: Option<LegacyAssignmentDelivery>,
    pub created_at: u64,
    pub updated_at: u64,
}

/// A legacy todo. It has no times of its own.
#[derive(Debug)]
pub struct LegacyTodo {
    pub id: String,
    pub title: String,
    pub description: Option<String>,
    pub status: LegacyTodoStatus,
    pub origin: Option<LegacyTodoOrigin>,
}

/// An assignment with the JSON that it is recorded as.
#[derive(Debug)]
pub struct ImportedAssignment {
    pub record: LegacyAssignment,
    pub record_json: String,
}

/// A todo of a session with the JSON that it is recorded as.
#[derive(Debug)]
pub struct ImportedTodo {
    pub session_id: String,
    pub record: LegacyTodo,
    pub record_json: String,
}

/// A component of a key behind its length in bytes.
pub open spec fn frame(component: Seq<char>) -> Seq<char> {
    ":"@ + text::decimal(text::byte_len(component)) + ":"@ + component
}

/// The frames of the components, one after the other.
pub open spec fn frames(components: Seq<Seq<char>>) -> Seq<char>
    decreases components.len(),
{
    if components.len() == 0 {
        Seq::empty()
    } else {
        frames(components.drop_last()) + frame(components.last())
    }
}

/// The key of a record.
pub open spec fn framed_key(kind: Seq<char>, components: Seq<Seq<char>>) -> Seq<char> {
    "legacy:v1:"@ + kind + frames(components)
}

/// The key of a record. Every component carries its length, so that keys of different components
/// never collide.
pub fn framed_legacy_key(kind: &str, components: &Vec<String>) -> (r: String)
    ensures
        r@ == framed_key(kind@, text::views(components@)),
{
    let ghost all = text::views(components@);
    let mut key: String = text::joined("legacy:v1:", kind);
    let ghost head = key@;
    let mut i: usize = 0;
    assert(all.take(0) =~= Seq::empty());
    assert(key@ =~= head + frames(all.take(0)));
    while i < components.len()
        invariant
            i <= components@.len(),
            all == text::views(components@),
            key@ == head + frames(all.take(i as int)),
        decreases components@.len() - i,
    {
        assert(all.take(i + 1).drop_last() =~= all.take(i as int));
        let component: &String = &components[i];
        let length: String = text::numeral(text::byte_count(component) as u64);
        let mut framed: String = text::joined(":", &length);
        framed.append(":");
        framed.append(component);
        assert(framed@ == frame(component@));
        let ghost before = key@;
        key.append(&framed);
        proof {
            assert(all.take(i + 1).last() == component@);
            assert((head + frames(all.take(i as int))) + framed@ =~= head + (frames(
                all.take(i as int),
            ) + framed@));
        }
        i = i + 1;
    }
    assert(all.take(i as int) =~= all);
    key
}

/// A decimal numeral holds digits only, and at least one.
proof fn lemma_decimal_digits(n: nat)
    ensures
        text::decimal(n).len() > 0,
        forall|i: int| 0 <= i < text::decimal(n).len() ==> '0' <= #[trigger] text::decimal(n)[i] <= '9',
    decreases n,
{
    if n >= 10 {
        lemma_decimal_digits(n / 10);
    }
}

/// Different numbers have different numerals.
proof fn lemma_decimal_injective(m: nat, n: nat)
    requires
        text::decimal(m) == text::decimal(n),
    ensures
        m == n,
    decreases m,
{
    if m < 10 {
        if n >= 10 {
            lemma_decimal_digits(n / 10);
            assert(text::decimal(n).len() >= 2);
            assert(text::decimal(m).len() == 1);
        } else {
            assert(text::decimal(m)[0] == text::digit(m));
            assert(text::decimal(n)[0] == text::digit(n));
        }
    } else {
        if n < 10 {
            lemma_decimal_digits(m / 10);
            assert(text::decimal(m).len() >= 2);
            assert(text::decimal(n).len() == 1);
        } else {
            assert(text::decimal(m).drop_last() =~= text::decimal(m / 10));
            assert(text::decimal(n).drop_last() =~= text::decimal(n / 10));
            assert(text::decimal(m).last() == text::digit(m % 10));
            assert(text::decimal(n).last() == text::digit(n % 10));
            lemma_decimal_injective(m / 10, n / 10);
        }
    }
}

/// Two beginnings of a text with the same number of bytes are the same.
proof fn lemma_same_bytes_same_beginning(whole: Seq<char>, a: nat, b: nat)
    requires
        a <= whole.len(),
        b <= whole.len(),
        text::byte_len(whole.take(a as int)) == text::byte_len(whole.take(b as int)),
    ensures
        a == b,
{
    if a < b {
        lemma_longer_has_more_bytes(whole, a, b);
    }
    if b < a {
        lemma_longer_has_more_bytes(whole, b, a);
    }
}

/// A longer beginning of a text has more bytes.
proof fn lemma_longer_has_more_bytes(whole: Seq<char>, a: nat, b: nat)
    requires
        a < b <= whole.len(),
    ensures
        text::byte_len(whole.take(a as int)) < text::byte_len(whole.take(b as int)),
{
    let middle = whole.subrange(a as int, b as int);
    text::lemma_encoding_of_parts(whole.take(a as int), middle);
    assert(whole.take(a as int) + middle =~= whole.take(b as int));
    let first = middle[0];
    vstd::utf8::char_is_scalar(first);
    assert(vstd::utf8::encode_utf8(middle) == vstd::utf8::encode_scalar(first as u32)
        + vstd::utf8::encode_utf8(middle.drop_first()));
}

/// A frame at the beginning of a text can be read off.
proof fn lemma_frame_reads_off(a: Seq<char>, x: Seq<char>, b: Seq<char>, y: Seq<char>)
    requires
        frame(a) + x == frame(b) + y,
    ensures
        a == b,
        x == y,
{
    reveal_strlit(":");
    let m = text::decimal(text::byte_len(a));
    let n = text::decimal(text::byte_len(b));
    lemma_decimal_digits(text::byte_len(a));
    lemma_decimal_digits(text::byte_len(b));
    let whole = frame(a) + x;
    // The second colon stands behind the digits.
    assert(whole[0] == ':');
    assert forall|i: int| 0 <= i < m.len() implies whole[i + 1] == m[i] by {}
    assert forall|i: int| 0 <= i < n.len() implies whole[i + 1] == n[i] by {
        assert((frame(b) + y)[i + 1] == n[i]);
    }
    assert(whole[m.len() as int + 1] == ':');
    assert((frame(b) + y)[n.len() as int + 1] == ':');
    if m.len() < n.len() {
        assert(whole[m.len() as int + 1] == n[m.len() as int]);
        assert(false);
    }
    if n.len() < m.len() {
        assert(whole[n.len() as int + 1] == m[n.len() as int]);
        assert(false);
    }
    assert(m =~= n) by {
        assert forall|i: int| 0 <= i < m.len() implies m[i] == n[i] by {
            assert(whole[i + 1] == m[i]);
            assert(whole[i + 1] == n[i]);
        }
    }
    lemma_decimal_injective(text::byte_len(a), text::byte_len(b));
    // Behind it both components begin the same text.
    let rest = whole.skip(m.len() as int + 2);
    assert(rest =~= a + x);
    assert((frame(b) + y).skip(m.len() as int + 2) =~= b + y);
    assert(rest.take(a.len() as int) =~= a);
    assert(rest.take(b.len() as int) =~= b);
    lemma_same_bytes_same_beginning(rest, a.len(), b.len());
    assert(rest.skip(a.len() as int) =~= x);
    assert(rest.skip(b.len() as int) =~= y);
}

/// The frames of the components, taken from the front.
proof fn lemma_frames_from_front(components: Seq<Seq<char>>)
    requires
        components.len() > 0,
    ensures
        frames(components) == frame(components[0]) + frames(components.drop_first()),
    decreases components.len(),
{
    if components.len() == 1 {
        let none = Seq::<Seq<char>>::empty();
        assert(components.drop_last() =~= none);
        assert(components.drop_first() =~= none);
        assert(frames(none) =~= Seq::<char>::empty());
        assert(frames(components) == frames(none) + frame(components.last()));
        assert(frames(none) + frame(components.last()) =~= frame(components[0]) + frames(none));
    } else {
        let shorter = components.drop_last();
        lemma_frames_from_front(shorter);
        assert(shorter.drop_first() =~= components.drop_first().drop_last());
        assert(components.drop_first().last() == components.last());
        assert((frame(components[0]) + frames(shorter.drop_first())) + frame(components.last())
            =~= frame(components[0]) + (frames(shorter.drop_first()) + frame(components.last())));
    }
}

/// The frames of different components differ.
proof fn lemma_frames_injective(a: Seq<Seq<char>>, b: Seq<Seq<char>>)
    requires
        frames(a) == frames(b),
    ensures
        a == b,
    decreases a.len(),
{
    reveal_strlit(":");
    if a.len() == 0 {
        if b.len() > 0 {
            lemma_frames_from_front(b);
            assert(frames(b).len() > 0);
            assert(false);
        }
        assert(a =~= b);
    } else if b.len() == 0 {
        lemma_frames_from_front(a);
        assert(frames(a).len() > 0);
        assert(false);
    } else {
        lemma_frames_from_front(a);
        lemma_frames_from_front(b);
        lemma_frame_reads_off(
            a[0],
            frames(a.drop_first()),
            b[0],
            frames(b.drop_first()),
        );
        lemma_frames_injective(a.drop_first(), b.drop_first());
        assert(a =~= seq![a[0]] + a.drop_first());
        assert(b =~= seq![b[0]] + b.drop_first());
    }
}

/// Different composite identities of a kind never share a key, however their characters are split.
pub proof fn law_framed_keys_never_collide(
    kind: Seq<char>,
    a: Seq<Seq<char>>,
    b: Seq<Seq<char>>,
)
    requires
        a != b,
    ensures
        framed_key(kind, a) != framed_key(kind, b),
{
    if framed_key(kind, a) == framed_key(kind, b) {
        let head = "legacy:v1:"@ + kind;
        assert(framed_key(kind, a).skip(head.len() as int) =~= frames(a));
        assert(framed_key(kind, b).skip(head.len() as int) =~= frames(b));
        lemma_frames_injective(a, b);
    }
}

/// The key of an assignment is never the key of a todo.
pub proof fn law_surfaces_never_share_a_key(a: Seq<Seq<char>>, b: Seq<Seq<char>>)
    ensures
        framed_key("assignment"@, a) != framed_key("todo"@, b),
{
    reveal_strlit("legacy:v1:");
    reveal_strlit("assignment");
    reveal_strlit("todo");
    assert(framed_key("assignment"@, a)[10] == 'a');
    assert(framed_key("todo"@, b)[10] == 't');
}

/// The status under which an assignment is stored: finished ones are done, all others wait.
pub open spec fn assignment_status(status: LegacyAssignmentStatus) -> WorkStatus {
    match status {
        LegacyAssignmentStatus::Done => WorkStatus::Done,
        LegacyAssignmentStatus::Failed => WorkStatus::Done,
        LegacyAssignmentStatus::Cancelled => WorkStatus::Done,
        _ => WorkStatus::Backlog,
    }
}

/// The status under which an assignment is stored.
pub fn assignment_storage_status(status: LegacyAssignmentStatus) -> (r: WorkStatus)
    ensures
        r == assignment_status(status),
{
    match status {
        LegacyAssignmentStatus::Done
        | LegacyAssignmentStatus::Failed
        | LegacyAssignmentStatus::Cancelled => WorkStatus::Done,
        LegacyAssignmentStatus::Dispatching
        | LegacyAssignmentStatus::Running
        | LegacyAssignmentStatus::AwaitingApproval => WorkStatus::Backlog,
    }
}

/// The status under which a todo is stored.
pub open spec fn todo_status(status: LegacyTodoStatus) -> WorkStatus {
    if status == LegacyTodoStatus::Completed {
        WorkStatus::Done
    } else {
        WorkStatus::Backlog
    }
}

/// The status under which a todo is stored.
pub fn todo_storage_status(status: LegacyTodoStatus) -> (r: WorkStatus)
    ensures
        r == todo_status(status),
{
    match status {
        LegacyTodoStatus::Completed => WorkStatus::Done,
        LegacyTodoStatus::Pending | LegacyTodoStatus::InProgress => WorkStatus::Backlog,
    }
}

/// The execution phase of a stored status: done work has ended.
pub open spec fn phase_of(status: WorkStatus) -> ExecutionPhase {
    if status == WorkStatus::Done {
        ExecutionPhase::Terminal
    } else {
        ExecutionPhase::Unstarted
    }
}

/// The execution phase of a stored status.
pub fn execution_phase_for(status: WorkStatus) -> (r: ExecutionPhase)
    ensures
        r == phase_of(status),
{
    if status == WorkStatus::Done {
        ExecutionPhase::Terminal
    } else {
        ExecutionPhase::Unstarted
    }
}

/// A time member of the provenance, where there is a time.
pub open spec fn time_member(name: Seq<char>, time: Option<u64>) -> Seq<char> {
    match time {
        Some(at) => ",\""@ + name + "\":"@ + text::decimal(at as nat),
        None => Seq::empty(),
    }
}

/// Where a record came from, with the record itself, as JSON.
pub open spec fn provenance_text(
    surface: Seq<char>,
    key: Seq<char>,
    created_at: Option<u64>,
    updated_at: Option<u64>,
    record_json: Seq<char>,
) -> Seq<char> {
    "{\"legacy_surface\":\""@ + surface + "\",\"legacy_key\":"@ + outside::json_string(key)
        + time_member("legacy_created_at_unix_ms"@, created_at) + time_member(
        "legacy_updated_at_unix_ms"@,
        updated_at,
    ) + ",\"legacy_record\":"@ + record_json + "}"@
}

/// A time member of the provenance.
fn time_text(name: &str, time: Option<u64>) -> (r: String)
    ensures
        r@ == time_member(name@, time),
{
    match time {
        Some(at) => {
            let numeral: String = text::numeral(at);
            let mut out: String = text::joined(",\"", name);
            out.append("\":");
            out.append(&numeral);
            out
        },
        None => {
            let out: String = String::new();
            assert(out@ =~= Seq::<char>::empty());
            out
        },
    }
}

/// Where a record came from, with the record itself.
pub fn provenance(
    surface: &str,
    legacy_key: &str,
    created_at_unix_ms: Option<u64>,
    updated_at_unix_ms: Option<u64>,
    record_json: &str,
) -> (r: Result<String, LegacyImportError>)
    ensures
        r matches Ok(out) && out@ == provenance_text(
            surface@,
            legacy_key@,
            created_at_unix_ms,
            updated_at_unix_ms,
            record_json@,
        ),
{
    let key: String = match outside::json_quote(legacy_key) {
        Ok(key) => key,
        Err(reason) => {
            return Err(LegacyImportError::Serialization { reason });
        },
    };
    let created: String = time_text("legacy_created_at_unix_ms", created_at_unix_ms);
    let updated: String = time_text("legacy_updated_at_unix_ms", updated_at_unix_ms);
    let mut out: String = text::joined("{\"legacy_surface\":\"", surface);
    out.append("\",\"legacy_key\":");
    out.append(&key);
    out.append(&created);
    out.append(&updated);
    out.append(",\"legacy_record\":");
    out.append(record_json);
    out.append("}");
    Ok(out)
}

/// A record as it is stored. The times of the import are not part of it.
#[derive(Debug)]
pub struct LegacyProjection {
    pub legacy_key: String,
    pub title: String,
    pub status: WorkStatus,
    pub description: String,
    pub content_hash: String,
    pub legacy_created_at_unix_ms: Option<u64>,
    pub legacy_updated_at_unix_ms: Option<u64>,
}

/// What a record is stored as.
#[verifier::ext_equal]
pub ghost struct Projection {
    pub key: Seq<char>,
    pub title: Seq<char>,
    pub status: WorkStatus,
    pub description: Seq<char>,
    pub content_hash: Seq<char>,
    pub created_at: Option<u64>,
    pub updated_at: Option<u64>,
}

impl View for LegacyProjection {
    type V = Projection;

    open spec fn view(&self) -> Projection {
        Projection {
            key: self.legacy_key@,
            title: self.title@,
            status: self.status,
            description: self.description@,
            content_hash: self.content_hash@,
            created_at: self.legacy_created_at_unix_ms,
            updated_at: self.legacy_updated_at_unix_ms,
        }
    }
}

/// What an assignment is stored as.
pub open spec fn projected_assignment(entry: ImportedAssignment) -> Projection {
    let key = framed_key("assignment"@, seq![entry.record.id@]);
    let description = provenance_text(
        "assignment"@,
        key,
        Some(entry.record.created_at),
        Some(entry.record.updated_at),
        entry.record_json@,
    );
    Projection {
        key,
        title: entry.record.title@,
        status: assignment_status(entry.record.status),
        description,
        content_hash: outside::text_digest(description),
        created_at: Some(entry.record.created_at),
        updated_at: Some(entry.record.updated_at),
    }
}

/// What an assignment is stored as.
pub fn project_assignment(entry: &ImportedAssignment) -> (r: Result<
    LegacyProjection,
    LegacyImportError,
>)
    ensures
        r matches Ok(projection) && projection@ == projected_assignment(*entry) && outside::is_digest(
            projection.content_hash@,
        ),
{
    let mut components: Vec<String> = Vec::new();
    components.push(entry.record.id.clone());
    assert(text::views(components@) =~= seq![entry.record.id@]);
    let legacy_key: String = framed_legacy_key("assignment", &components);
    let description: String = match provenance(
        "assignment",
        &legacy_key,
        Some(entry.record.created_at),
        Some(entry.record.updated_at),
        &entry.record_json,
    ) {
        Ok(description) => description,
        Err(error) => {
            return Err(error);
        },
    };
    let content_hash: String = outside::digest_text(&description);
    Ok(
        LegacyProjection {
            status: assignment_storage_status(entry.record.status),
            title: entry.record.title.clone(),
            description,
            content_hash,
            legacy_key,
            legacy_created_at_unix_ms: Some(entry.record.created_at),
            legacy_updated_at_unix_ms: Some(entry.record.updated_at),
        },
    )
}

/// What a manual todo is stored as.
pub open spec fn projected_todo(entry: ImportedTodo) -> Projection {
    let key = framed_key("todo"@, seq![entry.session_id@, entry.record.id@]);
    let description = provenance_text("manual_todo"@, key, None, None, entry.record_json@);
    Projection {
        key,
        title: entry.record.title@,
        status: todo_status(entry.record.status),
        description,
        content_hash: outside::text_digest(description),
        created_at: None,
        updated_at: None,
    }
}

/// What a manual todo is stored as.
pub fn project_manual_todo(entry: &ImportedTodo) -> (r: Result<LegacyProjection, LegacyImportError>)
    ensures
        r matches Ok(projection) && projection@ == projected_todo(*entry) && outside::is_digest(
            projection.content_hash@,
        ),
{
    let mut components: Vec<String> = Vec::new();
    components.push(entry.session_id.clone());
    components.push(entry.record.id.clone());
    assert(text::views(components@) =~= seq![entry.session_id@, entry.record.id@]);
    let legacy_key: String = framed_legacy_key("todo", &components);
    let description: String = match provenance(
        "manual_todo",
        &legacy_key,
        None,
        None,
        &entry.record_json,
    ) {
        Ok(description) => description,
        Err(error) => {
            return Err(error);
        },
    };
    let content_hash: String = outside::digest_text(&description);
    Ok(
        LegacyProjection {
            status: todo_storage_status(entry.record.status),
            title: entry.record.title.clone(),
            description,
            content_hash,
            legacy_key,
            legacy_created_at_unix_ms: None,
            legacy_updated_at_unix_ms: None,
        },
    )
}

/// The time of a record where it has one, and the time of the import otherwise.
pub open spec fn stamp_of(time: Option<u64>, now: Seq<char>) -> Seq<char> {
    match time {
        Some(at) => "legacy-ms:"@ + text::decimal(at as nat),
        None => now,
    }
}

/// The time of a record where it has one, and the time of the import otherwise.
pub fn legacy_or_import_stamp(unix_ms: Option<u64>, import_stamp: &String) -> (r: String)
    ensures
        r@ == stamp_of(unix_ms, import_stamp@),
{
    match unix_ms {
        Some(at) => {
            let numeral: String = text::numeral(at);
            text::joined("legacy-ms:", &numeral)
        },
        None => import_stamp.clone(),
    }
}

/// The work item is the one that a record is stored as.
pub open spec fn is_assembled(
    item: WorkItem,
    attribution: LegacyImportAttribution,
    projection: Projection,
    created_at: Seq<char>,
    updated_at: Seq<char>,
    revision: Revision,
) -> bool {
    &&& item.id.kind@ == WORK_ITEM_ID@
    &&& item.id.value@ == projection.key
    &&& item.project_id == attribution.project_id
    &&& item.goal_id is None
    &&& item.parent_work_item_id is None
    &&& item.kind@ == TASK@
    &&& item.title@ == projection.title
    &&& item.description@ == projection.description
    &&& item.status == projection.status
    &&& item.execution_phase == phase_of(projection.status)
    &&& item.revision == revision
    &&& item.created_at@ == created_at
    &&& item.updated_at@ == updated_at
}

/// The work item that a record is stored as.
pub fn assembled_work_item(
    attribution: &LegacyImportAttribution,
    projection: &LegacyProjection,
    created_at: String,
    updated_at: String,
    revision: Revision,
) -> (r: WorkItem)
    ensures
        is_assembled(r, *attribution, projection@, created_at@, updated_at@, revision),
{
    WorkItem {
        id: EntityId::new(WORK_ITEM_ID, &projection.legacy_key),
        project_id: attribution.project_id.copy(),
        goal_id: None,
        parent_work_item_id: None,
        kind: TASK.to_owned(),
        title: projection.title.clone(),
        description: projection.description.clone(),
        status: projection.status,
        execution_phase: execution_phase_for(projection.status),
        revision,
        created_at,
        updated_at,
    }
}

/// The mapping of a record: the work item that it is stored as and the hash of its content.
#[derive(Debug)]
pub struct LegacyMapping {
    pub canonical_work_item_id: String,
    pub content_hash: String,
}

/// What a mapping says.
#[verifier::ext_equal]
pub ghost struct Mapped {
    pub canonical: Seq<char>,
    pub hash: Seq<char>,
}

impl View for LegacyMapping {
    type V = Mapped;

    open spec fn view(&self) -> Mapped {
        Mapped { canonical: self.canonical_work_item_id@, hash: self.content_hash@ }
    }
}

/// A store of mappings. A failed operation changes nothing and says why.
pub trait LegacyMappingRepository {
    /// The store is in order.
    spec fn ready(&self) -> bool;

    /// The mappings by key.
    spec fn mappings(&self) -> Map<Seq<char>, Mapped>;

    /// The store itself can fail, whatever it is asked.
    spec fn fallible(&self) -> bool;

    /// The mapping of a key.
    fn find(&self, legacy_key: &str) -> (r: Result<Option<LegacyMapping>, String>)
        requires
            self.ready(),
        ensures
            match r {
                Ok(Some(mapping)) => self.mappings().contains_key(legacy_key@) && mapping@
                    == self.mappings()[legacy_key@],
                Ok(None) => !self.mappings().contains_key(legacy_key@),
                Err(_) => true,
            },
            r is Err ==> self.fallible(),
    ;

    /// Records the mapping of a key that has none.
    fn insert(&mut self, legacy_key: &str, mapping: LegacyMapping) -> (r: Result<(), String>)
        requires
            old(self).ready(),
        ensures
            final(self).ready(),
            match r {
                Ok(_) => !old(self).mappings().contains_key(legacy_key@) && final(self).mappings()
                    == old(self).mappings().insert(legacy_key@, mapping@),
                Err(_) => final(self).mappings() == old(self).mappings(),
            },
            r is Err ==> old(self).fallible() || old(self).mappings().contains_key(legacy_key@),
            final(self).fallible() == old(self).fallible(),
    ;

    /// Refreshes the hash of a key.
    fn refresh(&mut self, legacy_key: &str, content_hash: &str) -> (r: Result<(), String>)
        requires
            old(self).ready(),
        ensures
            final(self).ready(),
            match r {
                Ok(_) => final(self).mappings() == if old(self).mappings().contains_key(
                    legacy_key@,
                ) {
                    old(self).mappings().insert(
                        legacy_key@,
                        (Mapped { hash: content_hash@, ..old(self).mappings()[legacy_key@] }),
                    )
                } else {
                    old(self).mappings()
                },
                Err(_) => final(self).mappings() == old(self).mappings(),
            },
            r is Err ==> old(self).fallible(),
            final(self).fallible() == old(self).fallible(),
    ;
}

/// Mappings in memory.
pub struct LegacyMappingTable {
    pub rows: Table<LegacyMapping>,
}

impl LegacyMappingTable {
    /// A store without mappings.
    pub fn new() -> (r: Self)
        ensures
            r.ready(),
            r.mappings() == Map::<Seq<char>, Mapped>::empty(),
    {
        let r: LegacyMappingTable = LegacyMappingTable { rows: Table::new() };
        assert(r.mappings() =~= Map::empty());
        r
    }

    /// The number of mappings.
    pub fn count(&self) -> (r: usize)
        requires
            self.ready(),
        ensures
            r == self.mappings().dom().len(),
    {
        assert(self.mappings().dom() =~= self.rows@.dom());
        self.rows.len()
    }

    /// Records a mapping, in place of the one that was there.
    pub fn put(&mut self, legacy_key: &str, mapping: LegacyMapping)
        requires
            old(self).ready(),
        ensures
            final(self).ready(),
            final(self).mappings() == old(self).mappings().insert(legacy_key@, mapping@),
    {
        let ghost added = mapping@;
        self.rows.put(legacy_key.to_owned(), mapping);
        assert(self.mappings() =~= old(self).mappings().insert(legacy_key@, added));
    }
}

impl LegacyMappingRepository for LegacyMappingTable {
    open spec fn ready(&self) -> bool {
        self.rows.wf()
    }

    open spec fn mappings(&self) -> Map<Seq<char>, Mapped> {
        self.rows@.map_values(|mapping: LegacyMapping| mapping@)
    }

    open spec fn fallible(&self) -> bool {
        false
    }

    fn find(&self, legacy_key: &str) -> (r: Result<Option<LegacyMapping>, String>)
        ensures
            r is Ok,
    {
        match self.rows.get(legacy_key) {
            Some(mapping) => Ok(
                Some(
                    LegacyMapping {
                        canonical_work_item_id: mapping.canonical_work_item_id.clone(),
                        content_hash: mapping.content_hash.clone(),
                    },
                ),
            ),
            None => Ok(None),
        }
    }

    fn insert(&mut self, legacy_key: &str, mapping: LegacyMapping) -> (r: Result<(), String>)
        ensures
            r is Ok <==> !old(self).mappings().contains_key(legacy_key@),
    {
        if self.rows.has(legacy_key) {
            return Err("the record is mapped already".to_owned());
        }
        self.put(legacy_key, mapping);
        Ok(())
    }

    fn refresh(&mut self, legacy_key: &str, content_hash: &str) -> (r: Result<(), String>)
        ensures
            r is Ok,
    {
        let canonical: String = match self.rows.get(legacy_key) {
            Some(mapping) => mapping.canonical_work_item_id.clone(),
            None => {
                return Ok(());
            },
        };
        let ghost before = self.mappings();
        self.put(
            legacy_key,
            LegacyMapping { canonical_work_item_id: canonical, content_hash: content_hash.to_owned() },
        );
        assert(self.mappings() =~= before.insert(
            legacy_key@,
            Mapped { hash: content_hash@, ..before[legacy_key@] },
        ));
        Ok(())
    }
}

/// What the projection of one record did.
#[derive(Debug, Clone, Copy, PartialEq, Eq, Structural)]
pub enum RecordOutcome {
    Imported,
    Unchanged,
    Updated,
}

/// What an import reads and writes.
#[verifier::ext_equal]
pub ghost struct Ledger {
    pub mappings: Map<Seq<char>, Mapped>,
    pub work: WorkItems,
}

/// The mapping of a record that is stored under its own key.
pub open spec fn own_mapping(projection: Projection) -> Mapped {
    Mapped { canonical: projection.key, hash: projection.content_hash }
}

/// The work item of an unmapped record is there: it was created, or a stopped import left it with
/// the same content in the same project.
pub open spec fn item_recovered(
    before: WorkItems,
    attribution: LegacyImportAttribution,
    projection: Projection,
    now: Seq<char>,
    after: WorkItems,
) -> bool {
    let key = projection.key;
    if before.items.contains_key(key) {
        &&& after == before
        &&& before.items[key].project_id.alike(&attribution.project_id)
        &&& before.items[key].description@ == projection.description
    } else {
        &&& before.projects.contains_key(attribution.project_id.value@)
        &&& is_assembled(
            after.items[key],
            attribution,
            projection,
            stamp_of(projection.created_at, now),
            stamp_of(projection.updated_at, now),
            Revision { value: 0 },
        )
        &&& after == (WorkItems { items: before.items.insert(key, after.items[key]), ..before })
    }
}

/// The work item of a mapped record is replaced by its new content, under its next revision.
pub open spec fn item_updated(
    before: WorkItems,
    attribution: LegacyImportAttribution,
    projection: Projection,
    now: Seq<char>,
    after: WorkItems,
) -> bool {
    let key = projection.key;
    &&& before.items.contains_key(key)
    &&& before.items[key].project_id.alike(&attribution.project_id)
    &&& is_assembled(
        after.items[key],
        attribution,
        projection,
        before.items[key].created_at@,
        stamp_of(projection.updated_at, now),
        before.items[key].revision.following(),
    )
    &&& after == (WorkItems { items: before.items.insert(key, after.items[key]), ..before })
}

/// Another writer moved what the record is stored as.
pub open spec fn is_lost(
    before: Ledger,
    attribution: LegacyImportAttribution,
    projection: Projection,
) -> bool {
    let key = projection.key;
    let held = before.work.items.contains_key(key);
    if !before.mappings.contains_key(key) {
        // A work item without a mapping has other content or another project.
        held && (!before.work.items[key].project_id.alike(&attribution.project_id)
            || before.work.items[key].description@ != projection.description)
    } else if before.mappings[key].canonical != key {
        true
    } else if before.mappings[key].hash == projection.content_hash {
        !held || !before.work.items[key].project_id.alike(&attribution.project_id)
    } else {
        held && !before.work.items[key].project_id.alike(&attribution.project_id)
    }
}

/// The record cannot be stored: its project is not known, or the work item of its mapping is gone.
pub open spec fn is_unstorable(
    before: Ledger,
    attribution: LegacyImportAttribution,
    projection: Projection,
) -> bool {
    let key = projection.key;
    if !before.mappings.contains_key(key) {
        !before.work.projects.contains_key(attribution.project_id.value@)
    } else {
        &&& before.mappings[key].canonical == key
        &&& before.mappings[key].hash != projection.content_hash
        &&& !before.work.items.contains_key(key)
    }
}

/// The record cannot be stored, for a reason in words.
pub open spec fn refuses_with(
    before: Ledger,
    attribution: LegacyImportAttribution,
    projection: Projection,
    reason: Seq<char>,
) -> bool {
    &&& is_unstorable(before, attribution, projection)
    &&& reason == if before.mappings.contains_key(projection.key) {
        "work item not found: "@ + projection.key
    } else {
        "project not found: "@ + attribution.project_id.value@
    }
}

/// What comes of projecting one record.
pub open spec fn project_result(
    before: Ledger,
    attribution: LegacyImportAttribution,
    projection: Projection,
    now: Seq<char>,
    r: Result<RecordOutcome, LegacyImportError>,
    after: Ledger,
) -> bool {
    let key = projection.key;
    let mapped = before.mappings.contains_key(key);
    match r {
        Ok(RecordOutcome::Imported) => {
            &&& !mapped
            &&& item_recovered(before.work, attribution, projection, now, after.work)
            &&& after.mappings == before.mappings.insert(key, own_mapping(projection))
        },
        Ok(RecordOutcome::Unchanged) => {
            &&& mapped
            &&& before.mappings[key] == own_mapping(projection)
            &&& !is_lost(before, attribution, projection)
            &&& after == before
        },
        Ok(RecordOutcome::Updated) => {
            &&& mapped
            &&& before.mappings[key].canonical == key
            &&& before.mappings[key].hash != projection.content_hash
            &&& item_updated(before.work, attribution, projection, now, after.work)
            &&& after.mappings == before.mappings.insert(key, own_mapping(projection))
        },
        Err(LegacyImportError::RevisionConflict { legacy_key }) => {
            &&& legacy_key@ == key
            &&& is_lost(before, attribution, projection)
            &&& after == before
        },
        Err(LegacyImportError::Database { .. }) => {
            // A store failed; the work item may have been written and its mapping not.
            &&& after.mappings == before.mappings
            &&& {
                ||| after.work == before.work
                ||| !mapped && item_recovered(
                    before.work,
                    attribution,
                    projection,
                    now,
                    after.work,
                )
                ||| mapped && item_updated(before.work, attribution, projection, now, after.work)
            }
        },
        Err(_) => false,
    }
}

/// A failure of the store of work items.
fn repository_error(error: &WorkItemRepositoryError) -> (r: LegacyImportError)
    ensures
        r matches LegacyImportError::Database { reason } && reason@ == error.words(),
{
    LegacyImportError::Database { reason: error.to_text() }
}

/// Imports legacy records into a store of mappings and a store of work items.
pub struct LegacyImporter<M: LegacyMappingRepository, W: WorkItemRepository> {
    pub mappings: M,
    pub work_items: W,
}

impl<M: LegacyMappingRepository, W: WorkItemRepository> LegacyImporter<M, W> {
    /// An importer over its stores.
    pub fn new(mappings: M, work_items: W) -> (r: Self)
        ensures
            r.mappings == mappings,
            r.work_items == work_items,
    {
        LegacyImporter { mappings, work_items }
    }

    /// The stores are in order.
    pub open spec fn ready(&self) -> bool {
        self.mappings.ready() && self.work_items.ready()
    }

    /// A store can fail.
    pub open spec fn fallible(&self) -> bool {
        self.mappings.fallible() || self.work_items.fallible()
    }

    /// What the stores hold.
    pub open spec fn ledger(&self) -> Ledger {
        Ledger { mappings: self.mappings.mappings(), work: self.work_items.holdings() }
    }

    /// Projects one record: an unmapped one is created, one with the same content is left alone,
    /// one with other content is updated.
    pub fn project(
        &mut self,
        attribution: &LegacyImportAttribution,
        projection: &LegacyProjection,
        import_stamp: &String,
    ) -> (r: Result<RecordOutcome, LegacyImportError>)
        requires
            old(self).ready(),
        ensures
            final(self).ready(),
            project_result(
                old(self).ledger(),
                *attribution,
                projection@,
                import_stamp@,
                r,
                final(self).ledger(),
            ),
            r matches Err(LegacyImportError::Database { reason }) ==> old(self).fallible()
                || refuses_with(old(self).ledger(), *attribution, projection@, reason@),
            final(self).fallible() == old(self).fallible(),
    {
        let id: EntityId = EntityId::new(WORK_ITEM_ID, &projection.legacy_key);
        let mapping: LegacyMapping = match self.mappings.find(&projection.legacy_key) {
            Ok(Some(mapping)) => mapping,
            Ok(None) => {
                return self.project_new(attribution, projection, &id, import_stamp);
            },
            Err(reason) => {
                return Err(LegacyImportError::Database { reason });
            },
        };
        if !text::same(&mapping.canonical_work_item_id, &id.value) {
            return Err(
                LegacyImportError::RevisionConflict { legacy_key: projection.legacy_key.clone() },
            );
        }
        if text::same(&mapping.content_hash, &projection.content_hash) {
            assert(mapping@ =~= own_mapping(projection@));
            let stored: WorkItem = match self.work_items.get(&id) {
                Ok(stored) => stored,
                Err(WorkItemRepositoryError::NotFound { .. }) => {
                    return Err(
                        LegacyImportError::RevisionConflict {
                            legacy_key: projection.legacy_key.clone(),
                        },
                    );
                },
                Err(error) => {
                    return Err(repository_error(&error));
                },
            };
            if !stored.project_id.same(&attribution.project_id) {
                return Err(
                    LegacyImportError::RevisionConflict {
                        legacy_key: projection.legacy_key.clone(),
                    },
                );
            }
            return Ok(RecordOutcome::Unchanged);
        }
        self.project_changed(attribution, projection, &id, import_stamp)
    }

    /// Projects a record that has no mapping.
    fn project_new(
        &mut self,
        attribution: &LegacyImportAttribution,
        projection: &LegacyProjection,
        id: &EntityId,
        import_stamp: &String,
    ) -> (r: Result<RecordOutcome, LegacyImportError>)
        requires
            old(self).ready(),
            id.kind@ == WORK_ITEM_ID@,
            id.value@ == projection@.key,
            !old(self).ledger().mappings.contains_key(projection@.key),
        ensures
            final(self).ready(),
            project_result(
                old(self).ledger(),
                *attribution,
                projection@,
                import_stamp@,
                r,
                final(self).ledger(),
            ),
            r matches Err(LegacyImportError::Database { reason }) ==> old(self).fallible()
                || refuses_with(old(self).ledger(), *attribution, projection@, reason@),
            final(self).fallible() == old(self).fallible(),
    {
        let created_at: String = legacy_or_import_stamp(
            projection.legacy_created_at_unix_ms,
            import_stamp,
        );
        let updated_at: String = legacy_or_import_stamp(
            projection.legacy_updated_at_unix_ms,
            import_stamp,
        );
        let candidate: WorkItem = assembled_work_item(
            attribution,
            projection,
            created_at,
            updated_at,
            Revision::initial(),
        );
        match self.work_items.create(candidate) {
            Ok(_) => {},
            Err(WorkItemRepositoryError::AlreadyExists { .. }) => {
                let stored: WorkItem = match self.work_items.get(id) {
                    Ok(stored) => stored,
                    Err(error) => {
                        return Err(repository_error(&error));
                    },
                };
                if !stored.project_id.same(&attribution.project_id) || !text::same(
                    &stored.description,
                    &projection.description,
                ) {
                    return Err(
                        LegacyImportError::RevisionConflict {
                            legacy_key: projection.legacy_key.clone(),
                        },
                    );
                }
            },
            Err(error) => {
                return Err(repository_error(&error));
            },
        }
        let mapping: LegacyMapping = LegacyMapping {
            canonical_work_item_id: id.value.clone(),
            content_hash: projection.content_hash.clone(),
        };
        assert(mapping@ =~= own_mapping(projection@));
        match self.mappings.insert(&projection.legacy_key, mapping) {
            Ok(_) => Ok(RecordOutcome::Imported),
            Err(reason) => Err(LegacyImportError::Database { reason }),
        }
    }

    /// Projects a mapped record whose content changed.
    fn project_changed(
        &mut self,
        attribution: &LegacyImportAttribution,
        projection: &LegacyProjection,
        id: &EntityId,
        import_stamp: &String,
    ) -> (r: Result<RecordOutcome, LegacyImportError>)
        requires
            old(self).ready(),
            id.kind@ == WORK_ITEM_ID@,
            id.value@ == projection@.key,
            old(self).ledger().mappings.contains_key(projection@.key),
            old(self).ledger().mappings[projection@.key].canonical == projection@.key,
            old(self).ledger().mappings[projection@.key].hash != projection@.content_hash,
        ensures
            final(self).ready(),
            project_result(
                old(self).ledger(),
                *attribution,
                projection@,
                import_stamp@,
                r,
                final(self).ledger(),
            ),
            r matches Err(LegacyImportError::Database { reason }) ==> old(self).fallible()
                || refuses_with(old(self).ledger(), *attribution, projection@, reason@),
            final(self).fallible() == old(self).fallible(),
    {
        let current: WorkItem = match self.work_items.get(id) {
            Ok(current) => current,
            Err(error) => {
                return Err(repository_error(&error));
            },
        };
        let updated_at: String = legacy_or_import_stamp(
            projection.legacy_updated_at_unix_ms,
            import_stamp,
        );
        let next: WorkItem = assembled_work_item(
            attribution,
            projection,
            current.created_at,
            updated_at,
            current.revision.next(),
        );
        match self.work_items.replace_if_revision(next, current.revision) {
            Ok(_) => {},
            Err(WorkItemRepositoryError::StaleRevision { .. }) => {
                return Err(
                    LegacyImportError::RevisionConflict {
                        legacy_key: projection.legacy_key.clone(),
                    },
                );
            },
            Err(WorkItemRepositoryError::ProjectMismatch { .. }) => {
                return Err(
                    LegacyImportError::RevisionConflict {
                        legacy_key: projection.legacy_key.clone(),
                    },
                );
            },
            Err(error) => {
                return Err(repository_error(&error));
            },
        }
        proof {
            attribution.project_id.alike_reflexive();
        }
        match self.mappings.refresh(&projection.legacy_key, &projection.content_hash) {
            Ok(_) => {
                assert(self.mappings.mappings() =~= old(self).mappings.mappings().insert(
                    projection@.key,
                    own_mapping(projection@),
                ));
                Ok(RecordOutcome::Updated)
            },
            Err(reason) => Err(LegacyImportError::Database { reason }),
        }
    }
}

/// A record of the legacy stores; nothing where the entry is corrupt.
pub ghost enum ImportOp {
    Assignment(Option<ImportedAssignment>),
    Todo(Option<ImportedTodo>),
}

/// The records in the order in which they are imported: the assignments, then the todos.
pub open spec fn import_ops(
    assignments: Seq<Option<ImportedAssignment>>,
    todos: Seq<Option<ImportedTodo>>,
) -> Seq<ImportOp> {
    assignments.map_values(|entry: Option<ImportedAssignment>| ImportOp::Assignment(entry))
        + todos.map_values(|entry: Option<ImportedTodo>| ImportOp::Todo(entry))
}

/// What a record is stored as; nothing where it is not a request for work.
pub open spec fn projection_of(op: ImportOp) -> Option<Projection> {
    match op {
        ImportOp::Assignment(Some(entry)) => Some(projected_assignment(entry)),
        ImportOp::Todo(Some(entry)) => if entry.record.origin == Some(LegacyTodoOrigin::Manual) {
            Some(projected_todo(entry))
        } else {
            None
        },
        _ => None,
    }
}

/// The assignment was made from something outside.
pub open spec fn is_external(entry: ImportedAssignment) -> bool {
    entry.record.source is Issue || entry.record.source is Pr
}

/// What was counted, without a bound.
#[verifier::ext_equal]
pub ghost struct Tally {
    pub assignments_total: nat,
    pub assignments_imported: nat,
    pub assignments_unchanged: nat,
    pub assignments_updated: nat,
    pub assignments_skipped_corrupt: nat,
    pub todos_total: nat,
    pub todos_imported_manual_only: nat,
    pub todos_skipped_agent_plan: nat,
    pub todos_skipped_corrupt: nat,
    pub external_objects_skipped: nat,
}

/// One where the condition holds, none otherwise.
pub open spec fn one_if(condition: bool) -> nat {
    if condition {
        1
    } else {
        0
    }
}

/// What was counted with one more record, of which `outcome` came.
pub open spec fn tallied(before: Tally, op: ImportOp, outcome: Option<RecordOutcome>) -> Tally {
    match op {
        ImportOp::Assignment(entry) => Tally {
            assignments_total: before.assignments_total + 1,
            assignments_skipped_corrupt: before.assignments_skipped_corrupt + one_if(
                entry is None,
            ),
            external_objects_skipped: before.external_objects_skipped + one_if(
                entry is Some && is_external(entry->0),
            ),
            assignments_imported: before.assignments_imported + one_if(
                outcome == Some(RecordOutcome::Imported),
            ),
            assignments_unchanged: before.assignments_unchanged + one_if(
                outcome == Some(RecordOutcome::Unchanged),
            ),
            assignments_updated: before.assignments_updated + one_if(
                outcome == Some(RecordOutcome::Updated),
            ),
            ..before
        },
        ImportOp::Todo(entry) => Tally {
            todos_total: before.todos_total + 1,
            todos_skipped_corrupt: before.todos_skipped_corrupt + one_if(entry is None),
            todos_skipped_agent_plan: before.todos_skipped_agent_plan + one_if(
                entry is Some && projection_of(op) is None,
            ),
            todos_imported_manual_only: before.todos_imported_manual_only + one_if(
                outcome == Some(RecordOutcome::Imported) || outcome == Some(
                    RecordOutcome::Updated,
                ),
            ),
            ..before
        },
    }
}

/// Where an import stands.
#[verifier::ext_equal]
pub ghost struct ImportStanding {
    pub ledger: Ledger,
    pub tally: Tally,
}

/// What one record leaves.
pub open spec fn import_step(
    before: ImportStanding,
    op: ImportOp,
    attribution: LegacyImportAttribution,
    now: Seq<char>,
    outcome: Option<RecordOutcome>,
    after: ImportStanding,
) -> bool {
    &&& after.tally == tallied(before.tally, op, outcome)
    &&& match projection_of(op) {
        Some(projection) => {
            &&& outcome is Some
            &&& project_result(
                before.ledger,
                attribution,
                projection,
                now,
                Ok(outcome->0),
                after.ledger,
            )
        },
        None => outcome is None && after.ledger == before.ledger,
    }
}

/// The first `count` records lead along the trace, each stamped by the clock.
pub open spec fn import_run(
    trace: Seq<ImportStanding>,
    ops: Seq<ImportOp>,
    attribution: LegacyImportAttribution,
    stamps: Seq<Seq<char>>,
    outcomes: Seq<Option<RecordOutcome>>,
    count: nat,
) -> bool {
    &&& trace.len() == count + 1
    &&& stamps.len() == count
    &&& outcomes.len() == count
    &&& count <= ops.len()
    &&& forall|i: int| 0 <= i < count ==> outside::is_clock_text(#[trigger] stamps[i])
    &&& forall|i: int|
        0 <= i < count ==> #[trigger] leads_on(trace, ops, attribution, stamps, outcomes, i)
}

/// Record `i` leads from its place of the trace to the next one.
pub open spec fn leads_on(
    trace: Seq<ImportStanding>,
    ops: Seq<ImportOp>,
    attribution: LegacyImportAttribution,
    stamps: Seq<Seq<char>>,
    outcomes: Seq<Option<RecordOutcome>>,
    i: int,
) -> bool {
    import_step(trace[i], ops[i], attribution, stamps[i], outcomes[i], trace[i + 1])
}

/// A run with one more record is a run.
proof fn lemma_import_extends(
    trace: Seq<ImportStanding>,
    ops: Seq<ImportOp>,
    attribution: LegacyImportAttribution,
    stamps: Seq<Seq<char>>,
    outcomes: Seq<Option<RecordOutcome>>,
    count: nat,
    now: Seq<char>,
    outcome: Option<RecordOutcome>,
    after: ImportStanding,
)
    requires
        import_run(trace, ops, attribution, stamps, outcomes, count),
        count < ops.len(),
        outside::is_clock_text(now),
        import_step(trace.last(), ops[count as int], attribution, now, outcome, after),
    ensures
        import_run(
            trace.push(after),
            ops,
            attribution,
            stamps.push(now),
            outcomes.push(outcome),
            count + 1,
        ),
{
    let longer = trace.push(after);
    let times = stamps.push(now);
    let results = outcomes.push(outcome);
    assert forall|i: int| 0 <= i < count + 1 implies #[trigger] leads_on(
        longer,
        ops,
        attribution,
        times,
        results,
        i,
    ) by {
        if i < count {
            assert(leads_on(trace, ops, attribution, stamps, outcomes, i));
            assert(longer[i] == trace[i]);
        } else {
            assert(longer[i] == trace.last());
        }
    }
}

/// Nothing counted yet.
pub open spec fn no_tally() -> Tally {
    Tally {
        assignments_total: 0,
        assignments_imported: 0,
        assignments_unchanged: 0,
        assignments_updated: 0,
        assignments_skipped_corrupt: 0,
        todos_total: 0,
        todos_imported_manual_only: 0,
        todos_skipped_agent_plan: 0,
        todos_skipped_corrupt: 0,
        external_objects_skipped: 0,
    }
}

/// What a report counts.
pub open spec fn tally_of(report: LegacyImportReport) -> Tally {
    Tally {
        assignments_total: report.assignments_total as nat,
        assignments_imported: report.assignments_imported as nat,
        assignments_unchanged: report.assignments_unchanged as nat,
        assignments_updated: report.assignments_updated as nat,
        assignments_skipped_corrupt: report.assignments_skipped_corrupt as nat,
        todos_total: report.todos_total as nat,
        todos_imported_manual_only: report.todos_imported_manual_only as nat,
        todos_skipped_agent_plan: report.todos_skipped_agent_plan as nat,
        todos_skipped_corrupt: report.todos_skipped_corrupt as nat,
        external_objects_skipped: report.external_objects_skipped as nat,
    }
}

/// Every count of a report is at most so large.
pub open spec fn counts_within(report: LegacyImportReport, assignments: int, todos: int) -> bool {
    &&& report.assignments_total <= assignments
    &&& report.assignments_imported <= assignments
    &&& report.assignments_unchanged <= assignments
    &&& report.assignments_updated <= assignments
    &&& report.assignments_skipped_corrupt <= assignments
    &&& report.external_objects_skipped <= assignments
    &&& report.todos_total <= todos
    &&& report.todos_imported_manual_only <= todos
    &&& report.todos_skipped_agent_plan <= todos
    &&& report.todos_skipped_corrupt <= todos
}

/// The run that leads from the start through every record.
pub open spec fn import_completed(
    start: Ledger,
    ops: Seq<ImportOp>,
    attribution: LegacyImportAttribution,
    report: LegacyImportReport,
    end: Ledger,
) -> bool {
    exists|
        trace: Seq<ImportStanding>,
        stamps: Seq<Seq<char>>,
        outcomes: Seq<Option<RecordOutcome>>,
    |
        {
            &&& #[trigger] import_run(trace, ops, attribution, stamps, outcomes, ops.len())
            &&& trace[0] == (ImportStanding { ledger: start, tally: no_tally() })
            &&& trace.last() == (ImportStanding { ledger: end, tally: tally_of(report) })
        }
}

/// The run that leads from the start to a record that fails.
pub open spec fn import_stopped(
    start: Ledger,
    ops: Seq<ImportOp>,
    attribution: LegacyImportAttribution,
    error: LegacyImportError,
    end: Ledger,
) -> bool {
    exists|
        trace: Seq<ImportStanding>,
        stamps: Seq<Seq<char>>,
        outcomes: Seq<Option<RecordOutcome>>,
        count: nat,
        now: Seq<char>,
    |
        {
            &&& #[trigger] import_run(trace, ops, attribution, stamps, outcomes, count)
            &&& count < ops.len()
            &&& outside::is_clock_text(now)
            &&& trace[0] == (ImportStanding { ledger: start, tally: no_tally() })
            &&& #[trigger] record_failed(
                trace.last().ledger,
                ops[count as int],
                attribution,
                now,
                error,
                end,
            )
        }
}

/// The projection of a record failed.
pub open spec fn record_failed(
    before: Ledger,
    op: ImportOp,
    attribution: LegacyImportAttribution,
    now: Seq<char>,
    error: LegacyImportError,
    after: Ledger,
) -> bool {
    &&& projection_of(op) is Some
    &&& project_result(before, attribution, projection_of(op)->0, now, Err(error), after)
}

/// The record asks for work and cannot be stored, for a reason in words.
pub open spec fn cannot_store(
    before: Ledger,
    op: ImportOp,
    attribution: LegacyImportAttribution,
    reason: Seq<char>,
) -> bool {
    projection_of(op) is Some && refuses_with(before, attribution, projection_of(op)->0, reason)
}

/// A run came to a record that cannot be stored, for a reason in words.
pub open spec fn import_blocked(
    start: Ledger,
    ops: Seq<ImportOp>,
    attribution: LegacyImportAttribution,
    reason: Seq<char>,
) -> bool {
    exists|
        trace: Seq<ImportStanding>,
        stamps: Seq<Seq<char>>,
        outcomes: Seq<Option<RecordOutcome>>,
        count: nat,
    |
        {
            &&& #[trigger] import_run(trace, ops, attribution, stamps, outcomes, count)
            &&& count < ops.len()
            &&& trace[0] == (ImportStanding { ledger: start, tally: no_tally() })
            &&& cannot_store(trace.last().ledger, ops[count as int], attribution, reason)
        }
}

/// What comes of an import. A failure leaves the records before it in place.
pub open spec fn import_result(
    start: Ledger,
    ops: Seq<ImportOp>,
    attribution: Option<LegacyImportAttribution>,
    r: Result<LegacyImportReport, LegacyImportError>,
    end: Ledger,
) -> bool {
    match (attribution, r) {
        (None, Err(LegacyImportError::AttributionRequired)) => end == start,
        (Some(attribution), Ok(report)) => import_completed(start, ops, attribution, report, end),
        (Some(attribution), Err(error)) => import_stopped(start, ops, attribution, error, end),
        _ => false,
    }
}

/// Counts an assignment.
fn count_assignment(
    report: &mut LegacyImportReport,
    entry: &Option<ImportedAssignment>,
    outcome: Option<RecordOutcome>,
    Ghost(assignments): Ghost<int>,
    Ghost(todos): Ghost<int>,
)
    requires
        counts_within(*old(report), assignments, todos),
        assignments < usize::MAX,
    ensures
        counts_within(*final(report), assignments + 1, todos),
        tally_of(*final(report)) == tallied(
            tally_of(*old(report)),
            ImportOp::Assignment(*entry),
            outcome,
        ),
{
    report.assignments_total = report.assignments_total + 1;
    match entry {
        None => {
            report.assignments_skipped_corrupt = report.assignments_skipped_corrupt + 1;
        },
        Some(entry) => match &entry.record.source {
            LegacyAssignmentSource::Issue { .. } => {
                report.external_objects_skipped = report.external_objects_skipped + 1;
            },
            LegacyAssignmentSource::Pr { .. } => {
                report.external_objects_skipped = report.external_objects_skipped + 1;
            },
            _ => {},
        },
    }
    match outcome {
        Some(RecordOutcome::Imported) => {
            report.assignments_imported = report.assignments_imported + 1;
        },
        Some(RecordOutcome::Unchanged) => {
            report.assignments_unchanged = report.assignments_unchanged + 1;
        },
        Some(RecordOutcome::Updated) => {
            report.assignments_updated = report.assignments_updated + 1;
        },
        None => {},
    }
}

/// Counts a todo.
fn count_todo(
    report: &mut LegacyImportReport,
    entry: &Option<ImportedTodo>,
    outcome: Option<RecordOutcome>,
    Ghost(assignments): Ghost<int>,
    Ghost(todos): Ghost<int>,
)
    requires
        counts_within(*old(report), assignments, todos),
        todos < usize::MAX,
    ensures
        counts_within(*final(report), assignments, todos + 1),
        tally_of(*final(report)) == tallied(
            tally_of(*old(report)),
            ImportOp::Todo(*entry),
            outcome,
        ),
{
    report.todos_total = report.todos_total + 1;
    match entry {
        None => {
            report.todos_skipped_corrupt = report.todos_skipped_corrupt + 1;
        },
        Some(entry) => {
            if !is_manual(&entry.record) {
                report.todos_skipped_agent_plan = report.todos_skipped_agent_plan + 1;
            }
        },
    }
    match outcome {
        Some(RecordOutcome::Imported) => {
            report.todos_imported_manual_only = report.todos_imported_manual_only + 1;
        },
        Some(RecordOutcome::Updated) => {
            report.todos_imported_manual_only = report.todos_imported_manual_only + 1;
        },
        _ => {},
    }
}

impl<M: LegacyMappingRepository, W: WorkItemRepository> LegacyImporter<M, W> {
    /// Imports every record of the legacy stores.
    pub fn import(
        &mut self,
        assignments: &Vec<Option<ImportedAssignment>>,
        todos: &Vec<Option<ImportedTodo>>,
        attribution: Option<&LegacyImportAttribution>,
    ) -> (r: Result<LegacyImportReport, LegacyImportError>)
        requires
            old(self).ready(),
        ensures
            final(self).ready(),
            import_result(
                old(self).ledger(),
                import_ops(assignments@, todos@),
                match attribution {
                    Some(attribution) => Some(*attribution),
                    None => None,
                },
                r,
                final(self).ledger(),
            ),
            r matches Err(LegacyImportError::Database { reason }) ==> old(self).fallible()
                || import_blocked(
                old(self).ledger(),
                import_ops(assignments@, todos@),
                *attribution->0,
                reason@,
            ),
    {
        match attribution {
            Some(attribution) => self.import_records(assignments, todos, attribution),
            None => Err(LegacyImportError::AttributionRequired),
        }
    }

    /// Imports every record under an attribution.
    fn import_records(
        &mut self,
        assignments: &Vec<Option<ImportedAssignment>>,
        todos: &Vec<Option<ImportedTodo>>,
        attribution: &LegacyImportAttribution,
    ) -> (r: Result<LegacyImportReport, LegacyImportError>)
        requires
            old(self).ready(),
        ensures
            final(self).ready(),
            match r {
                Ok(report) => import_completed(
                    old(self).ledger(),
                    import_ops(assignments@, todos@),
                    *attribution,
                    report,
                    final(self).ledger(),
                ),
                Err(error) => import_stopped(
                    old(self).ledger(),
                    import_ops(assignments@, todos@),
                    *attribution,
                    error,
                    final(self).ledger(),
                ),
            },
            r matches Err(LegacyImportError::Database { reason }) ==> old(self).fallible()
                || import_blocked(
                old(self).ledger(),
                import_ops(assignments@, todos@),
                *attribution,
                reason@,
            ),
    {
        let ghost ops = import_ops(assignments@, todos@);
        let ghost start = ImportStanding { ledger: self.ledger(), tally: no_tally() };
        let ghost mut trace: Seq<ImportStanding> = seq![start];
        let ghost mut stamps: Seq<Seq<char>> = Seq::empty();
        let ghost mut outcomes: Seq<Option<RecordOutcome>> = Seq::empty();
        let mut report: LegacyImportReport = LegacyImportReport::default();
        let mut i: usize = 0;
        while i < assignments.len()
            invariant
                i <= assignments@.len(),
                self.ready(),
                self.fallible() == old(self).fallible(),
                ops == import_ops(assignments@, todos@),
                start == (ImportStanding { ledger: old(self).ledger(), tally: no_tally() }),
                counts_within(report, i as int, 0),
                import_run(trace, ops, *attribution, stamps, outcomes, i as nat),
                trace[0] == start,
                trace.last() == (ImportStanding {
                    ledger: self.ledger(),
                    tally: tally_of(report),
                }),
            decreases assignments@.len() - i,
        {
            let ghost op = ops[i as int];
            assert(op == ImportOp::Assignment(assignments@[i as int]));
            let now: String = outside::clock_rfc3339();
            let outcome: Option<RecordOutcome> = match self.import_assignment(
                &assignments[i],
                attribution,
                &now,
            ) {
                Ok(outcome) => outcome,
                Err(error) => {
                    assert(record_failed(
                        trace.last().ledger,
                        ops[i as int],
                        *attribution,
                        now@,
                        error,
                        self.ledger(),
                    ));
                    return Err(error);
                },
            };
            count_assignment(&mut report, &assignments[i], outcome, Ghost(i as int), Ghost(0));
            proof {
                let after = ImportStanding { ledger: self.ledger(), tally: tally_of(report) };
                lemma_import_extends(
                    trace,
                    ops,
                    *attribution,
                    stamps,
                    outcomes,
                    i as nat,
                    now@,
                    outcome,
                    after,
                );
                trace = trace.push(after);
                stamps = stamps.push(now@);
                outcomes = outcomes.push(outcome);
            }
            i = i + 1;
        }
        let mut j: usize = 0;
        while j < todos.len()
            invariant
                j <= todos@.len(),
                self.ready(),
                self.fallible() == old(self).fallible(),
                ops == import_ops(assignments@, todos@),
                start == (ImportStanding { ledger: old(self).ledger(), tally: no_tally() }),
                counts_within(report, assignments@.len() as int, j as int),
                import_run(
                    trace,
                    ops,
                    *attribution,
                    stamps,
                    outcomes,
                    (assignments@.len() + j) as nat,
                ),
                trace[0] == start,
                trace.last() == (ImportStanding {
                    ledger: self.ledger(),
                    tally: tally_of(report),
                }),
            decreases todos@.len() - j,
        {
            let ghost at = (assignments@.len() + j) as nat;
            let ghost op = ops[at as int];
            assert(op == ImportOp::Todo(todos@[j as int]));
            let now: String = outside::clock_rfc3339();
            let outcome: Option<RecordOutcome> = match self.import_todo(
                &todos[j],
                attribution,
                &now,
            ) {
                Ok(outcome) => outcome,
                Err(error) => {
                    assert(record_failed(
                        trace.last().ledger,
                        ops[at as int],
                        *attribution,
                        now@,
                        error,
                        self.ledger(),
                    ));
                    return Err(error);
                },
            };
            count_todo(
                &mut report,
                &todos[j],
                outcome,
                Ghost(assignments@.len() as int),
                Ghost(j as int),
            );
            proof {
                let after = ImportStanding { ledger: self.ledger(), tally: tally_of(report) };
                lemma_import_extends(
                    trace,
                    ops,
                    *attribution,
                    stamps,
                    outcomes,
                    at,
                    now@,
                    outcome,
                    after,
                );
                trace = trace.push(after);
                stamps = stamps.push(now@);
                outcomes = outcomes.push(outcome);
            }
            j = j + 1;
        }
        assert(import_run(trace, ops, *attribution, stamps, outcomes, ops.len()));
        Ok(report)
    }

    /// Imports an assignment, where the entry is not corrupt.
    fn import_assignment(
        &mut self,
        entry: &Option<ImportedAssignment>,
        attribution: &LegacyImportAttribution,
        now: &String,
    ) -> (r: Result<Option<RecordOutcome>, LegacyImportError>)
        requires
            old(self).ready(),
        ensures
            final(self).ready(),
            match (projection_of(ImportOp::Assignment(*entry)), r) {
                (Some(projection), Ok(outcome)) => outcome is Some && project_result(
                    old(self).ledger(),
                    *attribution,
                    projection,
                    now@,
                    Ok(outcome->0),
                    final(self).ledger(),
                ),
                (Some(projection), Err(error)) => project_result(
                    old(self).ledger(),
                    *attribution,
                    projection,
                    now@,
                    Err(error),
                    final(self).ledger(),
                ),
                (None, Ok(outcome)) => outcome is None && final(self).ledger() == old(
                    self,
                ).ledger(),
                (None, Err(_)) => false,
            },
            r matches Err(LegacyImportError::Database { reason }) ==> old(self).fallible() || cannot_store(
                old(self).ledger(),
                ImportOp::Assignment(*entry),
                *attribution,
                reason@,
            ),
            final(self).fallible() == old(self).fallible(),
    {
        let entry: &ImportedAssignment = match entry {
            Some(entry) => entry,
            None => {
                return Ok(None);
            },
        };
        let projection: LegacyProjection = match project_assignment(entry) {
            Ok(projection) => projection,
            Err(error) => {
                return Err(error);
            },
        };
        match self.project(attribution, &projection, now) {
            Ok(outcome) => Ok(Some(outcome)),
            Err(error) => Err(error),
        }
    }

    /// Imports a todo, where the entry is not corrupt and a request for work.
    fn import_todo(
        &mut self,
        entry: &Option<ImportedTodo>,
        attribution: &LegacyImportAttribution,
        now: &String,
    ) -> (r: Result<Option<RecordOutcome>, LegacyImportError>)
        requires
            old(self).ready(),
        ensures
            final(self).ready(),
            match (projection_of(ImportOp::Todo(*entry)), r) {
                (Some(projection), Ok(outcome)) => outcome is Some && project_result(
                    old(self).ledger(),
                    *attribution,
                    projection,
                    now@,
                    Ok(outcome->0),
                    final(self).ledger(),
                ),
                (Some(projection), Err(error)) => project_result(
                    old(self).ledger(),
                    *attribution,
                    projection,
                    now@,
                    Err(error),
                    final(self).ledger(),
                ),
                (None, Ok(outcome)) => outcome is None && final(self).ledger() == old(
                    self,
                ).ledger(),
                (None, Err(_)) => false,
            },
            r matches Err(LegacyImportError::Database { reason }) ==> old(self).fallible() || cannot_store(
                old(self).ledger(),
                ImportOp::Todo(*entry),
                *attribution,
                reason@,
            ),
            final(self).fallible() == old(self).fallible(),
    {
        let entry: &ImportedTodo = match entry {
            Some(entry) => entry,
            None => {
                return Ok(None);
            },
        };
        if !is_manual(&entry.record) {
            return Ok(None);
        }
        let projection: LegacyProjection = match project_manual_todo(entry) {
            Ok(projection) => projection,
            Err(error) => {
                return Err(error);
            },
        };
        match self.project(attribution, &projection, now) {
            Ok(outcome) => Ok(Some(outcome)),
            Err(error) => Err(error),
        }
    }
}

/// Whether a todo is a request for work.
fn is_manual(record: &LegacyTodo) -> (r: bool)
    ensures
        r == (record.origin == Some(LegacyTodoOrigin::Manual)),
{
    match record.origin {
        Some(LegacyTodoOrigin::Manual) => true,
        _ => false,
    }
}

/// A record is stored as it is: its mapping and its work item are in place.
pub open spec fn is_settled(
    ledger: Ledger,
    attribution: LegacyImportAttribution,
    projection: Projection,
) -> bool {
    &&& ledger.mappings.contains_key(projection.key)
    &&& ledger.mappings[projection.key] == own_mapping(projection)
    &&& ledger.work.items.contains_key(projection.key)
    &&& ledger.work.items[projection.key].project_id.alike(&attribution.project_id)
}

/// A record that was projected is settled, and what was written is its content.
pub proof fn law_projection_settles_the_record(
    before: Ledger,
    attribution: LegacyImportAttribution,
    projection: Projection,
    now: Seq<char>,
    outcome: RecordOutcome,
    after: Ledger,
)
    requires
        project_result(before, attribution, projection, now, Ok(outcome), after),
    ensures
        is_settled(after, attribution, projection),
        outcome != RecordOutcome::Unchanged ==> after.work.items[projection.key].description@
            == projection.description,
{
    attribution.project_id.alike_reflexive();
}

/// Projecting a settled record again writes nothing: it is unchanged, unless a store itself fails.
pub proof fn law_settled_record_is_left_alone(
    before: Ledger,
    attribution: LegacyImportAttribution,
    projection: Projection,
    now: Seq<char>,
    r: Result<RecordOutcome, LegacyImportError>,
    after: Ledger,
)
    requires
        is_settled(before, attribution, projection),
        project_result(before, attribution, projection, now, r, after),
    ensures
        r == Ok::<RecordOutcome, LegacyImportError>(RecordOutcome::Unchanged) || (r matches Err(
            LegacyImportError::Database { .. },
        )),
        after.mappings == before.mappings,
        r is Ok ==> after == before,
{
}

/// A projection that a store interrupted resumes: whatever it left, nothing stands in the way of
/// the next one, and the record can be settled.
pub proof fn law_interrupted_projection_resumes(
    before: Ledger,
    attribution: LegacyImportAttribution,
    projection: Projection,
    now: Seq<char>,
    reason: String,
    left: Ledger,
)
    requires
        !is_lost(before, attribution, projection),
        !is_unstorable(before, attribution, projection),
        project_result(
            before,
            attribution,
            projection,
            now,
            Err(LegacyImportError::Database { reason }),
            left,
        ),
    ensures
        !is_lost(left, attribution, projection),
        !is_unstorable(left, attribution, projection),
{
    attribution.project_id.alike_reflexive();
}

/// A record disturbs no other: what is stored under another key stays as it is. So a smaller import
/// deletes nothing.
pub proof fn law_other_records_stay(
    before: Ledger,
    attribution: LegacyImportAttribution,
    projection: Projection,
    now: Seq<char>,
    r: Result<RecordOutcome, LegacyImportError>,
    after: Ledger,
    other: Seq<char>,
)
    requires
        project_result(before, attribution, projection, now, r, after),
        other != projection.key,
    ensures
        before.mappings.contains_key(other) <==> after.mappings.contains_key(other),
        before.mappings.contains_key(other) ==> after.mappings[other] == before.mappings[other],
        before.work.items.contains_key(other) <==> after.work.items.contains_key(other),
        before.work.items.contains_key(other) ==> after.work.items[other]
            == before.work.items[other],
{
}

/// The records of an import have keys of their own.
pub open spec fn keys_are_distinct(ops: Seq<ImportOp>) -> bool {
    forall|i: int, j: int|
        0 <= i < j < ops.len() && projection_of(#[trigger] ops[i]) is Some && projection_of(
            #[trigger] ops[j],
        ) is Some ==> projection_of(ops[i])->0.key != projection_of(ops[j])->0.key
}

/// After an import every record is settled.
proof fn lemma_import_settles(
    trace: Seq<ImportStanding>,
    ops: Seq<ImportOp>,
    attribution: LegacyImportAttribution,
    stamps: Seq<Seq<char>>,
    outcomes: Seq<Option<RecordOutcome>>,
    i: int,
    to: int,
)
    requires
        import_run(trace, ops, attribution, stamps, outcomes, ops.len()),
        keys_are_distinct(ops),
        0 <= i < to <= ops.len(),
        projection_of(ops[i]) is Some,
    ensures
        is_settled(trace[to].ledger, attribution, projection_of(ops[i])->0),
    decreases to,
{
    assert(leads_on(trace, ops, attribution, stamps, outcomes, to - 1));
    if to - 1 == i {
        law_projection_settles_the_record(
            trace[i].ledger,
            attribution,
            projection_of(ops[i])->0,
            stamps[i],
            outcomes[i]->0,
            trace[to].ledger,
        );
    } else {
        lemma_import_settles(trace, ops, attribution, stamps, outcomes, i, to - 1);
        if projection_of(ops[to - 1]) is Some {
            law_other_records_stay(
                trace[to - 1].ledger,
                attribution,
                projection_of(ops[to - 1])->0,
                stamps[to - 1],
                Ok(outcomes[to - 1]->0),
                trace[to].ledger,
                projection_of(ops[i])->0.key,
            );
        }
    }
}

/// A re-import writes nothing: importing the same records again, whose keys are their own, changes
/// neither a mapping nor a work item, and every record is unchanged.
pub proof fn law_reimport_is_a_no_op(
    ops: Seq<ImportOp>,
    attribution: LegacyImportAttribution,
    trace: Seq<ImportStanding>,
    stamps: Seq<Seq<char>>,
    outcomes: Seq<Option<RecordOutcome>>,
    again: Seq<ImportStanding>,
    later_stamps: Seq<Seq<char>>,
    later_outcomes: Seq<Option<RecordOutcome>>,
)
    requires
        keys_are_distinct(ops),
        import_run(trace, ops, attribution, stamps, outcomes, ops.len()),
        import_run(again, ops, attribution, later_stamps, later_outcomes, ops.len()),
        again[0].ledger == trace.last().ledger,
    ensures
        again.last().ledger == trace.last().ledger,
        forall|i: int|
            0 <= i < ops.len() && projection_of(#[trigger] ops[i]) is Some ==> later_outcomes[i]
                == Some(RecordOutcome::Unchanged),
{
    assert forall|i: int| 0 <= i < ops.len() && projection_of(#[trigger] ops[i]) is Some implies
        later_outcomes[i] == Some(RecordOutcome::Unchanged) by {
        lemma_reimport(
            ops,
            attribution,
            trace,
            stamps,
            outcomes,
            again,
            later_stamps,
            later_outcomes,
            i + 1,
        );
    }
    lemma_reimport(
        ops,
        attribution,
        trace,
        stamps,
        outcomes,
        again,
        later_stamps,
        later_outcomes,
        ops.len() as int,
    );
}

/// The same, up to a record.
proof fn lemma_reimport(
    ops: Seq<ImportOp>,
    attribution: LegacyImportAttribution,
    trace: Seq<ImportStanding>,
    stamps: Seq<Seq<char>>,
    outcomes: Seq<Option<RecordOutcome>>,
    again: Seq<ImportStanding>,
    later_stamps: Seq<Seq<char>>,
    later_outcomes: Seq<Option<RecordOutcome>>,
    to: int,
)
    requires
        keys_are_distinct(ops),
        import_run(trace, ops, attribution, stamps, outcomes, ops.len()),
        import_run(again, ops, attribution, later_stamps, later_outcomes, ops.len()),
        again[0].ledger == trace.last().ledger,
        0 <= to <= ops.len(),
    ensures
        again[to].ledger == trace.last().ledger,
        to > 0 && projection_of(ops[to - 1]) is Some ==> later_outcomes[to - 1] == Some(
            RecordOutcome::Unchanged,
        ),
    decreases to,
{
    if to > 0 {
        lemma_reimport(
            ops,
            attribution,
            trace,
            stamps,
            outcomes,
            again,
            later_stamps,
            later_outcomes,
            to - 1,
        );
        assert(leads_on(again, ops, attribution, later_stamps, later_outcomes, to - 1));
        if projection_of(ops[to - 1]) is Some {
            lemma_import_settles(
                trace,
                ops,
                attribution,
                stamps,
                outcomes,
                to - 1,
                ops.len() as int,
            );
            law_settled_record_is_left_alone(
                again[to - 1].ledger,
                attribution,
                projection_of(ops[to - 1])->0,
                later_stamps[to - 1],
                Ok(later_outcomes[to - 1]->0),
                again[to].ledger,
            );
        }
    }
}

/// A todo without times of its own is stamped once: a fresh import gives it the same time of
/// creation and of change.
pub proof fn law_untimed_record_is_stamped_once(
    before: Ledger,
    attribution: LegacyImportAttribution,
    projection: Projection,
    now: Seq<char>,
    after: Ledger,
)
    requires
        projection.created_at is None,
        projection.updated_at is None,
        !before.work.items.contains_key(projection.key),
        project_result(
            before,
            attribution,
            projection,
            now,
            Ok(RecordOutcome::Imported),
            after,
        ),
    ensures
        after.work.items[projection.key].created_at@ == now,
        after.work.items[projection.key].updated_at@ == now,
{
}

/// The time of an import never reads as a preserved one: its text is the stamp of no record that has
/// a time of its own.
pub proof fn law_import_time_reads_as_no_preserved_time(now: Seq<char>, at: u64)
    requires
        outside::is_clock_text(now),
    ensures
        stamp_of(None, now) != stamp_of(Some(at), now),
        now[0] != stamp_of(Some(at), now)[0],
{
    reveal_strlit("legacy-ms:");
    let year = now.take(now.len() - 20);
    assert(year[0] == now[0]);
    assert(stamp_of(Some(at), now)[0] == 'l');
}

/// Nothing that the ledger held is gone.
pub open spec fn keeps_everything(before: Ledger, after: Ledger) -> bool {
    &&& before.mappings.dom().subset_of(after.mappings.dom())
    &&& before.work.items.dom().subset_of(after.work.items.dom())
    &&& after.work.projects == before.work.projects
}

/// A run keeps everything, up to a record.
proof fn lemma_run_keeps_everything(
    trace: Seq<ImportStanding>,
    ops: Seq<ImportOp>,
    attribution: LegacyImportAttribution,
    stamps: Seq<Seq<char>>,
    outcomes: Seq<Option<RecordOutcome>>,
    count: nat,
    to: int,
)
    requires
        import_run(trace, ops, attribution, stamps, outcomes, count),
        0 <= to <= count,
    ensures
        keeps_everything(trace[0].ledger, trace[to].ledger),
    decreases to,
{
    if to > 0 {
        lemma_run_keeps_everything(trace, ops, attribution, stamps, outcomes, count, to - 1);
        assert(leads_on(trace, ops, attribution, stamps, outcomes, to - 1));
    }
}

/// An import deletes nothing, whether it completes or stops at a record: every mapping and every
/// work item that was there is still there, and no project is touched.
pub proof fn law_import_deletes_nothing(
    start: Ledger,
    ops: Seq<ImportOp>,
    attribution: Option<LegacyImportAttribution>,
    r: Result<LegacyImportReport, LegacyImportError>,
    end: Ledger,
)
    requires
        import_result(start, ops, attribution, r, end),
    ensures
        keeps_everything(start, end),
{
    if let Some(attribution) = attribution {
        match r {
            Ok(report) => {
                let (trace, stamps, outcomes) = choose|
                    trace: Seq<ImportStanding>,
                    stamps: Seq<Seq<char>>,
                    outcomes: Seq<Option<RecordOutcome>>,
                |
                    {
                        &&& #[trigger] import_run(
                            trace,
                            ops,
                            attribution,
                            stamps,
                            outcomes,
                            ops.len(),
                        )
                        &&& trace[0] == (ImportStanding { ledger: start, tally: no_tally() })
                        &&& trace.last() == (ImportStanding { ledger: end, tally: tally_of(report) })
                    };
                lemma_run_keeps_everything(
                    trace,
                    ops,
                    attribution,
                    stamps,
                    outcomes,
                    ops.len(),
                    ops.len() as int,
                );
            },
            Err(error) => {
                let (trace, stamps, outcomes, count, now) = choose|
                    trace: Seq<ImportStanding>,
                    stamps: Seq<Seq<char>>,
                    outcomes: Seq<Option<RecordOutcome>>,
                    count: nat,
                    now: Seq<char>,
                |
                    {
                        &&& #[trigger] import_run(trace, ops, attribution, stamps, outcomes, count)
                        &&& count < ops.len()
                        &&& outside::is_clock_text(now)
                        &&& trace[0] == (ImportStanding { ledger: start, tally: no_tally() })
                        &&& #[trigger] record_failed(
                            trace.last().ledger,
                            ops[count as int],
                            attribution,
                            now,
                            error,
                            end,
                        )
                    };
                lemma_run_keeps_everything(
                    trace,
                    ops,
                    attribution,
                    stamps,
                    outcomes,
                    count,
                    count as int,
                );
                assert(keeps_everything(trace.last().ledger, end));
            },
        }
    }
}

} // verus!
