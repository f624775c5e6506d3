//! The transfer of legacy automations into canonical work items and routines. Every automation is
//! accounted for: a cron schedule is mapped, any other is recorded as incompatible and blocks the
//! cutover. Re-runs are idempotent by content; changed content is refused, never rewritten.
use vstd::prelude::*;
use vstd::string::*;
use crate::model::{Actor, EntityId, Revision, ROUTINE_ID, ROUTINE_REVISION_ID, WORK_ITEM_ID};
use crate::outside;
use crate::record::Record;
use crate::routine_repository::{
    Routine, RoutineError, RoutineRepository, RoutineRevision, RoutineStatus, RoutineTrigger,
    Routines,
};
use crate::table::Table;
use crate::text;
use crate::work_item_repository::{
    ExecutionPhase, WorkItem, WorkItemRepository, WorkItemRepositoryError, WorkItems, WorkStatus,
    TASK,
};

verus! {

/// The schedule of a legacy automation.
#[derive(Debug)]
pub enum LegacySchedule {
    /// Once, at a time.
    At { at_ms: i64 },
    /// At intervals.
    Every { every_ms: i64 },
    /// By a cron expression.
    Cron { cron_expr: String },
}

impl LegacySchedule {
    /// The same schedule.
    pub fn copy(&self) -> (r: Self)
        ensures
            r == *self,
    {
        match self {
            LegacySchedule::At { at_ms } => LegacySchedule::At { at_ms: *at_ms },
            LegacySchedule::Every { every_ms } => LegacySchedule::Every { every_ms: *every_ms },
            LegacySchedule::Cron { cron_expr } => LegacySchedule::Cron {
                cron_expr: cron_expr.clone(),
            },
        }
    }
}

/// An active automation of the legacy store.
#[derive(Debug)]
pub struct CronAutomationRecord {
    pub id: String,
    pub schedule: LegacySchedule,
    pub message: String,
    pub chat_id: String,
    pub channel: String,
    pub enabled: bool,
}

/// A row of the legacy store, with its schedule read from its JSON text or the reason why it could
/// not be read.
#[derive(Debug)]
pub struct CronJobRow {
    pub id: String,
    pub schedule: Result<LegacySchedule, String>,
    pub message: String,
    pub chat_id: String,
    pub channel: String,
    pub enabled: i64,
    /// When the automation was completed, in milliseconds since the epoch; none where it is active.
    pub completed_at_ms: Option<i64>,
}

/// The rows of the automations that are not completed, in order.
pub open spec fn active_rows(rows: Seq<CronJobRow>) -> Seq<CronJobRow>
    decreases rows.len(),
{
    if rows.len() == 0 {
        Seq::empty()
    } else if rows.last().completed_at_ms is None {
        active_rows(rows.drop_last()).push(rows.last())
    } else {
        active_rows(rows.drop_last())
    }
}

/// The active rows of the first ones are the first of the active rows.
proof fn lemma_active_rows_prefix(rows: Seq<CronJobRow>, count: int)
    requires
        0 <= count <= rows.len(),
    ensures
        active_rows(rows.take(count)).is_prefix_of(active_rows(rows)),
    decreases rows.len(),
{
    if count == rows.len() {
        assert(rows.take(count) =~= rows);
    } else {
        lemma_active_rows_prefix(rows.drop_last(), count);
        assert(rows.drop_last().take(count) =~= rows.take(count));
    }
}

/// `automation` is what a row with a readable schedule says.
pub open spec fn is_read_from(automation: CronAutomationRecord, row: CronJobRow) -> bool {
    &&& automation.id == row.id
    &&& row.schedule == Ok::<LegacySchedule, String>(automation.schedule)
    &&& automation.message == row.message
    &&& automation.chat_id == row.chat_id
    &&& automation.channel == row.channel
    &&& automation.enabled == (row.enabled != 0)
}

/// Reads the active automations from the rows of the legacy store; completed ones are passed over.
/// The first active row whose schedule cannot be read fails the whole.
pub fn read_active_automations(rows: &Vec<CronJobRow>) -> (r: Result<
    Vec<CronAutomationRecord>,
    TransferError,
>)
    ensures
        ({
            let active = active_rows(rows@);
            match r {
                Ok(automations) => {
                    &&& automations@.len() == active.len()
                    &&& forall|i: int|
                        0 <= i < active.len() ==> is_read_from(
                            #[trigger] automations@[i],
                            active[i],
                        )
                },
                Err(error) => exists|i: int|
                    {
                        &&& 0 <= i < active.len()
                        &&& (#[trigger] active[i]).schedule is Err
                        &&& forall|k: int| 0 <= k < i ==> (#[trigger] active[k]).schedule is Ok
                        &&& error matches TransferError::Database { reason }
                        &&& reason@ == "automation "@ + active[i].id@
                            + " has an unreadable schedule: "@ + active[i].schedule->Err_0@
                    },
            }
        }),
{
    let ghost active = active_rows(rows@);
    let mut automations: Vec<CronAutomationRecord> = Vec::new();
    let mut i: usize = 0;
    assert(active_rows(rows@.take(0)) =~= Seq::empty());
    while i < rows.len()
        invariant
            i <= rows@.len(),
            active == active_rows(rows@),
            automations@.len() == active_rows(rows@.take(i as int)).len(),
            forall|k: int|
                0 <= k < automations@.len() ==> is_read_from(
                    #[trigger] automations@[k],
                    active_rows(rows@.take(i as int))[k],
                ),
        decreases rows@.len() - i,
    {
        let row: &CronJobRow = &rows[i];
        proof {
            assert(rows@.take(i + 1).drop_last() =~= rows@.take(i as int));
            lemma_active_rows_prefix(rows@, i + 1);
        }
        if row.completed_at_ms.is_none() {
            match &row.schedule {
                Ok(schedule) => {
                    automations.push(
                        CronAutomationRecord {
                            id: row.id.clone(),
                            schedule: schedule.copy(),
                            message: row.message.clone(),
                            chat_id: row.chat_id.clone(),
                            channel: row.channel.clone(),
                            enabled: row.enabled != 0,
                        },
                    );
                },
                Err(words) => {
                    let start: String = text::around(
                        "automation ",
                        &row.id,
                        " has an unreadable schedule: ",
                    );
                    proof {
                        let read = active_rows(rows@.take(i as int));
                        let at = read.len() as int;
                        assert(active_rows(rows@.take(i + 1))[at] == *row);
                        assert(active[at] == *row);
                        assert forall|k: int| 0 <= k < at implies (
                        #[trigger] active[k]).schedule is Ok by {
                            assert(active[k] == active_rows(rows@.take(i + 1))[k]);
                            assert(is_read_from(automations@[k], read[k]));
                        }
                        assert(active[at].schedule is Err);
                    }
                    return Err(TransferError::Database { reason: text::joined(&start, words) });
                },
            }
        }
        i = i + 1;
    }
    assert(rows@.take(i as int) =~= rows@);
    Ok(automations)
}

/// To whom transferred work is attributed.
#[derive(Debug)]
pub struct TransferAttribution {
    pub organization_id: EntityId,
    pub project_id: EntityId,
    pub actor: Actor,
}

/// Why a transfer step failed.
#[derive(Debug)]
pub enum TransferError {
    /// The automation's content changed after it was mapped.
    AutomationChanged { automation_id: String },
    /// The cutover is blocked; each blocker names an automation and what stands in its way.
    EnableBlocked { blockers: Vec<(String, String)> },
    /// The project does not exist or belongs to another organization.
    ProjectResolution { reason: String },
    Database { reason: String },
}

/// An automation and what stands in its way, in words.
pub open spec fn blocker_words(blockers: Seq<(String, String)>) -> Seq<Seq<char>> {
    blockers.map_values(|blocker: (String, String)| blocker.0@ + ": "@ + blocker.1@)
}

impl TransferError {
    /// The words of the error.
    pub open spec fn words(&self) -> Seq<char> {
        match *self {
            TransferError::AutomationChanged { automation_id } => "automation "@
                + automation_id@
                + " changed after it was mapped; re-mapping is an explicit operator decision"@,
            TransferError::EnableBlocked { blockers } => "canonical scheduling is blocked by "@
                + text::decimal(blockers@.len()) + " unmapped automation(s): "@ + text::join(
                blocker_words(blockers@),
                ", "@,
            ),
            TransferError::ProjectResolution { reason } => reason@,
            TransferError::Database { reason } => "cron automation transfer failed: "@
                + reason@,
        }
    }

    /// The error in words.
    pub fn to_text(&self) -> (r: String)
        ensures
            r@ == self.words(),
    {
        match self {
            TransferError::AutomationChanged { automation_id } => {
                let mut out: String = text::joined("automation ", automation_id);
                out.append(
                    " changed after it was mapped; re-mapping is an explicit operator decision",
                );
                out
            },
            TransferError::EnableBlocked { blockers } => {
                let mut parts: Vec<String> = Vec::new();
                let mut i: usize = 0;
                while i < blockers.len()
                    invariant
                        i <= blockers@.len(),
                        text::views(parts@) == blocker_words(blockers@).take(i as int),
                    decreases blockers@.len() - i,
                {
                    let mut part: String = text::joined(&blockers[i].0, ": ");
                    part.append(&blockers[i].1);
                    let ghost earlier = parts@;
                    parts.push(part);
                    proof {
                        assert(text::views(parts@) =~= text::views(earlier).push(part@));
                        assert(blocker_words(blockers@).take(i + 1) =~= blocker_words(
                            blockers@,
                        ).take(i as int).push(blocker_words(blockers@)[i as int]));
                    }
                    i = i + 1;
                }
                assert(blocker_words(blockers@).take(i as int) =~= blocker_words(blockers@));
                let count: String = text::numeral(blockers.len() as u64);
                let mut out: String = text::joined("canonical scheduling is blocked by ", &count);
                out.append(" unmapped automation(s): ");
                let listed: String = text::join_all(&parts, ", ");
                out.append(&listed);
                out
            },
            TransferError::ProjectResolution { reason } => reason.clone(),
            TransferError::Database { reason } => text::joined(
                "cron automation transfer failed: ",
                reason,
            ),
        }
    }
}

/// What a snapshot counted.
#[derive(Debug, Clone, Copy, PartialEq, Eq, Structural)]
pub struct SnapshotReport {
    pub total_active: usize,
    pub newly_mapped: usize,
    pub already_mapped: usize,
    pub incompatible: usize,
}

/// What becomes of an automation.
#[derive(Debug)]
pub enum Disposition {
    Mapped { routine_id: EntityId, work_item_id: EntityId },
    /// The schedule has no canonical trigger.
    Incompatible { reason: String },
}

/// The disposition of a mapped automation.
pub const MAPPED: &'static str = "mapped";

/// The disposition of an incompatible automation.
pub const INCOMPATIBLE: &'static str = "incompatible";

/// The mapping of an automation.
#[derive(Debug)]
pub struct MappingRow {
    pub disposition: String,
    pub routine_id: Option<String>,
    pub work_item_id: Option<String>,
    pub content_hash: String,
    pub provenance_json: String,
    pub retired_at_unix_seconds: Option<u64>,
}

impl Record for MappingRow {
    open spec fn alike(&self, other: &Self) -> bool {
        self@ == other@
    }

    proof fn alike_reflexive(&self) {
    }

    fn same(&self, other: &Self) -> (r: bool) {
        let r: bool = self.disposition.same(&other.disposition) && self.routine_id.same(
            &other.routine_id,
        ) && self.work_item_id.same(&other.work_item_id) && self.content_hash.same(
            &other.content_hash,
        ) && self.provenance_json.same(&other.provenance_json)
            && self.retired_at_unix_seconds.same(&other.retired_at_unix_seconds);
        assert(self.routine_id.alike(&other.routine_id) <==> text_of(self.routine_id) == text_of(
            other.routine_id,
        ));
        assert(self.work_item_id.alike(&other.work_item_id) <==> text_of(self.work_item_id)
            == text_of(other.work_item_id));
        r
    }

    fn copy(&self) -> (r: Self) {
        MappingRow {
            disposition: self.disposition.copy(),
            routine_id: self.routine_id.copy(),
            work_item_id: self.work_item_id.copy(),
            content_hash: self.content_hash.copy(),
            provenance_json: self.provenance_json.copy(),
            retired_at_unix_seconds: self.retired_at_unix_seconds,
        }
    }
}

/// An optional text as its characters.
pub open spec fn text_of(value: Option<String>) -> Option<Seq<char>> {
    match value {
        Some(value) => Some(value@),
        None => None,
    }
}

/// What the mapping of an automation says.
#[verifier::ext_equal]
pub ghost struct Mapping {
    pub disposition: Seq<char>,
    pub routine_id: Option<Seq<char>>,
    pub work_item_id: Option<Seq<char>>,
    pub content_hash: Seq<char>,
    pub provenance_json: Seq<char>,
    pub retired_at: Option<u64>,
}

impl View for MappingRow {
    type V = Mapping;

    open spec fn view(&self) -> Mapping {
        Mapping {
            disposition: self.disposition@,
            routine_id: text_of(self.routine_id),
            work_item_id: text_of(self.work_item_id),
            content_hash: self.content_hash@,
            provenance_json: self.provenance_json@,
            retired_at: self.retired_at_unix_seconds,
        }
    }
}

/// The mappings after a retirement: the first one recorded stands, and an unknown automation
/// changes nothing.
pub open spec fn retired(
    before: Map<Seq<char>, Mapping>,
    automation_id: Seq<char>,
    at: u64,
) -> Map<Seq<char>, Mapping> {
    if before.contains_key(automation_id) && before[automation_id].retired_at is None {
        before.insert(automation_id, Mapping { retired_at: Some(at), ..before[automation_id] })
    } else {
        before
    }
}

/// A store of mappings. A failed operation changes nothing and says why.
pub trait MappingRepository {
    /// The store is in order.
    spec fn ready(&self) -> bool;

    /// The mappings by automation.
    spec fn mappings(&self) -> Map<Seq<char>, Mapping>;

    /// The store itself can fail, whatever it is asked.
    spec fn fallible(&self) -> bool;

    /// The mapping of an automation.
    fn find(&self, automation_id: &str) -> (r: Result<Option<MappingRow>, String>)
        requires
            self.ready(),
        ensures
            match r {
                Ok(Some(row)) => self.mappings().contains_key(automation_id@) && row@
                    == self.mappings()[automation_id@],
                Ok(None) => !self.mappings().contains_key(automation_id@),
                Err(_) => true,
            },
            r is Err ==> self.fallible(),
    ;

    /// Records the mapping of an automation that has none.
    fn insert(&mut self, automation_id: &str, row: MappingRow) -> (r: Result<(), String>)
        requires
            old(self).ready(),
        ensures
            final(self).ready(),
            match r {
                Ok(_) => !old(self).mappings().contains_key(automation_id@)
                    && final(self).mappings() == old(self).mappings().insert(
                    automation_id@,
                    row@,
                ),
                Err(_) => final(self).mappings() == old(self).mappings(),
            },
            r is Err ==> old(self).fallible() || old(self).mappings().contains_key(automation_id@),
            final(self).fallible() == old(self).fallible(),
    ;

    /// Records the retirement of an automation.
    fn retire(&mut self, automation_id: &str, at_unix_seconds: u64) -> (r: Result<(), String>)
        requires
            old(self).ready(),
        ensures
            final(self).ready(),
            match r {
                Ok(_) => final(self).mappings() == retired(
                    old(self).mappings(),
                    automation_id@,
                    at_unix_seconds,
                ),
                Err(_) => final(self).mappings() == old(self).mappings(),
            },
            r is Err ==> old(self).fallible(),
            final(self).fallible() == old(self).fallible(),
    ;
}

/// Mappings in memory.
pub struct MappingTable {
    pub rows: Table<MappingRow>,
}

impl MappingTable {
    /// A store without mappings.
    pub fn new() -> (r: Self)
        ensures
            r.ready(),
            r.mappings() == Map::<Seq<char>, Mapping>::empty(),
    {
        let r: MappingTable = MappingTable { rows: Table::new() };
        assert(r.mappings() =~= Map::empty());
        r
    }

    /// The number of mappings.
    pub fn count(&self) -> (r: usize)
        requires
            self.ready(),
        ensures
            r == self.mappings().dom().len(),
    {
        assert(self.mappings().dom() =~= self.rows@.dom());
        self.rows.len()
    }
}

impl MappingRepository for MappingTable {
    open spec fn ready(&self) -> bool {
        self.rows.wf()
    }

    open spec fn mappings(&self) -> Map<Seq<char>, Mapping> {
        self.rows@.map_values(|row: MappingRow| row@)
    }

    open spec fn fallible(&self) -> bool {
        false
    }

    fn find(&self, automation_id: &str) -> (r: Result<Option<MappingRow>, String>)
        ensures
            r is Ok,
    {
        match self.rows.get(automation_id) {
            Some(row) => Ok(Some(row.copy())),
            None => Ok(None),
        }
    }

    fn insert(&mut self, automation_id: &str, row: MappingRow) -> (r: Result<(), String>)
        ensures
            r is Ok <==> !old(self).mappings().contains_key(automation_id@),
    {
        if self.rows.has(automation_id) {
            return Err("the automation is mapped already".to_owned());
        }
        let ghost added = row@;
        self.rows.put(automation_id.to_owned(), row);
        assert(self.mappings() =~= old(self).mappings().insert(automation_id@, added));
        Ok(())
    }

    fn retire(&mut self, automation_id: &str, at_unix_seconds: u64) -> (r: Result<(), String>)
        ensures
            r is Ok,
    {
        let mut row: MappingRow = match self.rows.get(automation_id) {
            Some(row) => row.copy(),
            None => {
                return Ok(());
            },
        };
        if row.retired_at_unix_seconds.is_some() {
            return Ok(());
        }
        row.retired_at_unix_seconds = Some(at_unix_seconds);
        let ghost changed = row@;
        self.rows.put(automation_id.to_owned(), row);
        assert(self.mappings() =~= old(self).mappings().insert(automation_id@, changed));
        assert(changed =~= Mapping {
            retired_at: Some(at_unix_seconds),
            ..old(self).mappings()[automation_id@]
        });
        Ok(())
    }
}

/// A schedule as JSON.
pub open spec fn schedule_json(schedule: LegacySchedule) -> Seq<char> {
    match schedule {
        LegacySchedule::At { at_ms } => "{\"at\":{\"at_ms\":"@ + text::signed_decimal(at_ms as int)
            + "}}"@,
        LegacySchedule::Every { every_ms } => "{\"every\":{\"every_ms\":"@ + text::signed_decimal(
            every_ms as int,
        ) + "}}"@,
        LegacySchedule::Cron { cron_expr } => "{\"cron\":{\"cron_expr\":"@ + outside::json_string(
            cron_expr@,
        ) + "}}"@,
    }
}

/// A text as a JSON string.
fn quoted(value: &str) -> (r: String)
    ensures
        r@ == outside::json_string(value@),
{
    match outside::json_quote(value) {
        Ok(quoted) => quoted,
        Err(message) => message,
    }
}

/// A schedule as JSON.
fn schedule_to_json(schedule: &LegacySchedule) -> (r: String)
    ensures
        r@ == schedule_json(*schedule),
{
    let (head, value): (&str, String) = match schedule {
        LegacySchedule::At { at_ms } => ("{\"at\":{\"at_ms\":", text::signed_numeral(*at_ms)),
        LegacySchedule::Every { every_ms } => (
            "{\"every\":{\"every_ms\":",
            text::signed_numeral(*every_ms),
        ),
        LegacySchedule::Cron { cron_expr } => ("{\"cron\":{\"cron_expr\":", quoted(cron_expr)),
    };
    let mut out: String = text::joined(head, &value);
    out.append("}}");
    out
}

/// What the content hash of an automation covers: everything but its identifier.
pub open spec fn content_text(automation: CronAutomationRecord) -> Seq<char> {
    schedule_json(automation.schedule) + "\n"@ + automation.message@ + "\n"@ + automation.chat_id@
        + "\n"@ + automation.channel@ + "\n"@ + (if automation.enabled {
        "1"@
    } else {
        "0"@
    })
}

/// The content hash of an automation.
pub open spec fn content_digest(automation: CronAutomationRecord) -> Seq<char> {
    outside::text_digest(content_text(automation))
}

/// The content hash of an automation.
pub fn content_hash(automation: &CronAutomationRecord) -> (r: String)
    ensures
        r@ == content_digest(*automation),
        outside::is_digest(r@),
{
    let mut content: String = schedule_to_json(&automation.schedule);
    content.append("\n");
    content.append(&automation.message);
    content.append("\n");
    content.append(&automation.chat_id);
    content.append("\n");
    content.append(&automation.channel);
    content.append("\n");
    content.append(
        if automation.enabled {
            "1"
        } else {
            "0"
        },
    );
    outside::digest_text(&content)
}

/// Where an automation came from, as JSON with its keys in order.
pub open spec fn provenance(automation: CronAutomationRecord, reason: Option<Seq<char>>) -> Seq<
    char,
> {
    "{\"channel\":"@ + outside::json_string(automation.channel@) + ",\"chat_id\":"@
        + outside::json_string(automation.chat_id@) + ",\"enabled\":"@ + (if automation.enabled {
        "true"@
    } else {
        "false"@
    }) + (match reason {
        Some(reason) => ",\"incompatible_reason\":"@ + outside::json_string(reason),
        None => Seq::empty(),
    }) + ",\"message\":"@ + outside::json_string(automation.message@)
        + ",\"source\":\"cron_actor\"}"@
}

/// Where an automation came from.
pub fn provenance_with(automation: &CronAutomationRecord, reason: Option<&str>) -> (r: String)
    ensures
        r@ == provenance(
            *automation,
            match reason {
                Some(reason) => Some(reason@),
                None => None,
            },
        ),
{
    let channel: String = quoted(&automation.channel);
    let chat_id: String = quoted(&automation.chat_id);
    let message: String = quoted(&automation.message);
    let mut out: String = text::joined("{\"channel\":", &channel);
    out.append(",\"chat_id\":");
    out.append(&chat_id);
    out.append(",\"enabled\":");
    out.append(
        if automation.enabled {
            "true"
        } else {
            "false"
        },
    );
    let ghost so_far = out@;
    match reason {
        Some(reason) => {
            let why: String = quoted(reason);
            let added: String = text::joined(",\"incompatible_reason\":", &why);
            out.append(&added);
        },
        None => {
            assert(out@ =~= so_far + Seq::<char>::empty());
        },
    }
    out.append(",\"message\":");
    out.append(&message);
    out.append(",\"source\":\"cron_actor\"}");
    out
}

/// The longest title of a transferred work item, in bytes.
pub const MAX_SNAPSHOT_TITLE_BYTES: usize = 200;

/// The title of the work item of an automation: the first line of its message, or its identifier
/// where that line is blank.
pub open spec fn snapshot_title(automation: CronAutomationRecord) -> Seq<char> {
    let line = text::trimmed(text::first_line(automation.message@));
    text::truncated(
        if line.len() == 0 {
            "automation "@ + automation.id@
        } else {
            line
        },
        MAX_SNAPSHOT_TITLE_BYTES as nat,
    )
}

/// The title of the work item of an automation.
fn title_for(automation: &CronAutomationRecord) -> (r: String)
    ensures
        r@ == snapshot_title(*automation),
{
    let line: String = text::line_before(&automation.message);
    let mut title: String = text::trim(&line);
    if title.as_str().is_empty() {
        title = text::joined("automation ", &automation.id);
    }
    text::truncate(&title, MAX_SNAPSHOT_TITLE_BYTES)
}

/// Why a schedule has no canonical trigger.
pub open spec fn incompatible_reason(schedule: LegacySchedule) -> Option<Seq<char>> {
    match schedule {
        LegacySchedule::At { .. } => Some("one-shot (At) schedule has no canonical trigger"@),
        LegacySchedule::Every { .. } => Some("interval (Every) schedule has no canonical trigger"@),
        LegacySchedule::Cron { .. } => None,
    }
}

/// The identifier of the work item and of the routine of an automation.
pub open spec fn snapshot_id(automation: CronAutomationRecord) -> Seq<char> {
    "snap_"@ + automation.id@
}

/// The identifier of the routine revision of an automation.
pub open spec fn snapshot_revision_id(automation: CronAutomationRecord) -> Seq<char> {
    snapshot_id(automation) + "_r0"@
}

/// When an automation is mapped.
#[derive(Debug)]
pub struct SnapshotStamp {
    pub unix_seconds: u64,
    pub created_at: String,
    pub updated_at: String,
}

/// The stamp was read from the clock.
pub open spec fn by_the_clock(stamp: SnapshotStamp) -> bool {
    &&& exists|millis: i64| stamp.unix_seconds == #[trigger] seconds_at(millis as int)
    &&& outside::is_clock_text(stamp.created_at@)
    &&& outside::is_clock_text(stamp.updated_at@)
}

/// The work item is the one that an automation is mapped to.
pub open spec fn is_snapshot_item(
    item: WorkItem,
    automation: CronAutomationRecord,
    attribution: TransferAttribution,
    stamp: SnapshotStamp,
) -> bool {
    &&& item.id.kind@ == WORK_ITEM_ID@
    &&& item.id.value@ == snapshot_id(automation)
    &&& item.project_id == attribution.project_id
    &&& item.goal_id is None
    &&& item.parent_work_item_id is None
    &&& item.kind@ == TASK@
    &&& item.title@ == snapshot_title(automation)
    &&& item.description@ == automation.message@
    &&& item.status == WorkStatus::Backlog
    &&& item.execution_phase == ExecutionPhase::Unstarted
    &&& item.revision.value == 0
    &&& item.created_at == stamp.created_at
    &&& item.updated_at == stamp.updated_at
}

/// The work item of an automation is there: it was created, or an earlier run left it.
pub open spec fn item_adopted(
    before: WorkItems,
    automation: CronAutomationRecord,
    attribution: TransferAttribution,
    stamp: SnapshotStamp,
    after: WorkItems,
) -> bool {
    let key = snapshot_id(automation);
    if before.items.contains_key(key) {
        &&& after == before
        &&& before.items[key].project_id.alike(&attribution.project_id)
        &&& before.items[key].description@ == automation.message@
    } else {
        &&& before.projects.contains_key(attribution.project_id.value@)
        &&& is_snapshot_item(after.items[key], automation, attribution, stamp)
        &&& after == (WorkItems { items: before.items.insert(key, after.items[key]), ..before })
    }
}

/// The routine is the one that an automation is mapped to, before its first revision.
pub open spec fn is_snapshot_routine(
    routine: Routine,
    automation: CronAutomationRecord,
    attribution: TransferAttribution,
    stamp: SnapshotStamp,
) -> bool {
    &&& routine.id.kind@ == ROUTINE_ID@
    &&& routine.id.value@ == snapshot_id(automation)
    &&& routine.organization_id == attribution.organization_id
    &&& routine.current_revision_id is None
    &&& routine.status == RoutineStatus::Active
    &&& routine.revision.value == 0
    &&& routine.created_at_unix_seconds == stamp.unix_seconds
    &&& routine.updated_at_unix_seconds == stamp.unix_seconds
}

/// The routine of an automation is there: it was created, or an earlier run left it.
pub open spec fn routine_adopted(
    before: Routines,
    automation: CronAutomationRecord,
    attribution: TransferAttribution,
    stamp: SnapshotStamp,
    after: Routines,
) -> bool {
    let key = snapshot_id(automation);
    if before.routines.contains_key(key) {
        &&& after == before
        &&& before.routines[key].organization_id.alike(&attribution.organization_id)
    } else {
        &&& is_snapshot_routine(after.routines[key], automation, attribution, stamp)
        &&& after == (Routines {
            routines: before.routines.insert(key, after.routines[key]),
            ..before
        })
    }
}

/// The revision is the one that an automation is mapped to.
pub open spec fn is_snapshot_revision(
    revision: RoutineRevision,
    automation: CronAutomationRecord,
    stamp: SnapshotStamp,
) -> bool {
    &&& revision.id.kind@ == ROUTINE_REVISION_ID@
    &&& revision.id.value@ == snapshot_revision_id(automation)
    &&& revision.routine_id.kind@ == ROUTINE_ID@
    &&& revision.routine_id.value@ == snapshot_id(automation)
    &&& revision.revision.value == 0
    &&& automation.schedule is Cron
    &&& revision.trigger matches RoutineTrigger::Recurring { cron_expression }
    &&& cron_expression == automation.schedule->cron_expr
    &&& revision.target_work_item_id.kind@ == WORK_ITEM_ID@
    &&& revision.target_work_item_id.value@ == snapshot_id(automation)
    &&& revision.created_at_unix_seconds == stamp.unix_seconds
}

/// The routine of an automation and its revision are there.
pub open spec fn intent_adopted(
    before: Routines,
    automation: CronAutomationRecord,
    attribution: TransferAttribution,
    stamp: SnapshotStamp,
    after: Routines,
) -> bool {
    exists|between: Routines, revision: RoutineRevision, routine: Routine|
        {
            &&& #[trigger] routine_adopted(before, automation, attribution, stamp, between)
            &&& is_snapshot_revision(revision, automation, stamp)
            &&& #[trigger] crate::routine_repository::append_result(
                between,
                revision.routine_id,
                revision,
                Ok(routine),
                after,
            )
        }
}

/// The error for which the work item of an automation is neither created nor adopted.
pub open spec fn item_failure(
    work: WorkItems,
    automation: CronAutomationRecord,
    attribution: TransferAttribution,
    error: WorkItemRepositoryError,
) -> bool {
    let key = snapshot_id(automation);
    match error {
        WorkItemRepositoryError::AlreadyExists { work_item_id } => {
            &&& work_item_id@ == key
            &&& work.items.contains_key(key)
            &&& !work.items[key].project_id.alike(&attribution.project_id)
                || work.items[key].description@ != automation.message@
        },
        WorkItemRepositoryError::ProjectNotFound { project_id } => {
            &&& project_id == attribution.project_id.value
            &&& !work.projects.contains_key(project_id@)
        },
        WorkItemRepositoryError::Internal { .. } => true,
        _ => false,
    }
}

/// The error for which the routine of an automation is neither created nor adopted.
pub open spec fn routine_failure(
    routines: Routines,
    automation: CronAutomationRecord,
    attribution: TransferAttribution,
    error: RoutineError,
) -> bool {
    let key = snapshot_id(automation);
    match error {
        RoutineError::Conflict { routine_id } => {
            &&& routine_id@ == key
            &&& routines.routines.contains_key(key)
            &&& !routines.routines[key].organization_id.alike(&attribution.organization_id)
        },
        RoutineError::Internal { .. } => true,
        _ => false,
    }
}

/// The error for which the routine of an automation gets no revision: another one was appended to
/// it.
pub open spec fn revision_failure(
    routines: Routines,
    automation: CronAutomationRecord,
    error: RoutineError,
) -> bool {
    let key = snapshot_id(automation);
    match error {
        RoutineError::Conflict { routine_id } => {
            &&& routine_id@ == key
            &&& routines.routines.contains_key(key)
            &&& routines.routines[key].current_revision_id is Some
            &&& !routines.revisions.contains_key(snapshot_revision_id(automation))
        },
        RoutineError::Internal { .. } => true,
        _ => false,
    }
}

/// What comes of mapping an automation. A failure leaves what was done before it, for the next run
/// to adopt.
pub open spec fn map_result(
    work: WorkItems,
    routines: Routines,
    automation: CronAutomationRecord,
    attribution: TransferAttribution,
    stamp: SnapshotStamp,
    r: Result<Disposition, TransferError>,
    work_after: WorkItems,
    routines_after: Routines,
) -> bool {
    match r {
        Ok(Disposition::Incompatible { reason }) => {
            &&& incompatible_reason(automation.schedule) == Some(reason@)
            &&& work_after == work
            &&& routines_after == routines
        },
        Ok(Disposition::Mapped { routine_id, work_item_id }) => {
            &&& incompatible_reason(automation.schedule) is None
            &&& routine_id.kind@ == ROUTINE_ID@
            &&& routine_id.value@ == snapshot_id(automation)
            &&& work_item_id.kind@ == WORK_ITEM_ID@
            &&& work_item_id.value@ == snapshot_id(automation)
            &&& !intent_refused(routines, automation, attribution)
            &&& item_adopted(work, automation, attribution, stamp, work_after)
            &&& intent_adopted(routines, automation, attribution, stamp, routines_after)
        },
        Err(TransferError::Database { reason }) => {
            &&& incompatible_reason(automation.schedule) is None
            &&& {
                ||| {
                    &&& work_after == work
                    &&& routines_after == routines
                    &&& exists|error: WorkItemRepositoryError|
                        item_failure(work, automation, attribution, error) && reason@
                            == "work item snapshot failed: "@ + #[trigger] error.words()
                }
                ||| {
                    &&& item_adopted(work, automation, attribution, stamp, work_after)
                    &&& routines_after == routines
                    &&& exists|error: RoutineError|
                        routine_failure(routines, automation, attribution, error) && reason@
                            == "routine snapshot failed: "@ + #[trigger] error.words()
                }
                ||| {
                    &&& item_adopted(work, automation, attribution, stamp, work_after)
                    &&& routine_adopted(routines, automation, attribution, stamp, routines_after)
                    &&& exists|error: RoutineError|
                        revision_failure(routines_after, automation, error) && reason@
                            == "routine revision snapshot failed: "@ + #[trigger] error.words()
                }
            }
        },
        Err(_) => false,
    }
}

/// The work item of an automation can neither be created nor adopted.
pub open spec fn item_refused(
    work: WorkItems,
    automation: CronAutomationRecord,
    attribution: TransferAttribution,
) -> bool {
    let key = snapshot_id(automation);
    ||| !work.projects.contains_key(attribution.project_id.value@)
    ||| work.items.contains_key(key) && (!work.items[key].project_id.alike(&attribution.project_id)
        || work.items[key].description@ != automation.message@)
}

/// The routine of an automation belongs to another organization, or its intent was advanced by
/// something else than the transfer.
pub open spec fn intent_refused(
    routines: Routines,
    automation: CronAutomationRecord,
    attribution: TransferAttribution,
) -> bool {
    let key = snapshot_id(automation);
    routines.routines.contains_key(key) && (!routines.routines[key].organization_id.alike(
        &attribution.organization_id,
    ) || (routines.routines[key].current_revision_id is Some && !routines.revisions.contains_key(
        snapshot_revision_id(automation),
    )))
}

/// An automation cannot be mapped, because of what the stores hold.
pub open spec fn mapping_refused(
    work: WorkItems,
    routines: Routines,
    automation: CronAutomationRecord,
    attribution: TransferAttribution,
) -> bool {
    item_refused(work, automation, attribution) || intent_refused(routines, automation, attribution)
}

/// A failure of a store, in words.
fn failed(head: &str, words: String) -> (r: TransferError)
    ensures
        r matches TransferError::Database { reason } && reason@ == head@ + words@,
{
    TransferError::Database { reason: text::joined(head, &words) }
}

/// Makes sure that the work item of an automation is there.
fn adopt_item<W: WorkItemRepository>(
    automation: &CronAutomationRecord,
    attribution: &TransferAttribution,
    work_items: &mut W,
    stamp: &SnapshotStamp,
) -> (r: Result<EntityId, TransferError>)
    requires
        old(work_items).ready(),
    ensures
        final(work_items).ready(),
        match r {
            Ok(id) => {
                &&& id.kind@ == WORK_ITEM_ID@
                &&& id.value@ == snapshot_id(*automation)
                &&& item_adopted(
                    old(work_items).holdings(),
                    *automation,
                    *attribution,
                    *stamp,
                    final(work_items).holdings(),
                )
            },
            Err(TransferError::Database { reason }) => {
                &&& final(work_items).holdings() == old(work_items).holdings()
                &&& exists|error: WorkItemRepositoryError|
                    item_failure(old(work_items).holdings(), *automation, *attribution, error)
                        && reason@ == "work item snapshot failed: "@ + #[trigger] error.words()
                &&& old(work_items).fallible() || item_refused(
                    old(work_items).holdings(),
                    *automation,
                    *attribution,
                )
            },
            Err(_) => false,
        },
        final(work_items).fallible() == old(work_items).fallible(),
{
    let id: EntityId = EntityId {
        kind: WORK_ITEM_ID.to_owned(),
        value: text::joined("snap_", &automation.id),
    };
    let item: WorkItem = WorkItem {
        id: id.copy(),
        project_id: attribution.project_id.copy(),
        goal_id: None,
        parent_work_item_id: None,
        kind: TASK.to_owned(),
        title: title_for(automation),
        description: automation.message.clone(),
        status: WorkStatus::Backlog,
        execution_phase: ExecutionPhase::Unstarted,
        revision: Revision::initial(),
        created_at: stamp.created_at.clone(),
        updated_at: stamp.updated_at.clone(),
    };
    match work_items.create(item) {
        Ok(_) => Ok(id),
        Err(WorkItemRepositoryError::AlreadyExists { work_item_id }) => {
            match work_items.get(&id) {
                Ok(stored) => {
                    if stored.project_id.same(&attribution.project_id) && text::same(
                        &stored.description,
                        &automation.message,
                    ) {
                        Ok(id)
                    } else {
                        let words: String = WorkItemRepositoryError::AlreadyExists {
                            work_item_id,
                        }.to_text();
                        Err(failed("work item snapshot failed: ", words))
                    }
                },
                Err(error) => Err(failed("work item snapshot failed: ", error.to_text())),
            }
        },
        Err(error) => Err(failed("work item snapshot failed: ", error.to_text())),
    }
}

/// Makes sure that the routine of an automation is there.
fn adopt_routine<R: RoutineRepository>(
    automation: &CronAutomationRecord,
    attribution: &TransferAttribution,
    routines: &mut R,
    stamp: &SnapshotStamp,
) -> (r: Result<EntityId, TransferError>)
    requires
        old(routines).ready(),
    ensures
        final(routines).ready(),
        match r {
            Ok(id) => {
                &&& id.kind@ == ROUTINE_ID@
                &&& id.value@ == snapshot_id(*automation)
                &&& routine_adopted(
                    old(routines).holdings(),
                    *automation,
                    *attribution,
                    *stamp,
                    final(routines).holdings(),
                )
            },
            Err(TransferError::Database { reason }) => {
                &&& final(routines).holdings() == old(routines).holdings()
                &&& exists|error: RoutineError|
                    routine_failure(old(routines).holdings(), *automation, *attribution, error)
                        && reason@ == "routine snapshot failed: "@ + #[trigger] error.words()
                &&& old(routines).fallible() || intent_refused(
                    old(routines).holdings(),
                    *automation,
                    *attribution,
                )
            },
            Err(_) => false,
        },
        final(routines).fallible() == old(routines).fallible(),
{
    let id: EntityId = EntityId {
        kind: ROUTINE_ID.to_owned(),
        value: text::joined("snap_", &automation.id),
    };
    match routines.get(&id) {
        Ok(Some(existing)) => {
            if existing.organization_id.same(&attribution.organization_id) {
                return Ok(id);
            }
        },
        Ok(None) => {},
        Err(error) => {
            return Err(failed("routine snapshot failed: ", error.to_text()));
        },
    }
    let routine: Routine = Routine {
        id: id.copy(),
        organization_id: attribution.organization_id.copy(),
        current_revision_id: None,
        status: RoutineStatus::Active,
        revision: Revision::initial(),
        created_at_unix_seconds: stamp.unix_seconds,
        updated_at_unix_seconds: stamp.unix_seconds,
    };
    match routines.create(routine) {
        Ok(_) => Ok(id),
        Err(error) => Err(failed("routine snapshot failed: ", error.to_text())),
    }
}

/// Maps an automation. A cron schedule becomes a work item, whose intent is the message, and an
/// active recurring routine that targets it; any other schedule is incompatible. Rows that an
/// interrupted run left are adopted.
pub fn map_automation<W: WorkItemRepository, R: RoutineRepository>(
    automation: &CronAutomationRecord,
    attribution: &TransferAttribution,
    work_items: &mut W,
    routines: &mut R,
    stamp: &SnapshotStamp,
) -> (r: Result<Disposition, TransferError>)
    requires
        old(work_items).ready(),
        old(routines).ready(),
    ensures
        final(work_items).ready(),
        final(routines).ready(),
        map_result(
            old(work_items).holdings(),
            old(routines).holdings(),
            *automation,
            *attribution,
            *stamp,
            r,
            final(work_items).holdings(),
            final(routines).holdings(),
        ),
        r is Err ==> old(work_items).fallible() || old(routines).fallible() || mapping_refused(
            old(work_items).holdings(),
            old(routines).holdings(),
            *automation,
            *attribution,
        ),
        final(work_items).fallible() == old(work_items).fallible(),
        final(routines).fallible() == old(routines).fallible(),
{
    let cron_expr: &String = match &automation.schedule {
        LegacySchedule::Cron { cron_expr } => cron_expr,
        LegacySchedule::At { .. } => {
            return Ok(
                Disposition::Incompatible {
                    reason: "one-shot (At) schedule has no canonical trigger".to_owned(),
                },
            );
        },
        LegacySchedule::Every { .. } => {
            return Ok(
                Disposition::Incompatible {
                    reason: "interval (Every) schedule has no canonical trigger".to_owned(),
                },
            );
        },
    };
    let work_item_id: EntityId = match adopt_item(automation, attribution, work_items, stamp) {
        Ok(id) => id,
        Err(error) => {
            return Err(error);
        },
    };
    let routine_id: EntityId = match adopt_routine(automation, attribution, routines, stamp) {
        Ok(id) => id,
        Err(error) => {
            return Err(error);
        },
    };
    let ghost between = routines.holdings();
    let revision: RoutineRevision = RoutineRevision {
        id: EntityId {
            kind: ROUTINE_REVISION_ID.to_owned(),
            value: text::joined(&routine_id.value, "_r0"),
        },
        routine_id: routine_id.copy(),
        revision: Revision::initial(),
        trigger: RoutineTrigger::Recurring { cron_expression: cron_expr.clone() },
        target_work_item_id: work_item_id.copy(),
        created_at_unix_seconds: stamp.unix_seconds,
    };
    let ghost appended = revision;
    match routines.append_revision(&routine_id, revision) {
        Ok(routine) => {
            assert(crate::routine_repository::append_result(
                between,
                appended.routine_id,
                appended,
                Ok(routine),
                routines.holdings(),
            ));
            assert(intent_adopted(
                old(routines).holdings(),
                *automation,
                *attribution,
                *stamp,
                routines.holdings(),
            ));
            Ok(Disposition::Mapped { routine_id, work_item_id })
        },
        Err(error) => Err(failed("routine revision snapshot failed: ", error.to_text())),
    }
}

/// Where a snapshot stands: what the stores hold and what was counted.
#[verifier::ext_equal]
pub ghost struct Standing {
    pub mappings: Map<Seq<char>, Mapping>,
    pub work: WorkItems,
    pub routines: Routines,
    pub newly_mapped: nat,
    pub already_mapped: nat,
    pub incompatible: nat,
}

/// The automation is mapped under another content hash.
pub open spec fn is_changed(
    mappings: Map<Seq<char>, Mapping>,
    automation: CronAutomationRecord,
) -> bool {
    mappings.contains_key(automation.id@) && mappings[automation.id@].content_hash
        != content_digest(automation)
}

/// The mapping of an automation that was just mapped or found incompatible.
pub open spec fn fresh_mapping(automation: CronAutomationRecord) -> Mapping {
    match incompatible_reason(automation.schedule) {
        Some(reason) => Mapping {
            disposition: INCOMPATIBLE@,
            routine_id: None,
            work_item_id: None,
            content_hash: content_digest(automation),
            provenance_json: provenance(automation, Some(reason)),
            retired_at: None,
        },
        None => Mapping {
            disposition: MAPPED@,
            routine_id: Some(snapshot_id(automation)),
            work_item_id: Some(snapshot_id(automation)),
            content_hash: content_digest(automation),
            provenance_json: provenance(automation, None),
            retired_at: None,
        },
    }
}

/// What the turn of one automation leaves.
pub open spec fn snapshot_step(
    before: Standing,
    automation: CronAutomationRecord,
    attribution: TransferAttribution,
    stamp: SnapshotStamp,
    after: Standing,
) -> bool {
    let key = automation.id@;
    if before.mappings.contains_key(key) {
        &&& !is_changed(before.mappings, automation)
        &&& after == (Standing {
            already_mapped: before.already_mapped + (if before.mappings[key].disposition
                == MAPPED@ {
                1nat
            } else {
                0
            }),
            incompatible: before.incompatible + (if before.mappings[key].disposition
                == INCOMPATIBLE@ {
                1nat
            } else {
                0
            }),
            ..before
        })
    } else if incompatible_reason(automation.schedule) is Some {
        after == (Standing {
            mappings: before.mappings.insert(key, fresh_mapping(automation)),
            incompatible: before.incompatible + 1,
            ..before
        })
    } else {
        &&& !intent_refused(before.routines, automation, attribution)
        &&& item_adopted(before.work, automation, attribution, stamp, after.work)
        &&& intent_adopted(before.routines, automation, attribution, stamp, after.routines)
        &&& after == (Standing {
            mappings: before.mappings.insert(key, fresh_mapping(automation)),
            work: after.work,
            routines: after.routines,
            newly_mapped: before.newly_mapped + 1,
            ..before
        })
    }
}

/// The turns of the first `count` automations lead along the trace, each stamped by the clock.
pub open spec fn snapshot_run(
    trace: Seq<Standing>,
    automations: Seq<CronAutomationRecord>,
    attribution: TransferAttribution,
    stamps: Seq<SnapshotStamp>,
    count: nat,
) -> bool {
    &&& trace.len() == count + 1
    &&& stamps.len() == count
    &&& count <= automations.len()
    &&& forall|i: int| 0 <= i < count ==> by_the_clock(#[trigger] stamps[i])
    &&& forall|i: int|
        0 <= i < count ==> #[trigger] leads_on(trace, automations, attribution, stamps, i)
}

/// Automation `i` leads from its place of the trace to the next one.
pub open spec fn leads_on(
    trace: Seq<Standing>,
    automations: Seq<CronAutomationRecord>,
    attribution: TransferAttribution,
    stamps: Seq<SnapshotStamp>,
    i: int,
) -> bool {
    snapshot_step(trace[i], automations[i], attribution, stamps[i], trace[i + 1])
}

/// The turn of an automation that was interrupted: it could not be mapped, or a store of mappings
/// that can fail did not hand out or record its mapping.
pub open spec fn step_interrupted(
    before: Standing,
    automation: CronAutomationRecord,
    attribution: TransferAttribution,
    stamp: SnapshotStamp,
    reason: String,
    fallible: bool,
    work: WorkItems,
    routines: Routines,
) -> bool {
    let mapped = before.mappings.contains_key(automation.id@);
    ||| !mapped && map_result(
        before.work,
        before.routines,
        automation,
        attribution,
        stamp,
        Err(TransferError::Database { reason }),
        work,
        routines,
    )
    ||| fallible && work == before.work && routines == before.routines
    ||| fallible && !mapped && incompatible_reason(automation.schedule) is None && item_adopted(
        before.work,
        automation,
        attribution,
        stamp,
        work,
    ) && intent_adopted(before.routines, automation, attribution, stamp, routines)
}

/// The project of an attribution is known and belongs to its organization.
pub open spec fn project_resolves(work: WorkItems, attribution: TransferAttribution) -> bool {
    &&& work.projects.contains_key(attribution.project_id.value@)
    &&& work.projects[attribution.project_id.value@].alike(&attribution.organization_id)
}

/// Which stores can fail: that of the mappings, and those of the work items and the routines.
pub ghost struct Faults {
    pub mappings: bool,
    pub rows: bool,
}

/// No store fails.
pub open spec fn no_faults() -> Faults {
    Faults { mappings: false, rows: false }
}

/// What comes of a snapshot into stores that can fail or cannot.
pub open spec fn snapshot_result(
    start: Standing,
    automations: Seq<CronAutomationRecord>,
    attribution: TransferAttribution,
    faults: Faults,
    r: Result<SnapshotReport, TransferError>,
    mappings: Map<Seq<char>, Mapping>,
    work: WorkItems,
    routines: Routines,
) -> bool {
    match r {
        Ok(report) => {
            &&& project_resolves(start.work, attribution)
            &&& report.total_active == automations.len()
            &&& exists|trace: Seq<Standing>, stamps: Seq<SnapshotStamp>|
                {
                    &&& #[trigger] snapshot_run(
                        trace,
                        automations,
                        attribution,
                        stamps,
                        automations.len(),
                    )
                    &&& trace[0] == start
                    &&& trace.last() == (Standing {
                        mappings,
                        work,
                        routines,
                        newly_mapped: report.newly_mapped as nat,
                        already_mapped: report.already_mapped as nat,
                        incompatible: report.incompatible as nat,
                    })
                }
        },
        Err(TransferError::AutomationChanged { automation_id }) => {
            &&& project_resolves(start.work, attribution)
            &&& exists|trace: Seq<Standing>, stamps: Seq<SnapshotStamp>, count: nat|
                {
                    &&& #[trigger] snapshot_run(trace, automations, attribution, stamps, count)
                    &&& count < automations.len()
                    &&& trace[0] == start
                    &&& is_changed(trace.last().mappings, automations[count as int])
                    &&& automation_id == automations[count as int].id
                    &&& mappings == trace.last().mappings
                    &&& work == trace.last().work
                    &&& routines == trace.last().routines
                }
        },
        Err(TransferError::Database { reason }) => {
            &&& project_resolves(start.work, attribution)
            &&& exists|
                trace: Seq<Standing>,
                stamps: Seq<SnapshotStamp>,
                count: nat,
                stamp: SnapshotStamp,
            |
                {
                    &&& #[trigger] snapshot_run(trace, automations, attribution, stamps, count)
                    &&& count < automations.len()
                    &&& by_the_clock(stamp)
                    &&& trace[0] == start
                    &&& #[trigger] step_interrupted(
                        trace.last(),
                        automations[count as int],
                        attribution,
                        stamp,
                        reason,
                        faults.mappings,
                        work,
                        routines,
                    )
                    &&& mappings == trace.last().mappings
                    &&& faults.mappings || faults.rows || turn_refused(
                        trace.last(),
                        automations[count as int],
                        attribution,
                    )
                }
        },
        Err(TransferError::ProjectResolution { reason }) => {
            &&& faults.rows || !project_resolves(start.work, attribution)
            &&& mappings == start.mappings
            &&& work == start.work
            &&& routines == start.routines
            &&& {
                ||| exists|error: WorkItemRepositoryError|
                    crate::work_item_repository::organization_result(
                        start.work,
                        attribution.project_id,
                        Err(error),
                    ) && reason@ == #[trigger] error.words()
                ||| start.work.projects.contains_key(attribution.project_id.value@)
                    && !project_resolves(start.work, attribution) && reason@ == "organization "@
                    + attribution.organization_id.value@ + " does not contain project "@
                    + attribution.project_id.value@
            }
        },
        Err(TransferError::EnableBlocked { .. }) => false,
    }
}

/// The automation has no mapping and cannot be mapped.
pub open spec fn turn_refused(
    standing: Standing,
    automation: CronAutomationRecord,
    attribution: TransferAttribution,
) -> bool {
    &&& !standing.mappings.contains_key(automation.id@)
    &&& incompatible_reason(automation.schedule) is None
    &&& mapping_refused(standing.work, standing.routines, automation, attribution)
}

/// What stands in the way of the cutover: every automation without a mapping and every
/// incompatible one, in order.
pub open spec fn blockers_of(
    mappings: Map<Seq<char>, Mapping>,
    automations: Seq<CronAutomationRecord>,
) -> Seq<(Seq<char>, Seq<char>)>
    decreases automations.len(),
{
    if automations.len() == 0 {
        Seq::empty()
    } else {
        let earlier = blockers_of(mappings, automations.drop_last());
        let id = automations.last().id@;
        if !mappings.contains_key(id) {
            earlier.push((id, "not snapshotted yet"@))
        } else if mappings[id].disposition == INCOMPATIBLE@ {
            earlier.push((id, NO_TRIGGER@))
        } else {
            earlier
        }
    }
}

/// What stands in the way of an incompatible automation.
pub const NO_TRIGGER: &'static str =
    "schedule has no canonical trigger vocabulary (At/Every); remove the automation or extend the vocabulary";

/// Blockers as their texts.
pub open spec fn blocker_texts(blockers: Seq<(String, String)>) -> Seq<(Seq<char>, Seq<char>)> {
    blockers.map_values(|blocker: (String, String)| (blocker.0@, blocker.1@))
}

/// The whole seconds since the epoch at a time in milliseconds; zero before the epoch.
pub open spec fn seconds_at(millis: int) -> int {
    if millis < 0 {
        0
    } else {
        millis / 1000
    }
}

/// The whole seconds since the epoch at a time in milliseconds; zero before the epoch.
pub fn whole_seconds(millis: i64) -> (r: u64)
    ensures
        r == seconds_at(millis as int),
{
    if millis < 0 {
        0
    } else {
        millis as u64 / 1000
    }
}

/// The whole seconds since the epoch at the time of the clock; zero before the epoch.
fn unix_seconds() -> (r: u64)
    ensures
        exists|millis: i64| r == #[trigger] seconds_at(millis as int),
{
    let millis: i64 = outside::clock_millis();
    whole_seconds(millis)
}

/// A run that comes to an automation whose turn is interrupted is what a snapshot comes to.
proof fn lemma_run_interrupted(
    trace: Seq<Standing>,
    automations: Seq<CronAutomationRecord>,
    attribution: TransferAttribution,
    stamps: Seq<SnapshotStamp>,
    count: nat,
    stamp: SnapshotStamp,
    reason: String,
    faults: Faults,
    work: WorkItems,
    routines: Routines,
)
    requires
        project_resolves(trace[0].work, attribution),
        snapshot_run(trace, automations, attribution, stamps, count),
        count < automations.len(),
        by_the_clock(stamp),
        step_interrupted(
            trace.last(),
            automations[count as int],
            attribution,
            stamp,
            reason,
            faults.mappings,
            work,
            routines,
        ),
        faults.mappings || faults.rows || turn_refused(
            trace.last(),
            automations[count as int],
            attribution,
        ),
    ensures
        snapshot_result(
            trace[0],
            automations,
            attribution,
            faults,
            Err(TransferError::Database { reason }),
            trace.last().mappings,
            work,
            routines,
        ),
{
}

/// Transfers automations into a store of mappings.
pub struct CronAutomationTransfer<M: MappingRepository> {
    pub mappings: M,
}

impl<M: MappingRepository> CronAutomationTransfer<M> {
    /// A transfer into a store.
    pub fn new(mappings: M) -> (r: Self)
        ensures
            r.mappings == mappings,
    {
        CronAutomationTransfer { mappings }
    }

    /// Maps every active automation that is not mapped yet. The project must belong to the claimed
    /// organization before anything is written.
    pub fn snapshot<W: WorkItemRepository, R: RoutineRepository>(
        &mut self,
        automations: &Vec<CronAutomationRecord>,
        attribution: &TransferAttribution,
        work_items: &mut W,
        routines: &mut R,
    ) -> (r: Result<SnapshotReport, TransferError>)
        requires
            old(self).mappings.ready(),
            old(work_items).ready(),
            old(routines).ready(),
        ensures
            final(self).mappings.ready(),
            final(work_items).ready(),
            final(routines).ready(),
            snapshot_result(
                (Standing {
                    mappings: old(self).mappings.mappings(),
                    work: old(work_items).holdings(),
                    routines: old(routines).holdings(),
                    newly_mapped: 0,
                    already_mapped: 0,
                    incompatible: 0,
                }),
                automations@,
                *attribution,
                (Faults {
                    mappings: old(self).mappings.fallible(),
                    rows: old(work_items).fallible() || old(routines).fallible(),
                }),
                r,
                final(self).mappings.mappings(),
                final(work_items).holdings(),
                final(routines).holdings(),
            ),
    {
        match work_items.project_organization(&attribution.project_id) {
            Ok(organization) => {
                if !organization.same(&attribution.organization_id) {
                    let mut reason: String = text::joined(
                        "organization ",
                        &attribution.organization_id.value,
                    );
                    reason.append(" does not contain project ");
                    reason.append(&attribution.project_id.value);
                    return Err(TransferError::ProjectResolution { reason });
                }
            },
            Err(error) => {
                let reason: String = error.to_text();
                assert(reason@ == error.words());
                return Err(TransferError::ProjectResolution { reason });
            },
        }
        let ghost start = Standing {
            mappings: self.mappings.mappings(),
            work: work_items.holdings(),
            routines: routines.holdings(),
            newly_mapped: 0,
            already_mapped: 0,
            incompatible: 0,
        };
        let mut report: SnapshotReport = SnapshotReport {
            total_active: automations.len(),
            newly_mapped: 0,
            already_mapped: 0,
            incompatible: 0,
        };
        let ghost mut trace: Seq<Standing> = seq![start];
        let ghost mut stamps: Seq<SnapshotStamp> = Seq::empty();
        let mut i: usize = 0;
        while i < automations.len()
            invariant
                i <= automations@.len(),
                self.mappings.ready(),
                work_items.ready(),
                routines.ready(),
                start == (Standing {
                    mappings: old(self).mappings.mappings(),
                    work: old(work_items).holdings(),
                    routines: old(routines).holdings(),
                    newly_mapped: 0,
                    already_mapped: 0,
                    incompatible: 0,
                }),
                project_resolves(start.work, *attribution),
                self.mappings.fallible() == old(self).mappings.fallible(),
                work_items.fallible() == old(work_items).fallible(),
                routines.fallible() == old(routines).fallible(),
                report.total_active == automations@.len(),
                report.newly_mapped <= i,
                report.already_mapped <= i,
                report.incompatible <= i,
                snapshot_run(trace, automations@, *attribution, stamps, i as nat),
                trace[0] == start,
                trace.last() == (Standing {
                    mappings: self.mappings.mappings(),
                    work: work_items.holdings(),
                    routines: routines.holdings(),
                    newly_mapped: report.newly_mapped as nat,
                    already_mapped: report.already_mapped as nat,
                    incompatible: report.incompatible as nat,
                }),
            decreases automations@.len() - i,
        {
            let automation: &CronAutomationRecord = &automations[i];
            let ghost before = trace.last();
            let stamp: SnapshotStamp = SnapshotStamp {
                unix_seconds: unix_seconds(),
                created_at: outside::clock_rfc3339(),
                updated_at: outside::clock_rfc3339(),
            };
            match self.take_turn(automation, attribution, work_items, routines, &stamp) {
                Ok(turn) => {
                    match turn {
                        Turn::Mapped => {
                            report.newly_mapped = report.newly_mapped + 1;
                        },
                        Turn::AlreadyMapped => {
                            report.already_mapped = report.already_mapped + 1;
                        },
                        Turn::Incompatible => {
                            report.incompatible = report.incompatible + 1;
                        },
                        Turn::Unknown => {},
                    }
                    proof {
                        let after = Standing {
                            mappings: self.mappings.mappings(),
                            work: work_items.holdings(),
                            routines: routines.holdings(),
                            newly_mapped: report.newly_mapped as nat,
                            already_mapped: report.already_mapped as nat,
                            incompatible: report.incompatible as nat,
                        };
                        assert(after == counted(
                            Standing {
                                mappings: self.mappings.mappings(),
                                work: work_items.holdings(),
                                routines: routines.holdings(),
                                newly_mapped: before.newly_mapped,
                                already_mapped: before.already_mapped,
                                incompatible: before.incompatible,
                            },
                            turn,
                        ));
                        lemma_run_extends(
                            trace,
                            automations@,
                            *attribution,
                            stamps,
                            i as nat,
                            stamp,
                            after,
                        );
                        trace = trace.push(after);
                        stamps = stamps.push(stamp);
                    }
                },
                Err(error) => {
                    proof {
                        if error is Database {
                            assert(step_interrupted(
                                trace.last(),
                                automations@[i as int],
                                *attribution,
                                stamp,
                                error->Database_reason,
                                old(self).mappings.fallible(),
                                work_items.holdings(),
                                routines.holdings(),
                            ));
                            lemma_run_interrupted(
                                trace,
                                automations@,
                                *attribution,
                                stamps,
                                i as nat,
                                stamp,
                                error->Database_reason,
                                Faults {
                                    mappings: old(self).mappings.fallible(),
                                    rows: old(work_items).fallible() || old(routines).fallible(),
                                },
                                work_items.holdings(),
                                routines.holdings(),
                            );
                        }
                    }
                    return Err(error);
                },
            }
            i = i + 1;
        }
        Ok(report)
    }

    /// The turn of one automation.
    fn take_turn<W: WorkItemRepository, R: RoutineRepository>(
        &mut self,
        automation: &CronAutomationRecord,
        attribution: &TransferAttribution,
        work_items: &mut W,
        routines: &mut R,
        stamp: &SnapshotStamp,
    ) -> (r: Result<Turn, TransferError>)
        requires
            old(self).mappings.ready(),
            old(work_items).ready(),
            old(routines).ready(),
        ensures
            final(self).mappings.ready(),
            final(work_items).ready(),
            final(routines).ready(),
            match r {
                Ok(turn) => forall|newly: nat, already: nat, odd: nat|
                    #![trigger counted(
                        (Standing {
                            mappings: final(self).mappings.mappings(),
                            work: final(work_items).holdings(),
                            routines: final(routines).holdings(),
                            newly_mapped: newly,
                            already_mapped: already,
                            incompatible: odd,
                        }),
                        turn,
                    )]
                    snapshot_step(
                        (Standing {
                            mappings: old(self).mappings.mappings(),
                            work: old(work_items).holdings(),
                            routines: old(routines).holdings(),
                            newly_mapped: newly,
                            already_mapped: already,
                            incompatible: odd,
                        }),
                        *automation,
                        *attribution,
                        *stamp,
                        counted(
                            (Standing {
                                mappings: final(self).mappings.mappings(),
                                work: final(work_items).holdings(),
                                routines: final(routines).holdings(),
                                newly_mapped: newly,
                                already_mapped: already,
                                incompatible: odd,
                            }),
                            turn,
                        ),
                    ),
                Err(TransferError::AutomationChanged { automation_id }) => {
                    &&& is_changed(old(self).mappings.mappings(), *automation)
                    &&& automation_id == automation.id
                    &&& final(self).mappings.mappings() == old(self).mappings.mappings()
                    &&& final(work_items).holdings() == old(work_items).holdings()
                    &&& final(routines).holdings() == old(routines).holdings()
                },
                Err(TransferError::Database { reason }) => {
                    &&& final(self).mappings.mappings() == old(self).mappings.mappings()
                    &&& forall|newly: nat, already: nat, odd: nat|
                        #[trigger] step_interrupted(
                            (Standing {
                                mappings: old(self).mappings.mappings(),
                                work: old(work_items).holdings(),
                                routines: old(routines).holdings(),
                                newly_mapped: newly,
                                already_mapped: already,
                                incompatible: odd,
                            }),
                            *automation,
                            *attribution,
                            *stamp,
                            reason,
                            old(self).mappings.fallible(),
                            final(work_items).holdings(),
                            final(routines).holdings(),
                        )
                    &&& old(self).mappings.fallible() || old(work_items).fallible() || old(
                        routines,
                    ).fallible() || forall|newly: nat, already: nat, odd: nat|
                        #[trigger] turn_refused(
                            (Standing {
                                mappings: old(self).mappings.mappings(),
                                work: old(work_items).holdings(),
                                routines: old(routines).holdings(),
                                newly_mapped: newly,
                                already_mapped: already,
                                incompatible: odd,
                            }),
                            *automation,
                            *attribution,
                        )
                },
                Err(_) => false,
            },
            final(self).mappings.fallible() == old(self).mappings.fallible(),
            final(work_items).fallible() == old(work_items).fallible(),
            final(routines).fallible() == old(routines).fallible(),
    {
        let hash: String = content_hash(automation);
        match self.mappings.find(&automation.id) {
            Ok(Some(row)) => {
                if !text::same(&row.content_hash, &hash) {
                    return Err(
                        TransferError::AutomationChanged { automation_id: automation.id.clone() },
                    );
                }
                proof {
                    reveal_strlit("mapped");
                    reveal_strlit("incompatible");
                    assert("mapped"@.len() != "incompatible"@.len());
                }
                if text::same(&row.disposition, MAPPED) {
                    return Ok(Turn::AlreadyMapped);
                }
                if text::same(&row.disposition, INCOMPATIBLE) {
                    return Ok(Turn::Incompatible);
                }
                return Ok(Turn::Unknown);
            },
            Ok(None) => {},
            Err(reason) => {
                return Err(TransferError::Database { reason });
            },
        }
        let disposition: Disposition = match map_automation(
            automation,
            attribution,
            work_items,
            routines,
            stamp,
        ) {
            Ok(disposition) => disposition,
            Err(error) => {
                return Err(error);
            },
        };
        let (row, turn): (MappingRow, Turn) = match disposition {
            Disposition::Mapped { routine_id, work_item_id } => (
                MappingRow {
                    disposition: MAPPED.to_owned(),
                    routine_id: Some(routine_id.value),
                    work_item_id: Some(work_item_id.value),
                    content_hash: hash,
                    provenance_json: provenance_with(automation, None),
                    retired_at_unix_seconds: None,
                },
                Turn::Mapped,
            ),
            Disposition::Incompatible { reason } => (
                MappingRow {
                    disposition: INCOMPATIBLE.to_owned(),
                    routine_id: None,
                    work_item_id: None,
                    content_hash: hash,
                    provenance_json: provenance_with(automation, Some(reason.as_str())),
                    retired_at_unix_seconds: None,
                },
                Turn::Incompatible,
            ),
        };
        assert(row@ =~= fresh_mapping(*automation));
        match self.mappings.insert(&automation.id, row) {
            Ok(_) => Ok(turn),
            Err(reason) => Err(TransferError::Database { reason }),
        }
    }

    /// Whether every active automation is mapped and compatible. The blockers name exactly what
    /// stands in the way.
    pub fn verify_enable_ready(&self, automations: &Vec<CronAutomationRecord>) -> (r: Result<
        (),
        TransferError,
    >)
        requires
            self.mappings.ready(),
        ensures
            match r {
                Ok(_) => blockers_of(self.mappings.mappings(), automations@).len() == 0,
                Err(TransferError::EnableBlocked { blockers }) => {
                    &&& blockers@.len() > 0
                    &&& blocker_texts(blockers@) == blockers_of(
                        self.mappings.mappings(),
                        automations@,
                    )
                },
                Err(error) => error is Database && self.mappings.fallible(),
            },
    {
        let mut blockers: Vec<(String, String)> = Vec::new();
        let mut i: usize = 0;
        assert(automations@.take(0) =~= Seq::empty());
        assert(blocker_texts(blockers@) =~= Seq::empty());
        while i < automations.len()
            invariant
                i <= automations@.len(),
                self.mappings.ready(),
                blocker_texts(blockers@) == blockers_of(
                    self.mappings.mappings(),
                    automations@.take(i as int),
                ),
            decreases automations@.len() - i,
        {
            let automation: &CronAutomationRecord = &automations[i];
            let ghost earlier = blockers@;
            proof {
                assert(automations@.take(i + 1).drop_last() =~= automations@.take(i as int));
            }
            let obstacle: Option<&str> = match self.mappings.find(&automation.id) {
                Ok(None) => Some("not snapshotted yet"),
                Ok(Some(row)) => if text::same(&row.disposition, INCOMPATIBLE) {
                    Some(NO_TRIGGER)
                } else {
                    None
                },
                Err(reason) => {
                    return Err(TransferError::Database { reason });
                },
            };
            if let Some(obstacle) = obstacle {
                blockers.push((automation.id.clone(), obstacle.to_owned()));
                assert(blocker_texts(blockers@) =~= blocker_texts(earlier).push(
                    (automation.id@, obstacle@),
                ));
            }
            i = i + 1;
        }
        assert(automations@.take(i as int) =~= automations@);
        if blockers.len() == 0 {
            Ok(())
        } else {
            Err(TransferError::EnableBlocked { blockers })
        }
    }

    /// Records the retirement of an automation by the clock; the first one recorded stands.
    pub fn mark_retired(&mut self, automation_id: &str) -> (r: Result<(), TransferError>)
        requires
            old(self).mappings.ready(),
        ensures
            final(self).mappings.ready(),
            match r {
                Ok(_) => exists|millis: i64|
                    final(self).mappings.mappings() == retired(
                        old(self).mappings.mappings(),
                        automation_id@,
                        #[trigger] seconds_at(millis as int) as u64,
                    ),
                Err(error) => {
                    &&& error is Database
                    &&& old(self).mappings.fallible()
                    &&& final(self).mappings.mappings() == old(self).mappings.mappings()
                },
            },
            final(self).mappings.fallible() == old(self).mappings.fallible(),
    {
        self.mark_retired_at(automation_id, unix_seconds())
    }

    /// Records the retirement of an automation at a given time; the first one recorded stands.
    pub fn mark_retired_at(&mut self, automation_id: &str, now_unix_seconds: u64) -> (r: Result<
        (),
        TransferError,
    >)
        requires
            old(self).mappings.ready(),
        ensures
            final(self).mappings.ready(),
            match r {
                Ok(_) => final(self).mappings.mappings() == retired(
                    old(self).mappings.mappings(),
                    automation_id@,
                    now_unix_seconds,
                ),
                Err(error) => {
                    &&& error is Database
                    &&& old(self).mappings.fallible()
                    &&& final(self).mappings.mappings() == old(self).mappings.mappings()
                },
            },
            final(self).mappings.fallible() == old(self).mappings.fallible(),
    {
        match self.mappings.retire(automation_id, now_unix_seconds) {
            Ok(_) => Ok(()),
            Err(reason) => Err(TransferError::Database { reason }),
        }
    }
}

/// What the turn of an automation came to.
#[derive(Debug, Clone, Copy, PartialEq, Eq, Structural)]
pub enum Turn {
    Mapped,
    AlreadyMapped,
    Incompatible,
    /// Its mapping has a disposition that is not counted.
    Unknown,
}

/// The standing with one more turn counted.
pub open spec fn counted(standing: Standing, turn: Turn) -> Standing {
    match turn {
        Turn::Mapped => Standing { newly_mapped: standing.newly_mapped + 1, ..standing },
        Turn::AlreadyMapped => Standing { already_mapped: standing.already_mapped + 1, ..standing },
        Turn::Incompatible => Standing { incompatible: standing.incompatible + 1, ..standing },
        Turn::Unknown => standing,
    }
}

/// A run with one more turn is a run.
proof fn lemma_run_extends(
    trace: Seq<Standing>,
    automations: Seq<CronAutomationRecord>,
    attribution: TransferAttribution,
    stamps: Seq<SnapshotStamp>,
    count: nat,
    stamp: SnapshotStamp,
    after: Standing,
)
    requires
        snapshot_run(trace, automations, attribution, stamps, count),
        count < automations.len(),
        by_the_clock(stamp),
        snapshot_step(trace.last(), automations[count as int], attribution, stamp, after),
    ensures
        snapshot_run(trace.push(after), automations, attribution, stamps.push(stamp), count + 1),
{
    let longer = trace.push(after);
    let more = stamps.push(stamp);
    assert forall|i: int| 0 <= i < count + 1 implies #[trigger] leads_on(
        longer,
        automations,
        attribution,
        more,
        i,
    ) by {
        if i < count {
            assert(leads_on(trace, automations, attribution, stamps, i));
            assert(longer[i] == trace[i]);
        } else {
            assert(longer[i] == trace.last());
        }
    }
}

/// Recorded mappings are never rewritten: a snapshot keeps every mapping that was there.
pub proof fn law_snapshot_keeps_mappings(
    trace: Seq<Standing>,
    automations: Seq<CronAutomationRecord>,
    attribution: TransferAttribution,
    stamps: Seq<SnapshotStamp>,
    count: nat,
    from: int,
    to: int,
    key: Seq<char>,
)
    requires
        snapshot_run(trace, automations, attribution, stamps, count),
        0 <= from <= to <= count,
        trace[from].mappings.contains_key(key),
    ensures
        trace[to].mappings.contains_key(key),
        trace[to].mappings[key] == trace[from].mappings[key],
    decreases to - from,
{
    if from < to {
        law_snapshot_keeps_mappings(
            trace,
            automations,
            attribution,
            stamps,
            count,
            from,
            to - 1,
            key,
        );
        assert(leads_on(trace, automations, attribution, stamps, to - 1));
    }
}

/// No automation is lost: after a run every one has a mapping of its own content.
pub proof fn law_snapshot_accounts_for_every_automation(
    trace: Seq<Standing>,
    automations: Seq<CronAutomationRecord>,
    attribution: TransferAttribution,
    stamps: Seq<SnapshotStamp>,
    i: int,
)
    requires
        snapshot_run(trace, automations, attribution, stamps, automations.len()),
        0 <= i < automations.len(),
    ensures
        trace.last().mappings.contains_key(automations[i].id@),
        trace.last().mappings[automations[i].id@].content_hash == content_digest(automations[i]),
{
    assert(leads_on(trace, automations, attribution, stamps, i));
    law_snapshot_keeps_mappings(
        trace,
        automations,
        attribution,
        stamps,
        automations.len(),
        i + 1,
        automations.len() as int,
        automations[i].id@,
    );
}

/// A snapshot of automations that are all mapped changes no store and maps nothing new.
pub proof fn law_rerun_writes_nothing(
    trace: Seq<Standing>,
    automations: Seq<CronAutomationRecord>,
    attribution: TransferAttribution,
    stamps: Seq<SnapshotStamp>,
    count: nat,
)
    requires
        snapshot_run(trace, automations, attribution, stamps, count),
        forall|i: int|
            0 <= i < automations.len() ==> trace[0].mappings.contains_key(
                (#[trigger] automations[i]).id@,
            ),
    ensures
        trace.last().mappings == trace[0].mappings,
        trace.last().work == trace[0].work,
        trace.last().routines == trace[0].routines,
        trace.last().newly_mapped == trace[0].newly_mapped,
{
    lemma_rerun(trace, automations, attribution, stamps, count, count as int);
}

/// The same, up to a turn.
proof fn lemma_rerun(
    trace: Seq<Standing>,
    automations: Seq<CronAutomationRecord>,
    attribution: TransferAttribution,
    stamps: Seq<SnapshotStamp>,
    count: nat,
    to: int,
)
    requires
        snapshot_run(trace, automations, attribution, stamps, count),
        0 <= to <= count,
        forall|i: int|
            0 <= i < automations.len() ==> trace[0].mappings.contains_key(
                (#[trigger] automations[i]).id@,
            ),
    ensures
        trace[to].mappings == trace[0].mappings,
        trace[to].work == trace[0].work,
        trace[to].routines == trace[0].routines,
        trace[to].newly_mapped == trace[0].newly_mapped,
    decreases to,
{
    if to > 0 {
        lemma_rerun(trace, automations, attribution, stamps, count, to - 1);
        assert(leads_on(trace, automations, attribution, stamps, to - 1));
    }
}

/// A snapshot of automations that are all mapped is never refused for what the stores hold.
pub proof fn law_mapped_automations_are_never_refused(
    start: Standing,
    automations: Seq<CronAutomationRecord>,
    attribution: TransferAttribution,
    r: Result<SnapshotReport, TransferError>,
    mappings: Map<Seq<char>, Mapping>,
    work: WorkItems,
    routines: Routines,
)
    requires
        snapshot_result(start, automations, attribution, no_faults(), r, mappings, work, routines),
        forall|i: int|
            0 <= i < automations.len() ==> start.mappings.contains_key(
                (#[trigger] automations[i]).id@,
            ),
    ensures
        !(r matches Err(TransferError::Database { .. })),
{
    if let Err(TransferError::Database { reason }) = r {
        let (trace, stamps, count, stamp) = choose|
            trace: Seq<Standing>,
            stamps: Seq<SnapshotStamp>,
            count: nat,
            stamp: SnapshotStamp,
        |
            {
                &&& #[trigger] snapshot_run(trace, automations, attribution, stamps, count)
                &&& count < automations.len()
                &&& trace[0] == start
                &&& #[trigger] step_interrupted(
                    trace.last(),
                    automations[count as int],
                    attribution,
                    stamp,
                    reason,
                    false,
                    work,
                    routines,
                )
            };
        law_snapshot_keeps_mappings(
            trace,
            automations,
            attribution,
            stamps,
            count,
            0,
            count as int,
            automations[count as int].id@,
        );
    }
}

/// A mapping that was interrupted resumes: where nothing stood in its way, nothing does after what
/// the interruption left.
pub proof fn law_interrupted_mapping_resumes(
    before: Standing,
    automation: CronAutomationRecord,
    attribution: TransferAttribution,
    stamp: SnapshotStamp,
    reason: String,
    fallible: bool,
    work: WorkItems,
    routines: Routines,
)
    requires
        step_interrupted(
            before,
            automation,
            attribution,
            stamp,
            reason,
            fallible,
            work,
            routines,
        ),
        !mapping_refused(before.work, before.routines, automation, attribution),
    ensures
        !mapping_refused(work, routines, automation, attribution),
{
    attribution.project_id.alike_reflexive();
    attribution.organization_id.alike_reflexive();
}

/// Retiring an automation again changes nothing.
pub proof fn law_retirement_is_idempotent(
    mappings: Map<Seq<char>, Mapping>,
    automation_id: Seq<char>,
    first: u64,
    second: u64,
)
    ensures
        retired(retired(mappings, automation_id, first), automation_id, second) == retired(
            mappings,
            automation_id,
            first,
        ),
{
}

/// An automation whose content changed after it was mapped is never rewritten: the snapshot fails
/// and its mapping stays.
pub proof fn law_changed_automation_is_never_rewritten(
    start: Standing,
    automations: Seq<CronAutomationRecord>,
    attribution: TransferAttribution,
    faults: Faults,
    r: Result<SnapshotReport, TransferError>,
    mappings: Map<Seq<char>, Mapping>,
    work: WorkItems,
    routines: Routines,
    i: int,
)
    requires
        snapshot_result(start, automations, attribution, faults, r, mappings, work, routines),
        0 <= i < automations.len(),
        is_changed(start.mappings, automations[i]),
    ensures
        r is Err,
        mappings.contains_key(automations[i].id@),
        mappings[automations[i].id@] == start.mappings[automations[i].id@],
{
    let key = automations[i].id@;
    match r {
        Ok(report) => {
            let (trace, stamps) = choose|trace: Seq<Standing>, stamps: Seq<SnapshotStamp>|
                {
                    &&& #[trigger] snapshot_run(
                        trace,
                        automations,
                        attribution,
                        stamps,
                        automations.len(),
                    )
                    &&& trace[0] == start
                    &&& trace.last() == (Standing {
                        mappings,
                        work,
                        routines,
                        newly_mapped: report.newly_mapped as nat,
                        already_mapped: report.already_mapped as nat,
                        incompatible: report.incompatible as nat,
                    })
                };
            law_snapshot_keeps_mappings(
                trace,
                automations,
                attribution,
                stamps,
                automations.len(),
                0,
                i,
                key,
            );
            assert(leads_on(trace, automations, attribution, stamps, i));
            assert(false);
        },
        Err(TransferError::AutomationChanged { automation_id }) => {
            let (trace, stamps, count) = choose|
                trace: Seq<Standing>,
                stamps: Seq<SnapshotStamp>,
                count: nat,
            |
                {
                    &&& #[trigger] snapshot_run(trace, automations, attribution, stamps, count)
                    &&& count < automations.len()
                    &&& trace[0] == start
                    &&& is_changed(trace.last().mappings, automations[count as int])
                    &&& automation_id == automations[count as int].id
                    &&& mappings == trace.last().mappings
                    &&& work == trace.last().work
                    &&& routines == trace.last().routines
                };
            law_snapshot_keeps_mappings(
                trace,
                automations,
                attribution,
                stamps,
                count,
                0,
                count as int,
                key,
            );
        },
        Err(TransferError::Database { reason }) => {
            let (trace, stamps, count, stamp) = choose|
                trace: Seq<Standing>,
                stamps: Seq<SnapshotStamp>,
                count: nat,
                stamp: SnapshotStamp,
            |
                {
                    &&& #[trigger] snapshot_run(trace, automations, attribution, stamps, count)
                    &&& count < automations.len()
                    &&& by_the_clock(stamp)
                    &&& trace[0] == start
                    &&& #[trigger] step_interrupted(
                        trace.last(),
                        automations[count as int],
                        attribution,
                        stamp,
                        reason,
                        faults.mappings,
                        work,
                        routines,
                    )
                    &&& mappings == trace.last().mappings
                };
            law_snapshot_keeps_mappings(
                trace,
                automations,
                attribution,
                stamps,
                count,
                0,
                count as int,
                key,
            );
        },
        _ => {},
    }
}

} // verus!
