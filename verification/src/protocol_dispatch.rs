//! The one seam between every surface and the control plane: a framed request in, a framed response
//! out. What a deployment does not serve it does not advertise, and denies by name.
use vstd::prelude::*;
use vstd::string::*;
use crate::model::{
    Actor, EntityId, Revision, GOAL_ID, ORGANIZATION_ID, PROJECT_ID, WORK_ITEM_ID,
};
use crate::outside;
use crate::record::Record;
use crate::text;
use crate::work_item_repository::{
    ExecutionPhase, WorkItem, WorkItemRepository, WorkItemRepositoryError, WorkItems, WorkStatus,
};

verus! {

/// A version of the protocol.
#[derive(Debug, Clone, Copy, PartialEq, Eq, Structural)]
pub struct ProtocolVersion {
    pub major: u16,
    pub minor: u16,
}

impl ProtocolVersion {
    /// The version that is served.
    pub open spec fn served() -> ProtocolVersion {
        ProtocolVersion { major: 1, minor: 0 }
    }

    /// The version that is served.
    pub fn current() -> (r: Self)
        ensures
            r == ProtocolVersion::served(),
    {
        ProtocolVersion { major: 1, minor: 0 }
    }

    /// Whether two versions understand each other: their major numbers agree.
    pub fn is_compatible_with(&self, other: &ProtocolVersion) -> (r: bool)
        ensures
            r == (self.major == other.major),
    {
        self.major == other.major
    }
}

/// How the control plane is deployed.
#[derive(Debug, Clone, Copy, PartialEq, Eq, Structural)]
pub enum DeploymentMode {
    EmbeddedHost,
    LocalDaemon,
}

/// The domains that a deployment serves.
#[derive(Debug, Clone, Copy, PartialEq, Eq, Structural)]
pub struct ControlPlaneCapabilities {
    pub organizations: bool,
    pub goals: bool,
    pub projects: bool,
    pub workspaces: bool,
    pub agents: bool,
    pub work_graph: bool,
    pub attempts: bool,
    pub routines: bool,
    pub approvals: bool,
    pub budgets: bool,
    pub evidence: bool,
    pub activity_audit: bool,
    pub event_replay: bool,
    pub workspace_scopes: bool,
}

impl ControlPlaneCapabilities {
    /// Whether the deployment serves the domain of this name.
    pub open spec fn serves(&self, name: Seq<char>) -> bool {
        ||| name == "organizations"@ && self.organizations
        ||| name == "goals"@ && self.goals
        ||| name == "projects"@ && self.projects
        ||| name == "workspaces"@ && self.workspaces
        ||| name == "agents"@ && self.agents
        ||| name == "work_graph"@ && self.work_graph
        ||| name == "attempts"@ && self.attempts
        ||| name == "routines"@ && self.routines
        ||| name == "approvals"@ && self.approvals
        ||| name == "budgets"@ && self.budgets
        ||| name == "evidence"@ && self.evidence
        ||| name == "activity_audit"@ && self.activity_audit
        ||| name == "event_replay"@ && self.event_replay
        ||| name == "workspace_scopes"@ && self.workspace_scopes
    }

    /// Whether the deployment serves the domain of this name.
    pub fn has(&self, name: &str) -> (r: bool)
        ensures
            r == self.serves(name@),
    {
        (text::same(name, "organizations") && self.organizations) || (text::same(name, "goals")
            && self.goals) || (text::same(name, "projects") && self.projects) || (text::same(
            name,
            "workspaces",
        ) && self.workspaces) || (text::same(name, "agents") && self.agents) || (text::same(
            name,
            "work_graph",
        ) && self.work_graph) || (text::same(name, "attempts") && self.attempts) || (text::same(
            name,
            "routines",
        ) && self.routines) || (text::same(name, "approvals") && self.approvals) || (text::same(
            name,
            "budgets",
        ) && self.budgets) || (text::same(name, "evidence") && self.evidence) || (text::same(
            name,
            "activity_audit",
        ) && self.activity_audit) || (text::same(name, "event_replay") && self.event_replay)
            || (text::same(name, "workspace_scopes") && self.workspace_scopes)
    }
}

/// The capabilities of a deployment, derived from the stores that are wired. Work items are served
/// only where their mutations can be audited.
pub fn capabilities_from_wiring(
    scope_repository: bool,
    agent_repository: bool,
    work_graph_repository: bool,
    work_item_repository: bool,
    attempt_repository: bool,
    routine_repository: bool,
    approval_repository: bool,
    activity_repository: bool,
    control_event_repository: bool,
) -> (r: ControlPlaneCapabilities)
    ensures
        r == (ControlPlaneCapabilities {
            organizations: scope_repository,
            goals: scope_repository,
            projects: scope_repository,
            workspaces: scope_repository,
            agents: agent_repository,
            work_graph: work_graph_repository || (work_item_repository && activity_repository
                && control_event_repository),
            attempts: attempt_repository,
            routines: routine_repository,
            approvals: approval_repository,
            budgets: false,
            evidence: false,
            activity_audit: activity_repository,
            event_replay: control_event_repository,
            workspace_scopes: false,
        }),
{
    ControlPlaneCapabilities {
        organizations: scope_repository,
        goals: scope_repository,
        projects: scope_repository,
        workspaces: scope_repository,
        agents: agent_repository,
        work_graph: work_graph_repository || (work_item_repository && activity_repository
            && control_event_repository),
        attempts: attempt_repository,
        routines: routine_repository,
        approvals: approval_repository,
        budgets: false,
        evidence: false,
        activity_audit: activity_repository,
        event_replay: control_event_repository,
        workspace_scopes: false,
    }
}

/// The capabilities of a host that is embedded in another program: work items with their audit.
pub fn embedded_capabilities() -> (r: ControlPlaneCapabilities)
    ensures
        r.work_graph && r.activity_audit && r.event_replay,
        !r.organizations && !r.goals && !r.projects && !r.workspaces && !r.agents,
        !r.attempts && !r.routines && !r.approvals && !r.budgets && !r.evidence,
        !r.workspace_scopes,
{
    capabilities_from_wiring(false, false, false, true, false, false, false, true, true)
}

/// A client asks what it can rely on.
#[derive(Debug)]
pub struct CapabilityNegotiationRequest {
    pub client_version: ProtocolVersion,
    pub client_name: String,
    pub required_capabilities: Vec<String>,
}

/// What a client can rely on.
#[derive(Debug)]
pub struct CapabilityNegotiationResponse {
    pub server_version: ProtocolVersion,
    pub deployment_mode: DeploymentMode,
    pub capabilities: ControlPlaneCapabilities,
    /// The versions understand each other and nothing that is required is missing.
    pub compatible: bool,
    /// The required capabilities that are not served, in the order of the request.
    pub missing_capabilities: Vec<String>,
}

/// The required capabilities that are not served, in order.
pub open spec fn missing(capabilities: ControlPlaneCapabilities, required: Seq<String>) -> Seq<
    String,
>
    decreases required.len(),
{
    if required.len() == 0 {
        Seq::empty()
    } else {
        let earlier = missing(capabilities, required.drop_last());
        if capabilities.serves(required.last()@) {
            earlier
        } else {
            earlier.push(required.last())
        }
    }
}

/// What happened.
#[derive(Debug, Clone, Copy, PartialEq, Eq, Structural)]
pub enum EventKind {
    Created,
    Updated,
    StatusChanged,
    AttemptTransitioned,
}

/// A fact in the activity stream.
#[derive(Debug)]
pub struct ActivityEvent {
    pub event_id: String,
    pub kind: EventKind,
    pub actor: Actor,
    pub timestamp: String,
    pub organization_id: EntityId,
    pub project_id: Option<EntityId>,
    pub work_item_id: Option<EntityId>,
    pub attempt_id: Option<EntityId>,
    pub summary: String,
    pub correlation_id: Option<String>,
    pub causation_id: Option<String>,
}

/// A change that can be replayed.
#[derive(Debug)]
pub struct ControlEvent {
    pub aggregate: String,
    pub aggregate_id: EntityId,
    pub sequence: u64,
    pub kind: EventKind,
    pub actor: Actor,
    pub timestamp: String,
    pub revision: Revision,
    /// What the aggregate was changed to.
    pub payload: WorkItem,
    pub correlation_id: Option<String>,
    pub causation_id: Option<String>,
}

/// Asks for a page of the activity stream.
#[derive(Debug)]
pub struct ActivityQueryRequest {
    pub organization_id: EntityId,
    pub kind: Option<EventKind>,
    pub work_item_id: Option<EntityId>,
    pub page: PageRequest,
}

/// Which part of a list is asked for.
#[derive(Debug, Clone, Copy, PartialEq, Eq, Structural)]
pub struct PageRequest {
    pub offset: usize,
    pub limit: usize,
}

/// A page of the activity stream.
#[derive(Debug)]
pub struct ActivityPage {
    pub items: Vec<ActivityEvent>,
    pub has_more: bool,
}

/// Asks for control events after a position.
#[derive(Debug)]
pub struct EventReplayRequest {
    pub organization_id: EntityId,
    pub after_sequence: u64,
    pub limit: Option<usize>,
}

/// Replayed control events.
#[derive(Debug)]
pub struct EventReplayResponse {
    pub events: Vec<ControlEvent>,
    pub next_sequence: u64,
    pub has_more: bool,
}

/// An event of this identifier is in the stream.
pub open spec fn has_event(stream: Seq<ActivityEvent>, event_id: Seq<char>) -> bool {
    exists|i: int| 0 <= i < stream.len() && (#[trigger] stream[i]).event_id@ == event_id
}

/// The durable activity stream.
pub trait ActivityEventRepository {
    /// The recorded facts, in order.
    spec fn stream(&self) -> Seq<ActivityEvent>;

    /// The page that the store answers a query with.
    spec fn answers(&self, request: ActivityQueryRequest, page: ActivityPage) -> bool;

    /// The store itself can fail, whatever it is asked.
    spec fn fallible(&self) -> bool;

    /// A page of the stream.
    fn query(&self, request: &ActivityQueryRequest) -> (r: Result<ActivityPage, String>)
        ensures
            r matches Ok(page) ==> self.answers(*request, page),
            r is Err ==> self.fallible(),
    ;

    /// Records a fact. One whose identifier is recorded already is left out.
    fn append(&mut self, event: ActivityEvent) -> (r: Result<(), String>)
        ensures
            match r {
                Ok(_) => final(self).stream() == if has_event(
                    old(self).stream(),
                    event.event_id@,
                ) {
                    old(self).stream()
                } else {
                    old(self).stream().push(event)
                },
                Err(_) => final(self).stream() == old(self).stream(),
            },
            r is Err ==> old(self).fallible(),
            final(self).fallible() == old(self).fallible(),
    ;
}

/// A change of this aggregate under this sequence is in the log.
pub open spec fn has_change(
    log: Seq<(EntityId, ControlEvent)>,
    aggregate_id: Seq<char>,
    sequence: u64,
) -> bool {
    exists|i: int|
        0 <= i < log.len() && (#[trigger] log[i]).1.aggregate_id.value@ == aggregate_id
            && log[i].1.sequence == sequence
}

/// The append-only log of control events.
pub trait ControlEventRepository {
    /// The recorded changes with their organizations, in order.
    spec fn log(&self) -> Seq<(EntityId, ControlEvent)>;

    /// The changes that the store answers a replay with.
    spec fn answers(&self, request: EventReplayRequest, replayed: EventReplayResponse) -> bool;

    /// The store itself can fail, whatever it is asked.
    spec fn fallible(&self) -> bool;

    /// The changes after a position.
    fn replay(&self, request: &EventReplayRequest) -> (r: Result<EventReplayResponse, String>)
        ensures
            r matches Ok(replayed) ==> self.answers(*request, replayed),
            r is Err ==> self.fallible(),
    ;

    /// Records a change. One whose sequence is recorded already is left out.
    fn append(&mut self, organization_id: &EntityId, event: ControlEvent) -> (r: Result<(), String>)
        ensures
            match r {
                Ok(_) => final(self).log() == if has_change(
                    old(self).log(),
                    event.aggregate_id.value@,
                    event.sequence,
                ) {
                    old(self).log()
                } else {
                    old(self).log().push((*organization_id, event))
                },
                Err(_) => final(self).log() == old(self).log(),
            },
            r is Err ==> old(self).fallible(),
            final(self).fallible() == old(self).fallible(),
    ;
}

/// Asks for a work item to be created.
#[derive(Debug)]
pub struct CreateWorkItemCommand {
    pub organization_id: EntityId,
    pub project_id: EntityId,
    pub work_item_id: EntityId,
    pub goal_id: Option<EntityId>,
    pub parent_work_item_id: Option<EntityId>,
    pub kind: String,
    pub title: String,
    pub description: String,
}

/// Asks for a work item to be moved to another status.
#[derive(Debug)]
pub struct TransitionWorkItemCommand {
    pub organization_id: EntityId,
    pub project_id: EntityId,
    pub work_item_id: EntityId,
    pub to_status: WorkStatus,
    pub expected_revision: Revision,
}

/// What a request asks for.
#[derive(Debug)]
pub enum ProtocolCommand {
    NegotiateCapabilities(CapabilityNegotiationRequest),
    QueryActivity(ActivityQueryRequest),
    ReplayEvents(EventReplayRequest),
    CreateWorkItem(CreateWorkItemCommand),
    TransitionWorkItem(TransitionWorkItemCommand),
}

/// A framed request.
#[derive(Debug)]
pub struct ProtocolRequest {
    pub id: String,
    pub version: ProtocolVersion,
    pub actor: Actor,
    pub payload: ProtocolCommand,
}

/// The kind of an error.
#[derive(Debug, Clone, Copy, PartialEq, Eq, Structural)]
pub enum ControlErrorCode {
    PolicyDenied,
    InvalidId,
    NotFound,
    Conflict,
    StaleRevision,
    PayloadTooLarge,
    InternalError,
}

/// An error that is answered inside the envelope.
#[derive(Debug)]
pub struct ProtocolError {
    pub code: ControlErrorCode,
    pub message: String,
}

/// What an error says.
#[verifier::ext_equal]
pub ghost struct Refusal {
    pub code: ControlErrorCode,
    pub message: Seq<char>,
}

impl View for ProtocolError {
    type V = Refusal;

    open spec fn view(&self) -> Refusal {
        Refusal { code: self.code, message: self.message@ }
    }
}

/// What a command came to.
#[derive(Debug)]
pub enum ProtocolOutcome {
    Negotiated(CapabilityNegotiationResponse),
    Activity(ActivityPage),
    Replayed(EventReplayResponse),
    WorkItemCreated(WorkItem),
    WorkItemTransitioned(WorkItem),
}

/// A framed response. Failures of the domain are values inside it.
#[derive(Debug)]
pub struct ProtocolResponse {
    pub id: String,
    pub result: Result<ProtocolOutcome, ProtocolError>,
}

/// The longest texts of a work item, in bytes.
#[derive(Debug, Clone, Copy, PartialEq, Eq, Structural)]
pub struct WorkItemLimits {
    pub title_bytes: usize,
    pub description_bytes: usize,
}

/// When a mutation and its audit are stamped.
#[derive(Debug)]
pub struct MutationStamps {
    pub mutation: String,
    pub audit: String,
}

/// What the wired stores hold; nothing for a store that is not wired.
#[verifier::ext_equal]
pub ghost struct Plane {
    pub work: Option<WorkItems>,
    pub activity: Option<Seq<ActivityEvent>>,
    pub control: Option<Seq<(EntityId, ControlEvent)>>,
}

/// The refusal of an identifier of the wrong type.
pub open spec fn wrong_id(field: Seq<char>, expected: Seq<char>) -> Refusal {
    Refusal {
        code: ControlErrorCode::InvalidId,
        message: field + " must be a "@ + expected + " id"@,
    }
}

/// The refusal of a text that is too long.
pub open spec fn too_large(field: Seq<char>, limit: nat) -> Refusal {
    Refusal {
        code: ControlErrorCode::PayloadTooLarge,
        message: field + " exceeds the "@ + text::decimal(limit) + " byte limit"@,
    }
}

/// The refusal of a capability that is not served.
pub open spec fn not_served(capability: Seq<char>) -> Refusal {
    Refusal {
        code: ControlErrorCode::PolicyDenied,
        message: "capability not served by this deployment: "@ + capability,
    }
}

/// The refusal of a mutation that could not be audited.
pub open spec fn not_audited() -> Refusal {
    Refusal {
        code: ControlErrorCode::PolicyDenied,
        message: "work-item mutations require wired activity_audit and event_replay stores"@,
    }
}

/// The refusal of a request of another major version.
pub open spec fn wrong_version(version: ProtocolVersion) -> Refusal {
    Refusal {
        code: ControlErrorCode::PolicyDenied,
        message: "protocol major version "@ + text::decimal(version.major as nat)
            + " is not supported (server: "@ + text::decimal(
            ProtocolVersion::served().major as nat,
        ) + "."@ + text::decimal(ProtocolVersion::served().minor as nat) + ")"@,
    }
}

/// A failure of a store.
pub open spec fn store_failed(operation: Seq<char>, reason: Seq<char>) -> Refusal {
    Refusal {
        code: ControlErrorCode::InternalError,
        message: operation + " failed: "@ + reason,
    }
}

/// A failure of the store of work items.
pub open spec fn work_failed(operation: Seq<char>, error: WorkItemRepositoryError) -> Refusal {
    match error {
        WorkItemRepositoryError::AlreadyExists { work_item_id } => Refusal {
            code: ControlErrorCode::Conflict,
            message: operation + ": work item already exists: "@ + work_item_id@,
        },
        WorkItemRepositoryError::NotFound { work_item_id } => Refusal {
            code: ControlErrorCode::NotFound,
            message: operation + ": work item not found: "@ + work_item_id@,
        },
        WorkItemRepositoryError::ProjectNotFound { project_id } => Refusal {
            code: ControlErrorCode::NotFound,
            message: operation + ": project not found: "@ + project_id@,
        },
        WorkItemRepositoryError::ProjectMismatch { work_item_id } => Refusal {
            code: ControlErrorCode::NotFound,
            message: operation + ": work item not found in project: "@ + work_item_id@,
        },
        WorkItemRepositoryError::StaleRevision { work_item_id } => Refusal {
            code: ControlErrorCode::StaleRevision,
            message: operation + ": stale revision for work item: "@ + work_item_id@,
        },
        WorkItemRepositoryError::Internal { reason } => store_failed(operation, reason@),
    }
}

/// A failure to resolve a project.
pub open spec fn project_failed(error: WorkItemRepositoryError) -> Refusal {
    match error {
        WorkItemRepositoryError::ProjectNotFound { project_id } => Refusal {
            code: ControlErrorCode::NotFound,
            message: "project not found: "@ + project_id@,
        },
        other => Refusal {
            code: ControlErrorCode::InternalError,
            message: "project resolution failed: "@ + other.words(),
        },
    }
}

/// An error with a message.
fn refusal(code: ControlErrorCode, message: String) -> (r: ProtocolError)
    ensures
        r@ == (Refusal { code, message: message@ }),
{
    ProtocolError { code, message }
}

/// Checks the type of an identifier.
pub fn require_typed_id(kind: &str, expected: &str, field: &str) -> (r: Result<(), ProtocolError>)
    ensures
        match r {
            Ok(_) => kind@ == expected@,
            Err(error) => kind@ != expected@ && error@ == wrong_id(field@, expected@),
        },
{
    if text::same(kind, expected) {
        return Ok(());
    }
    let mut message: String = text::joined(field, " must be a ");
    message.append(expected);
    message.append(" id");
    Err(refusal(ControlErrorCode::InvalidId, message))
}

/// Checks the length of a text.
pub fn require_bounded(field: &str, value: &str, max_bytes: usize) -> (r: Result<
    (),
    ProtocolError,
>)
    ensures
        match r {
            Ok(_) => text::byte_len(value@) <= max_bytes,
            Err(error) => text::byte_len(value@) > max_bytes && error@ == too_large(
                field@,
                max_bytes as nat,
            ),
        },
{
    if text::byte_count(value) <= max_bytes {
        return Ok(());
    }
    let limit: String = text::numeral(max_bytes as u64);
    let mut message: String = text::joined(field, " exceeds the ");
    message.append(&limit);
    message.append(" byte limit");
    Err(refusal(ControlErrorCode::PayloadTooLarge, message))
}

/// The name of a status.
pub open spec fn status_text(status: WorkStatus) -> Seq<char> {
    match status {
        WorkStatus::Backlog => "backlog"@,
        WorkStatus::Todo => "todo"@,
        WorkStatus::InProgress => "in_progress"@,
        WorkStatus::InReview => "in_review"@,
        WorkStatus::Done => "done"@,
        WorkStatus::Blocked => "blocked"@,
        WorkStatus::Cancelled => "cancelled"@,
    }
}

/// The name of a status.
pub fn status_name(status: WorkStatus) -> (r: &'static str)
    ensures
        r@ == status_text(status),
{
    match status {
        WorkStatus::Backlog => "backlog",
        WorkStatus::Todo => "todo",
        WorkStatus::InProgress => "in_progress",
        WorkStatus::InReview => "in_review",
        WorkStatus::Done => "done",
        WorkStatus::Blocked => "blocked",
        WorkStatus::Cancelled => "cancelled",
    }
}

/// The answer to a failure of the store of work items.
pub fn work_item_failure(operation: &str, error: &WorkItemRepositoryError) -> (r: ProtocolError)
    ensures
        r@ == work_failed(operation@, *error),
{
    let (code, head, tail): (ControlErrorCode, &str, &String) = match error {
        WorkItemRepositoryError::AlreadyExists { work_item_id } => (
            ControlErrorCode::Conflict,
            ": work item already exists: ",
            work_item_id,
        ),
        WorkItemRepositoryError::NotFound { work_item_id } => (
            ControlErrorCode::NotFound,
            ": work item not found: ",
            work_item_id,
        ),
        WorkItemRepositoryError::ProjectNotFound { project_id } => (
            ControlErrorCode::NotFound,
            ": project not found: ",
            project_id,
        ),
        WorkItemRepositoryError::ProjectMismatch { work_item_id } => (
            ControlErrorCode::NotFound,
            ": work item not found in project: ",
            work_item_id,
        ),
        WorkItemRepositoryError::StaleRevision { work_item_id } => (
            ControlErrorCode::StaleRevision,
            ": stale revision for work item: ",
            work_item_id,
        ),
        WorkItemRepositoryError::Internal { reason } => (
            ControlErrorCode::InternalError,
            " failed: ",
            reason,
        ),
    };
    let mut message: String = text::joined(operation, head);
    message.append(tail);
    refusal(code, message)
}

/// The answer to a failure of a store.
pub fn store_failure(operation: &str, reason: &str) -> (r: ProtocolError)
    ensures
        r@ == store_failed(operation@, reason@),
{
    let mut message: String = text::joined(operation, " failed: ");
    message.append(reason);
    refusal(ControlErrorCode::InternalError, message)
}

/// The answer to a failed resolution of a project.
pub fn project_organization_failure(error: &WorkItemRepositoryError) -> (r: ProtocolError)
    ensures
        r@ == project_failed(*error),
{
    match error {
        WorkItemRepositoryError::ProjectNotFound { project_id } => refusal(
            ControlErrorCode::NotFound,
            text::joined("project not found: ", project_id),
        ),
        other => {
            let words: String = other.to_text();
            refusal(
                ControlErrorCode::InternalError,
                text::joined("project resolution failed: ", &words),
            )
        },
    }
}

/// The answer to a command whose capability is not served.
pub fn unsupported(capability: &str) -> (r: ProtocolError)
    ensures
        r@ == not_served(capability@),
{
    refusal(
        ControlErrorCode::PolicyDenied,
        text::joined("capability not served by this deployment: ", capability),
    )
}

/// The stream of a store, where one is wired.
pub open spec fn stream_of<A: ActivityEventRepository>(store: Option<A>) -> Option<
    Seq<ActivityEvent>,
> {
    match store {
        Some(store) => Some(store.stream()),
        None => None,
    }
}

/// The log of a store, where one is wired.
pub open spec fn log_of<C: ControlEventRepository>(store: Option<C>) -> Option<
    Seq<(EntityId, ControlEvent)>,
> {
    match store {
        Some(store) => Some(store.log()),
        None => None,
    }
}

/// The identifier of the fact that a mutation is recorded under.
pub open spec fn mutation_id(item: WorkItem) -> Seq<char> {
    "work_item_"@ + item.id.value@ + "_"@ + text::decimal(item.revision.value as nat)
}

/// What a mutation of a work item is recorded as.
pub ghost struct MutationRecord {
    pub actor: Actor,
    pub organization_id: EntityId,
    pub item: WorkItem,
    pub kind: EventKind,
    pub summary: Seq<char>,
    pub timestamp: Seq<char>,
}

/// The fact records the mutation, with the actor of the request.
pub open spec fn is_fact_of(event: ActivityEvent, record: MutationRecord) -> bool {
    &&& event.event_id@ == mutation_id(record.item)
    &&& event.kind == record.kind
    &&& event.actor == record.actor
    &&& event.timestamp@ == record.timestamp
    &&& event.organization_id == record.organization_id
    &&& event.project_id == Some(record.item.project_id)
    &&& event.work_item_id == Some(record.item.id)
    &&& event.attempt_id is None
    &&& event.summary@ == record.summary
    &&& event.correlation_id is None
    &&& event.causation_id is None
}

/// The change records the mutation. Its sequence is the item's new revision.
pub open spec fn is_change_of(event: ControlEvent, record: MutationRecord) -> bool {
    &&& event.aggregate@ == "work_item"@
    &&& event.aggregate_id == record.item.id
    &&& event.sequence == record.item.revision.value
    &&& event.kind == record.kind
    &&& event.actor == record.actor
    &&& event.timestamp@ == record.timestamp
    &&& event.revision == record.item.revision
    &&& event.payload == record.item
    &&& event.correlation_id is None
    &&& event.causation_id is None
}

/// The fact of a mutation is in the stream, at its end or from an earlier attempt.
pub open spec fn fact_recorded(
    before: Option<Seq<ActivityEvent>>,
    record: MutationRecord,
    after: Option<Seq<ActivityEvent>>,
) -> bool {
    match (before, after) {
        (Some(before), Some(after)) => if has_event(before, mutation_id(record.item)) {
            after == before
        } else {
            after == before.push(after.last()) && is_fact_of(after.last(), record)
        },
        (None, None) => true,
        _ => false,
    }
}

/// The change of a mutation is in the log, at its end or from an earlier attempt.
pub open spec fn change_recorded(
    before: Option<Seq<(EntityId, ControlEvent)>>,
    record: MutationRecord,
    after: Option<Seq<(EntityId, ControlEvent)>>,
) -> bool {
    match (before, after) {
        (Some(before), Some(after)) => if has_change(
            before,
            record.item.id.value@,
            record.item.revision.value,
        ) {
            after == before
        } else {
            &&& after == before.push(after.last())
            &&& after.last().0 == record.organization_id
            &&& is_change_of(after.last().1, record)
        },
        (None, None) => true,
        _ => false,
    }
}

/// An activity stream is wired and can fail.
pub open spec fn stream_fallible<A: ActivityEventRepository>(activity: Option<A>) -> bool {
    activity matches Some(store) && store.fallible()
}

/// A log of control events is wired and can fail.
pub open spec fn log_fallible<C: ControlEventRepository>(control_events: Option<C>) -> bool {
    control_events matches Some(store) && store.fallible()
}

/// The answer reports a failure of a store.
pub open spec fn is_internal(r: Result<ProtocolOutcome, ProtocolError>) -> bool {
    r matches Err(error) && error@.code == ControlErrorCode::InternalError
}

/// What comes of recording a mutation: the fact first, then the change. A failure names the store
/// that failed.
pub open spec fn audit_result(
    before: Plane,
    record: MutationRecord,
    r: Result<(), ProtocolError>,
    after: Plane,
) -> bool {
    &&& after.work == before.work
    &&& match r {
        Ok(_) => {
            &&& fact_recorded(before.activity, record, after.activity)
            &&& change_recorded(before.control, record, after.control)
        },
        Err(error) => {
            ||| {
                &&& before.activity is Some
                &&& after == before
                &&& exists|reason: Seq<char>|
                    error@ == #[trigger] store_failed("activity append"@, reason)
            }
            ||| {
                &&& before.control is Some
                &&& fact_recorded(before.activity, record, after.activity)
                &&& after.control == before.control
                &&& exists|reason: Seq<char>|
                    error@ == #[trigger] store_failed("control event append"@, reason)
            }
        },
    }
}

/// Records a mutation of a work item.
pub fn record_work_item_mutation<A: ActivityEventRepository, C: ControlEventRepository>(
    activity: &mut Option<A>,
    control_events: &mut Option<C>,
    actor: &Actor,
    organization_id: &EntityId,
    item: &WorkItem,
    kind: EventKind,
    summary: String,
    timestamp: &String,
) -> (r: Result<(), ProtocolError>)
    ensures
        audit_result(
            (Plane {
                work: None,
                activity: stream_of(*old(activity)),
                control: log_of(*old(control_events)),
            }),
            (MutationRecord {
                actor: *actor,
                organization_id: *organization_id,
                item: *item,
                kind,
                summary: summary@,
                timestamp: timestamp@,
            }),
            r,
            (Plane {
                work: None,
                activity: stream_of(*final(activity)),
                control: log_of(*final(control_events)),
            }),
        ),
        r is Err ==> stream_fallible(*old(activity)) || log_fallible(*old(control_events)),
        stream_fallible(*final(activity)) == stream_fallible(*old(activity)),
        log_fallible(*final(control_events)) == log_fallible(*old(control_events)),
{
    let ghost record = MutationRecord {
        actor: *actor,
        organization_id: *organization_id,
        item: *item,
        kind,
        summary: summary@,
        timestamp: timestamp@,
    };
    if let Some(store) = activity {
        let revision: String = text::numeral(item.revision.value);
        let mut event_id: String = text::joined("work_item_", &item.id.value);
        event_id.append("_");
        event_id.append(&revision);
        let event: ActivityEvent = ActivityEvent {
            event_id,
            kind,
            actor: actor.copy(),
            timestamp: timestamp.clone(),
            organization_id: organization_id.copy(),
            project_id: Some(item.project_id.copy()),
            work_item_id: Some(item.id.copy()),
            attempt_id: None,
            summary,
            correlation_id: None,
            causation_id: None,
        };
        assert(is_fact_of(event, record));
        match store.append(event) {
            Ok(_) => {},
            Err(reason) => {
                let error: ProtocolError = store_failure("activity append", &reason);
                return Err(error);
            },
        }
    }
    if let Some(store) = control_events {
        let event: ControlEvent = ControlEvent {
            aggregate: "work_item".to_owned(),
            aggregate_id: item.id.copy(),
            sequence: item.revision.value,
            kind,
            actor: actor.copy(),
            timestamp: timestamp.clone(),
            revision: item.revision,
            payload: item.copy(),
            correlation_id: None,
            causation_id: None,
        };
        assert(is_change_of(event, record));
        match store.append(organization_id, event) {
            Ok(_) => {},
            Err(reason) => {
                let error: ProtocolError = store_failure("control event append", &reason);
                return Err(error);
            },
        }
    }
    Ok(())
}

/// The refusal of the first identifier of the wrong type, of those that every mutation carries.
pub open spec fn scope_fault(
    organization_id: EntityId,
    project_id: EntityId,
    work_item_id: EntityId,
) -> Option<Refusal> {
    if organization_id.kind@ != ORGANIZATION_ID@ {
        Some(wrong_id("organization_id"@, ORGANIZATION_ID@))
    } else if project_id.kind@ != PROJECT_ID@ {
        Some(wrong_id("project_id"@, PROJECT_ID@))
    } else if work_item_id.kind@ != WORK_ITEM_ID@ {
        Some(wrong_id("work_item_id"@, WORK_ITEM_ID@))
    } else {
        None
    }
}

/// What is wrong with a command to create, before any store is asked.
pub open spec fn create_fault(command: CreateWorkItemCommand, limits: WorkItemLimits) -> Option<
    Refusal,
> {
    let scope = scope_fault(command.organization_id, command.project_id, command.work_item_id);
    if scope is Some {
        scope
    } else if command.goal_id is Some && command.goal_id->0.kind@ != GOAL_ID@ {
        Some(wrong_id("goal_id"@, GOAL_ID@))
    } else if command.parent_work_item_id is Some && command.parent_work_item_id->0.kind@
        != WORK_ITEM_ID@ {
        Some(wrong_id("parent_work_item_id"@, WORK_ITEM_ID@))
    } else if text::byte_len(command.title@) > limits.title_bytes {
        Some(too_large("title"@, limits.title_bytes as nat))
    } else if text::byte_len(command.description@) > limits.description_bytes {
        Some(too_large("description"@, limits.description_bytes as nat))
    } else {
        None
    }
}

/// Checks the identifiers that every mutation carries.
fn require_scope_ids(
    organization_id: &EntityId,
    project_id: &EntityId,
    work_item_id: &EntityId,
) -> (r: Result<(), ProtocolError>)
    ensures
        match r {
            Ok(_) => scope_fault(*organization_id, *project_id, *work_item_id) is None,
            Err(error) => scope_fault(*organization_id, *project_id, *work_item_id) == Some(
                error@,
            ),
        },
{
    match require_typed_id(&organization_id.kind, ORGANIZATION_ID, "organization_id") {
        Ok(_) => {},
        Err(error) => {
            return Err(error);
        },
    }
    match require_typed_id(&project_id.kind, PROJECT_ID, "project_id") {
        Ok(_) => {},
        Err(error) => {
            return Err(error);
        },
    }
    require_typed_id(&work_item_id.kind, WORK_ITEM_ID, "work_item_id")
}

/// Checks a command to create.
fn require_creatable(command: &CreateWorkItemCommand, limits: &WorkItemLimits) -> (r: Result<
    (),
    ProtocolError,
>)
    ensures
        match r {
            Ok(_) => create_fault(*command, *limits) is None,
            Err(error) => create_fault(*command, *limits) == Some(error@),
        },
{
    match require_scope_ids(&command.organization_id, &command.project_id, &command.work_item_id) {
        Ok(_) => {},
        Err(error) => {
            return Err(error);
        },
    }
    if let Some(goal) = &command.goal_id {
        match require_typed_id(&goal.kind, GOAL_ID, "goal_id") {
            Ok(_) => {},
            Err(error) => {
                return Err(error);
            },
        }
    }
    if let Some(parent) = &command.parent_work_item_id {
        match require_typed_id(&parent.kind, WORK_ITEM_ID, "parent_work_item_id") {
            Ok(_) => {},
            Err(error) => {
                return Err(error);
            },
        }
    }
    match require_bounded("title", &command.title, limits.title_bytes) {
        Ok(_) => {},
        Err(error) => {
            return Err(error);
        },
    }
    require_bounded("description", &command.description, limits.description_bytes)
}

/// Checks that a mutation can be audited.
fn require_audit_wiring<A: ActivityEventRepository, C: ControlEventRepository>(
    activity: &Option<A>,
    control_events: &Option<C>,
) -> (r: Result<(), ProtocolError>)
    ensures
        match r {
            Ok(_) => activity is Some && control_events is Some,
            Err(error) => !(activity is Some && control_events is Some) && error@ == not_audited(),
        },
{
    if activity.is_some() && control_events.is_some() {
        Ok(())
    } else {
        Err(
            refusal(
                ControlErrorCode::PolicyDenied,
                "work-item mutations require wired activity_audit and event_replay stores".to_owned(),
            ),
        )
    }
}

/// The project is known and belongs to the claimed organization.
pub open spec fn in_scope(work: WorkItems, organization: EntityId, project: EntityId) -> bool {
    work.projects.contains_key(project.value@) && work.projects[project.value@].alike(
        &organization,
    )
}

/// The refusal of a project that belongs to another organization.
pub open spec fn foreign_project(organization: EntityId, project: EntityId) -> Refusal {
    Refusal {
        code: ControlErrorCode::PolicyDenied,
        message: "organization "@ + organization.value@ + " does not contain project "@
            + project.value@,
    }
}

/// The refusal of a command whose project does not resolve to the claimed organization.
pub open spec fn scope_refused(
    work: WorkItems,
    organization: EntityId,
    project: EntityId,
    error: Refusal,
) -> bool {
    ||| exists|cause: WorkItemRepositoryError|
        crate::work_item_repository::organization_result(work, project, Err(cause)) && error
            == #[trigger] project_failed(cause)
    ||| work.projects.contains_key(project.value@) && !in_scope(work, organization, project)
        && error == foreign_project(organization, project)
}

/// Checks that the project belongs to the claimed organization.
fn require_project_organization<W: WorkItemRepository>(
    store: &W,
    claimed: &EntityId,
    project_id: &EntityId,
) -> (r: Result<(), ProtocolError>)
    requires
        store.ready(),
    ensures
        match r {
            Ok(_) => in_scope(store.holdings(), *claimed, *project_id),
            Err(error) => {
                &&& scope_refused(store.holdings(), *claimed, *project_id, error@)
                &&& error@.code == ControlErrorCode::InternalError ==> store.fallible()
            },
        },
{
    match store.project_organization(project_id) {
        Ok(actual) => {
            if actual.same(claimed) {
                return Ok(());
            }
            let mut message: String = text::joined("organization ", &claimed.value);
            message.append(" does not contain project ");
            message.append(&project_id.value);
            Err(refusal(ControlErrorCode::PolicyDenied, message))
        },
        Err(error) => Err(project_organization_failure(&error)),
    }
}

/// The work item is the one that a command creates: in the backlog, unstarted, at the initial
/// revision.
pub open spec fn is_born(item: WorkItem, command: CreateWorkItemCommand, created_at: String) -> bool {
    &&& item.id == command.work_item_id
    &&& item.project_id == command.project_id
    &&& item.goal_id == command.goal_id
    &&& item.parent_work_item_id == command.parent_work_item_id
    &&& item.kind == command.kind
    &&& item.title == command.title
    &&& item.description == command.description
    &&& item.status == WorkStatus::Backlog
    &&& item.execution_phase == ExecutionPhase::Unstarted
    &&& item.revision.value == 0
    &&& item.created_at == created_at
    &&& item.updated_at == created_at
}

/// What a creation is recorded as.
pub open spec fn creation_record(
    command: CreateWorkItemCommand,
    actor: Actor,
    item: WorkItem,
    stamps: MutationStamps,
) -> MutationRecord {
    MutationRecord {
        actor,
        organization_id: command.organization_id,
        item,
        kind: EventKind::Created,
        summary: "created work item: "@ + item.title@,
        timestamp: stamps.audit@,
    }
}

/// What comes of a command to create a work item.
pub open spec fn create_outcome(
    before: Plane,
    limits: WorkItemLimits,
    command: CreateWorkItemCommand,
    actor: Actor,
    stamps: MutationStamps,
    r: Result<ProtocolOutcome, ProtocolError>,
    after: Plane,
) -> bool {
    let scoped = in_scope(before.work->0, command.organization_id, command.project_id);
    if create_fault(command, limits) is Some {
        after == before && (r matches Err(error) && Some(error@) == create_fault(command, limits))
    } else if before.activity is None || before.control is None {
        after == before && (r matches Err(error) && error@ == not_audited())
    } else {
        match r {
            Ok(outcome) => {
                &&& scoped
                &&& outcome matches ProtocolOutcome::WorkItemCreated(item)
                &&& is_born(item, command, stamps.mutation)
                &&& after.work is Some
                &&& crate::work_item_repository::create_result(
                    before.work->0,
                    item,
                    Ok(()),
                    after.work->0,
                )
                &&& audit_result(
                    Plane { work: after.work, ..before },
                    creation_record(command, actor, item, stamps),
                    Ok(()),
                    after,
                )
            },
            Err(error) => {
                // The command is out of scope.
                ||| after == before && scope_refused(
                    before.work->0,
                    command.organization_id,
                    command.project_id,
                    error@,
                )
                // The store refuses the item.
                ||| after == before && scoped && exists|
                    item: WorkItem,
                    cause: WorkItemRepositoryError,
                |
                    {
                        &&& is_born(item, command, stamps.mutation)
                        &&& #[trigger] crate::work_item_repository::create_result(
                            before.work->0,
                            item,
                            Err(cause),
                            before.work->0,
                        )
                        &&& error@ == work_failed("create work item"@, cause)
                    }
                // The item is created and its audit fails.
                ||| scoped && exists|item: WorkItem|
                    #[trigger] created_unaudited(
                        before,
                        command,
                        actor,
                        stamps,
                        item,
                        error,
                        after,
                    )
            },
        }
    }
}

/// The item is created and its audit fails with the error.
pub open spec fn created_unaudited(
    before: Plane,
    command: CreateWorkItemCommand,
    actor: Actor,
    stamps: MutationStamps,
    item: WorkItem,
    error: ProtocolError,
    after: Plane,
) -> bool {
    &&& after.work is Some
    &&& is_born(item, command, stamps.mutation)
    &&& crate::work_item_repository::create_result(before.work->0, item, Ok(()), after.work->0)
    &&& audit_result(
        Plane { work: after.work, ..before },
        creation_record(command, actor, item, stamps),
        Err(error),
        after,
    )
}

/// Creates a work item: identifiers, bounds, audit wiring and scope are checked before the store
/// is touched; the audit follows the commit.
pub fn create_work_item<
    W: WorkItemRepository,
    A: ActivityEventRepository,
    C: ControlEventRepository,
>(
    store: &mut W,
    activity: &mut Option<A>,
    control_events: &mut Option<C>,
    limits: &WorkItemLimits,
    command: &CreateWorkItemCommand,
    actor: &Actor,
    stamps: &MutationStamps,
) -> (r: Result<ProtocolOutcome, ProtocolError>)
    requires
        old(store).ready(),
    ensures
        final(store).ready(),
        create_outcome(
            (Plane {
                work: Some(old(store).holdings()),
                activity: stream_of(*old(activity)),
                control: log_of(*old(control_events)),
            }),
            *limits,
            *command,
            *actor,
            *stamps,
            r,
            (Plane {
                work: Some(final(store).holdings()),
                activity: stream_of(*final(activity)),
                control: log_of(*final(control_events)),
            }),
        ),
        is_internal(r) ==> old(store).fallible() || stream_fallible(*old(activity))
            || log_fallible(*old(control_events)),
        final(store).fallible() == old(store).fallible(),
        stream_fallible(*final(activity)) == stream_fallible(*old(activity)),
        log_fallible(*final(control_events)) == log_fallible(*old(control_events)),
{
    match require_creatable(command, limits) {
        Ok(_) => {},
        Err(error) => {
            return Err(error);
        },
    }
    match require_audit_wiring(activity, control_events) {
        Ok(_) => {},
        Err(error) => {
            return Err(error);
        },
    }
    match require_project_organization(store, &command.organization_id, &command.project_id) {
        Ok(_) => {},
        Err(error) => {
            return Err(error);
        },
    }
    let ghost before = store.holdings();
    let item: WorkItem = WorkItem {
        id: command.work_item_id.copy(),
        project_id: command.project_id.copy(),
        goal_id: command.goal_id.copy(),
        parent_work_item_id: command.parent_work_item_id.copy(),
        kind: command.kind.clone(),
        title: command.title.clone(),
        description: command.description.clone(),
        status: WorkStatus::Backlog,
        execution_phase: ExecutionPhase::Unstarted,
        revision: Revision::initial(),
        created_at: stamps.mutation.clone(),
        updated_at: stamps.mutation.clone(),
    };
    match store.create(item.copy()) {
        Ok(_) => {},
        Err(error) => {
            assert(crate::work_item_repository::create_result(before, item, Err(error), before));
            return Err(work_item_failure("create work item", &error));
        },
    }
    assert(crate::work_item_repository::create_result(before, item, Ok(()), store.holdings()));
    let summary: String = text::joined("created work item: ", &item.title);
    match record_work_item_mutation(
        activity,
        control_events,
        actor,
        &command.organization_id,
        &item,
        EventKind::Created,
        summary,
        &stamps.audit,
    ) {
        Ok(_) => {},
        Err(error) => {
            assert(created_unaudited(
                Plane {
                    work: Some(old(store).holdings()),
                    activity: stream_of(*old(activity)),
                    control: log_of(*old(control_events)),
                },
                *command,
                *actor,
                *stamps,
                item,
                error,
                Plane {
                    work: Some(store.holdings()),
                    activity: stream_of(*activity),
                    control: log_of(*control_events),
                },
            ));
            return Err(error);
        },
    }
    Ok(ProtocolOutcome::WorkItemCreated(item))
}

/// The work item as a transition leaves it: another status, the next revision, a new stamp, and
/// everything else as it was. The execution phase is not touched.
pub open spec fn moved(
    current: WorkItem,
    command: TransitionWorkItemCommand,
    updated_at: String,
) -> WorkItem {
    WorkItem {
        status: command.to_status,
        revision: current.revision.following(),
        updated_at,
        ..current
    }
}

/// The refusal of a transition from another revision than the current one.
pub open spec fn stale(command: TransitionWorkItemCommand, found: Revision) -> Refusal {
    Refusal {
        code: ControlErrorCode::StaleRevision,
        message: "transition work item: expected revision "@ + text::decimal(
            command.expected_revision.value as nat,
        ) + " but found "@ + text::decimal(found.value as nat) + " for "@
            + command.work_item_id.value@,
    }
}

/// What a transition is recorded as.
pub open spec fn transition_record(
    command: TransitionWorkItemCommand,
    actor: Actor,
    item: WorkItem,
    stamps: MutationStamps,
) -> MutationRecord {
    MutationRecord {
        actor,
        organization_id: command.organization_id,
        item,
        kind: EventKind::StatusChanged,
        summary: "transitioned work item to "@ + status_text(command.to_status),
        timestamp: stamps.audit@,
    }
}

/// What comes of a command to move a work item.
pub open spec fn transition_outcome(
    before: Plane,
    command: TransitionWorkItemCommand,
    actor: Actor,
    stamps: MutationStamps,
    r: Result<ProtocolOutcome, ProtocolError>,
    after: Plane,
) -> bool {
    let fault = scope_fault(command.organization_id, command.project_id, command.work_item_id);
    let work = before.work->0;
    let key = command.work_item_id.value@;
    let scoped = in_scope(work, command.organization_id, command.project_id);
    let found = work.items.contains_key(key) && !work.stands_elsewhere(command.project_id, key);
    let next = moved(work.items[key], command, stamps.mutation);
    if fault is Some {
        after == before && (r matches Err(error) && Some(error@) == fault)
    } else if before.activity is None || before.control is None {
        after == before && (r matches Err(error) && error@ == not_audited())
    } else {
        match r {
            Ok(outcome) => {
                &&& scoped
                &&& found
                &&& work.items[key].revision == command.expected_revision
                &&& outcome == ProtocolOutcome::WorkItemTransitioned(next)
                &&& after.work is Some
                &&& crate::work_item_repository::replace_result(
                    work,
                    next,
                    command.expected_revision,
                    Ok(next),
                    after.work->0,
                )
                &&& audit_result(
                    Plane { work: after.work, ..before },
                    transition_record(command, actor, next, stamps),
                    Ok(()),
                    after,
                )
            },
            Err(error) => {
                // The command is out of scope.
                ||| after == before && scope_refused(
                    work,
                    command.organization_id,
                    command.project_id,
                    error@,
                )
                // The item is not found in the project.
                ||| after == before && scoped && exists|cause: WorkItemRepositoryError|
                    {
                        &&& #[trigger] crate::work_item_repository::get_in_project_result(
                            work,
                            command.project_id,
                            command.work_item_id,
                            Err(cause),
                        )
                        &&& error@ == work_failed("transition work item"@, cause)
                    }
                // The item stands under another revision.
                ||| {
                    &&& after == before
                    &&& scoped
                    &&& found
                    &&& work.items[key].revision != command.expected_revision
                    &&& error@ == stale(command, work.items[key].revision)
                }
                // The store refuses the replacement.
                ||| {
                    &&& after == before
                    &&& scoped
                    &&& found
                    &&& exists|cause: WorkItemRepositoryError|
                        {
                            &&& #[trigger] crate::work_item_repository::replace_result(
                                work,
                                next,
                                command.expected_revision,
                                Err(cause),
                                work,
                            )
                            &&& error@ == work_failed("transition work item"@, cause)
                        }
                }
                // The item is moved and its audit fails.
                ||| {
                    &&& scoped
                    &&& found
                    &&& after.work is Some
                    &&& crate::work_item_repository::replace_result(
                        work,
                        next,
                        command.expected_revision,
                        Ok(next),
                        after.work->0,
                    )
                    &&& audit_result(
                        Plane { work: after.work, ..before },
                        transition_record(command, actor, next, stamps),
                        Err(error),
                        after,
                    )
                }
            },
        }
    }
}

/// Moves a work item to another status, for a caller that knows its current revision.
pub fn transition_work_item<
    W: WorkItemRepository,
    A: ActivityEventRepository,
    C: ControlEventRepository,
>(
    store: &mut W,
    activity: &mut Option<A>,
    control_events: &mut Option<C>,
    command: &TransitionWorkItemCommand,
    actor: &Actor,
    stamps: &MutationStamps,
) -> (r: Result<ProtocolOutcome, ProtocolError>)
    requires
        old(store).ready(),
    ensures
        final(store).ready(),
        transition_outcome(
            (Plane {
                work: Some(old(store).holdings()),
                activity: stream_of(*old(activity)),
                control: log_of(*old(control_events)),
            }),
            *command,
            *actor,
            *stamps,
            r,
            (Plane {
                work: Some(final(store).holdings()),
                activity: stream_of(*final(activity)),
                control: log_of(*final(control_events)),
            }),
        ),
        is_internal(r) ==> old(store).fallible() || stream_fallible(*old(activity))
            || log_fallible(*old(control_events)),
        final(store).fallible() == old(store).fallible(),
        stream_fallible(*final(activity)) == stream_fallible(*old(activity)),
        log_fallible(*final(control_events)) == log_fallible(*old(control_events)),
{
    match require_scope_ids(&command.organization_id, &command.project_id, &command.work_item_id) {
        Ok(_) => {},
        Err(error) => {
            return Err(error);
        },
    }
    match require_audit_wiring(activity, control_events) {
        Ok(_) => {},
        Err(error) => {
            return Err(error);
        },
    }
    match require_project_organization(store, &command.organization_id, &command.project_id) {
        Ok(_) => {},
        Err(error) => {
            return Err(error);
        },
    }
    let ghost before = store.holdings();
    let current: WorkItem = match store.get_in_project(
        &command.project_id,
        &command.work_item_id,
    ) {
        Ok(current) => current,
        Err(error) => {
            return Err(work_item_failure("transition work item", &error));
        },
    };
    if current.revision != command.expected_revision {
        let expected: String = text::numeral(command.expected_revision.value);
        let found: String = text::numeral(current.revision.value);
        let mut message: String = text::joined(
            "transition work item: expected revision ",
            &expected,
        );
        message.append(" but found ");
        message.append(&found);
        message.append(" for ");
        message.append(&command.work_item_id.value);
        return Err(refusal(ControlErrorCode::StaleRevision, message));
    }
    let ghost next = moved(current, *command, stamps.mutation);
    let updated: WorkItem = WorkItem {
        id: current.id,
        project_id: current.project_id,
        goal_id: current.goal_id,
        parent_work_item_id: current.parent_work_item_id,
        kind: current.kind,
        title: current.title,
        description: current.description,
        status: command.to_status,
        execution_phase: current.execution_phase,
        revision: current.revision.next(),
        created_at: current.created_at,
        updated_at: stamps.mutation.clone(),
    };
    assert(updated == next);
    let stored: WorkItem = match store.replace_if_revision(updated, command.expected_revision) {
        Ok(stored) => stored,
        Err(error) => {
            assert(crate::work_item_repository::replace_result(
                before,
                next,
                command.expected_revision,
                Err(error),
                before,
            ));
            return Err(work_item_failure("transition work item", &error));
        },
    };
    let summary: String = text::joined(
        "transitioned work item to ",
        status_name(command.to_status),
    );
    match record_work_item_mutation(
        activity,
        control_events,
        actor,
        &command.organization_id,
        &stored,
        EventKind::StatusChanged,
        summary,
        &stamps.audit,
    ) {
        Ok(_) => {},
        Err(error) => {
            return Err(error);
        },
    }
    Ok(ProtocolOutcome::WorkItemTransitioned(stored))
}

/// Serves the protocol from the stores that are wired into it.
pub struct ProtocolDispatcher<
    W: WorkItemRepository,
    A: ActivityEventRepository,
    C: ControlEventRepository,
> {
    pub deployment_mode: DeploymentMode,
    pub capabilities: ControlPlaneCapabilities,
    pub limits: WorkItemLimits,
    pub work_items: Option<W>,
    pub activity: Option<A>,
    pub control_events: Option<C>,
}

/// What comes of a request of the served version, without the answers of the event stores.
pub open spec fn served<
    W: WorkItemRepository,
    A: ActivityEventRepository,
    C: ControlEventRepository,
>(
    dispatcher: ProtocolDispatcher<W, A, C>,
    command: ProtocolCommand,
    actor: Actor,
    stamps: MutationStamps,
    r: Result<ProtocolOutcome, ProtocolError>,
    after: Plane,
) -> bool {
    let before = dispatcher.plane();
    match command {
        ProtocolCommand::NegotiateCapabilities(inner) => {
            &&& after == before
            &&& r matches Ok(ProtocolOutcome::Negotiated(response))
            &&& dispatcher.offers(inner, response)
        },
        ProtocolCommand::QueryActivity(inner) => {
            &&& after == before
            &&& match (dispatcher.activity, r) {
                (None, Err(error)) => error@ == not_served("activity_audit"@),
                (Some(store), Ok(ProtocolOutcome::Activity(page))) => store.answers(inner, page),
                (Some(store), Err(error)) => exists|reason: Seq<char>|
                    error@ == #[trigger] store_failed("activity query"@, reason),
                _ => false,
            }
        },
        ProtocolCommand::ReplayEvents(inner) => {
            &&& after == before
            &&& match (dispatcher.control_events, r) {
                (None, Err(error)) => error@ == not_served("event_replay"@),
                (Some(store), Ok(ProtocolOutcome::Replayed(replayed))) => store.answers(
                    inner,
                    replayed,
                ),
                (Some(store), Err(error)) => exists|reason: Seq<char>|
                    error@ == #[trigger] store_failed("event replay"@, reason),
                _ => false,
            }
        },
        ProtocolCommand::CreateWorkItem(inner) => {
            if dispatcher.work_items is None {
                after == before && (r matches Err(error) && error@ == not_served("work_graph"@))
            } else {
                create_outcome(before, dispatcher.limits, inner, actor, stamps, r, after)
            }
        },
        ProtocolCommand::TransitionWorkItem(inner) => {
            if dispatcher.work_items is None {
                after == before && (r matches Err(error) && error@ == not_served("work_graph"@))
            } else {
                transition_outcome(before, inner, actor, stamps, r, after)
            }
        },
    }
}

/// What comes of a request: one of another major version is refused before anything else.
pub open spec fn executed<
    W: WorkItemRepository,
    A: ActivityEventRepository,
    C: ControlEventRepository,
>(
    dispatcher: ProtocolDispatcher<W, A, C>,
    request: ProtocolRequest,
    stamps: MutationStamps,
    response: ProtocolResponse,
    after: Plane,
) -> bool {
    &&& response.id == request.id
    &&& if request.version.major != ProtocolVersion::served().major {
        after == dispatcher.plane() && (response.result matches Err(error) && error@
            == wrong_version(request.version))
    } else {
        served(dispatcher, request.payload, request.actor, stamps, response.result, after)
    }
}

impl<W: WorkItemRepository, A: ActivityEventRepository, C: ControlEventRepository>
    ProtocolDispatcher<W, A, C> {
    /// A dispatcher without stores.
    pub fn new(
        deployment_mode: DeploymentMode,
        capabilities: ControlPlaneCapabilities,
        limits: WorkItemLimits,
    ) -> (r: Self)
        ensures
            r.deployment_mode == deployment_mode,
            r.capabilities == capabilities,
            r.limits == limits,
            r.work_items is None,
            r.activity is None,
            r.control_events is None,
            r.ready(),
    {
        ProtocolDispatcher {
            deployment_mode,
            capabilities,
            limits,
            work_items: None,
            activity: None,
            control_events: None,
        }
    }

    /// The dispatcher with a store of work items.
    pub fn with_work_item_repository(self, repository: W) -> (r: Self)
        ensures
            r == (ProtocolDispatcher { work_items: Some(repository), ..self }),
    {
        ProtocolDispatcher {
            deployment_mode: self.deployment_mode,
            capabilities: self.capabilities,
            limits: self.limits,
            work_items: Some(repository),
            activity: self.activity,
            control_events: self.control_events,
        }
    }

    /// The dispatcher with an activity stream.
    pub fn with_activity_repository(self, repository: A) -> (r: Self)
        ensures
            r == (ProtocolDispatcher { activity: Some(repository), ..self }),
    {
        ProtocolDispatcher {
            deployment_mode: self.deployment_mode,
            capabilities: self.capabilities,
            limits: self.limits,
            work_items: self.work_items,
            activity: Some(repository),
            control_events: self.control_events,
        }
    }

    /// The dispatcher with a log of control events.
    pub fn with_control_event_repository(self, repository: C) -> (r: Self)
        ensures
            r == (ProtocolDispatcher { control_events: Some(repository), ..self }),
    {
        ProtocolDispatcher {
            deployment_mode: self.deployment_mode,
            capabilities: self.capabilities,
            limits: self.limits,
            work_items: self.work_items,
            activity: self.activity,
            control_events: Some(repository),
        }
    }

    /// The capabilities that the dispatcher advertises.
    pub fn capabilities(&self) -> (r: &ControlPlaneCapabilities)
        ensures
            *r == self.capabilities,
    {
        &self.capabilities
    }

    /// The wired store of work items is in order.
    pub open spec fn ready(&self) -> bool {
        self.work_items matches Some(store) ==> store.ready()
    }

    /// A wired store can fail.
    pub open spec fn fallible(&self) -> bool {
        ||| self.work_items matches Some(store) && store.fallible()
        ||| stream_fallible(self.activity)
        ||| log_fallible(self.control_events)
    }

    /// What the wired stores hold.
    pub open spec fn plane(&self) -> Plane {
        Plane {
            work: match self.work_items {
                Some(store) => Some(store.holdings()),
                None => None,
            },
            activity: stream_of(self.activity),
            control: log_of(self.control_events),
        }
    }

    /// What the dispatcher offers a client.
    pub open spec fn offers(
        &self,
        request: CapabilityNegotiationRequest,
        response: CapabilityNegotiationResponse,
    ) -> bool {
        let absent = missing(self.capabilities, request.required_capabilities@);
        &&& response.server_version == ProtocolVersion::served()
        &&& response.deployment_mode == self.deployment_mode
        &&& response.capabilities == self.capabilities
        &&& response.missing_capabilities@ == absent
        &&& response.compatible == (request.client_version.major
            == ProtocolVersion::served().major && absent.len() == 0)
    }

    /// Answers what a client can rely on.
    pub fn negotiate(&self, request: &CapabilityNegotiationRequest) -> (r:
        CapabilityNegotiationResponse)
        ensures
            self.offers(*request, r),
    {
        let mut absent: Vec<String> = Vec::new();
        let mut i: usize = 0;
        let ghost required = request.required_capabilities@;
        assert(required.take(0) =~= Seq::empty());
        while i < request.required_capabilities.len()
            invariant
                i <= required.len(),
                required == request.required_capabilities@,
                absent@ == missing(self.capabilities, required.take(i as int)),
            decreases required.len() - i,
        {
            assert(required.take(i + 1).drop_last() =~= required.take(i as int));
            let name: &String = &request.required_capabilities[i];
            if !self.capabilities.has(name) {
                absent.push(name.clone());
            }
            i = i + 1;
        }
        assert(required.take(i as int) =~= required);
        CapabilityNegotiationResponse {
            server_version: ProtocolVersion::current(),
            deployment_mode: self.deployment_mode,
            capabilities: self.capabilities,
            compatible: request.client_version.is_compatible_with(&ProtocolVersion::current())
                && absent.len() == 0,
            missing_capabilities: absent,
        }
    }

    /// Executes a request, stamped by the clock.
    pub fn execute(&mut self, request: &ProtocolRequest) -> (r: ProtocolResponse)
        requires
            old(self).ready(),
        ensures
            final(self).ready(),
            final(self).deployment_mode == old(self).deployment_mode,
            final(self).capabilities == old(self).capabilities,
            final(self).limits == old(self).limits,
            exists|stamps: MutationStamps|
                {
                    &&& #[trigger] executed(*old(self), *request, stamps, r, final(self).plane())
                    &&& outside::is_clock_text(stamps.mutation@)
                    &&& outside::is_clock_text(stamps.audit@)
                },
            is_internal(r.result) ==> old(self).fallible(),
            final(self).fallible() == old(self).fallible(),
    {
        let stamps: MutationStamps = MutationStamps {
            mutation: outside::clock_rfc3339(),
            audit: outside::clock_rfc3339(),
        };
        self.execute_at(request, &stamps)
    }

    /// Executes a request. The major version is checked first.
    pub fn execute_at(&mut self, request: &ProtocolRequest, stamps: &MutationStamps) -> (r:
        ProtocolResponse)
        requires
            old(self).ready(),
        ensures
            final(self).ready(),
            final(self).deployment_mode == old(self).deployment_mode,
            final(self).capabilities == old(self).capabilities,
            final(self).limits == old(self).limits,
            executed(*old(self), *request, *stamps, r, final(self).plane()),
            is_internal(r.result) ==> old(self).fallible(),
            final(self).fallible() == old(self).fallible(),
    {
        if !request.version.is_compatible_with(&ProtocolVersion::current()) {
            return ProtocolResponse {
                id: request.id.clone(),
                result: Err(version_refusal(&request.version)),
            };
        }
        let result: Result<ProtocolOutcome, ProtocolError> = match &request.payload {
            ProtocolCommand::NegotiateCapabilities(inner) => {
                let response: CapabilityNegotiationResponse = self.negotiate(inner);
                Ok(ProtocolOutcome::Negotiated(response))
            },
            ProtocolCommand::QueryActivity(inner) => self.query_activity(inner),
            ProtocolCommand::ReplayEvents(inner) => self.replay_events(inner),
            ProtocolCommand::CreateWorkItem(inner) => self.create(inner, &request.actor, stamps),
            ProtocolCommand::TransitionWorkItem(inner) => self.transition(
                inner,
                &request.actor,
                stamps,
            ),
        };
        ProtocolResponse { id: request.id.clone(), result }
    }

    /// A page of the activity stream.
    fn query_activity(&self, request: &ActivityQueryRequest) -> (r: Result<
        ProtocolOutcome,
        ProtocolError,
    >)
        ensures
            match (self.activity, r) {
                (None, Err(error)) => error@ == not_served("activity_audit"@),
                (Some(store), Ok(ProtocolOutcome::Activity(page))) => store.answers(
                    *request,
                    page,
                ),
                (Some(store), Err(error)) => exists|reason: Seq<char>|
                    error@ == #[trigger] store_failed("activity query"@, reason),
                _ => false,
            },
            is_internal(r) ==> stream_fallible(self.activity),
    {
        match &self.activity {
            Some(store) => match store.query(request) {
                Ok(page) => Ok(ProtocolOutcome::Activity(page)),
                Err(reason) => Err(store_failure("activity query", &reason)),
            },
            None => Err(unsupported("activity_audit")),
        }
    }

    /// The control events after a position.
    fn replay_events(&self, request: &EventReplayRequest) -> (r: Result<
        ProtocolOutcome,
        ProtocolError,
    >)
        ensures
            match (self.control_events, r) {
                (None, Err(error)) => error@ == not_served("event_replay"@),
                (Some(store), Ok(ProtocolOutcome::Replayed(replayed))) => store.answers(
                    *request,
                    replayed,
                ),
                (Some(store), Err(error)) => exists|reason: Seq<char>|
                    error@ == #[trigger] store_failed("event replay"@, reason),
                _ => false,
            },
            is_internal(r) ==> log_fallible(self.control_events),
    {
        match &self.control_events {
            Some(store) => match store.replay(request) {
                Ok(replayed) => Ok(ProtocolOutcome::Replayed(replayed)),
                Err(reason) => Err(store_failure("event replay", &reason)),
            },
            None => Err(unsupported("event_replay")),
        }
    }

    /// Creates a work item where they are served.
    fn create(
        &mut self,
        command: &CreateWorkItemCommand,
        actor: &Actor,
        stamps: &MutationStamps,
    ) -> (r: Result<ProtocolOutcome, ProtocolError>)
        requires
            old(self).ready(),
        ensures
            final(self).ready(),
            final(self).deployment_mode == old(self).deployment_mode,
            final(self).capabilities == old(self).capabilities,
            final(self).limits == old(self).limits,
            if old(self).work_items is None {
                final(self).plane() == old(self).plane() && (r matches Err(error) && error@
                    == not_served("work_graph"@))
            } else {
                create_outcome(
                    old(self).plane(),
                    old(self).limits,
                    *command,
                    *actor,
                    *stamps,
                    r,
                    final(self).plane(),
                )
            },
            is_internal(r) ==> old(self).fallible(),
            final(self).fallible() == old(self).fallible(),
    {
        match &mut self.work_items {
            Some(store) => create_work_item(
                store,
                &mut self.activity,
                &mut self.control_events,
                &self.limits,
                command,
                actor,
                stamps,
            ),
            None => Err(unsupported("work_graph")),
        }
    }

    /// Moves a work item where they are served.
    fn transition(
        &mut self,
        command: &TransitionWorkItemCommand,
        actor: &Actor,
        stamps: &MutationStamps,
    ) -> (r: Result<ProtocolOutcome, ProtocolError>)
        requires
            old(self).ready(),
        ensures
            final(self).ready(),
            final(self).deployment_mode == old(self).deployment_mode,
            final(self).capabilities == old(self).capabilities,
            final(self).limits == old(self).limits,
            if old(self).work_items is None {
                final(self).plane() == old(self).plane() && (r matches Err(error) && error@
                    == not_served("work_graph"@))
            } else {
                transition_outcome(
                    old(self).plane(),
                    *command,
                    *actor,
                    *stamps,
                    r,
                    final(self).plane(),
                )
            },
            is_internal(r) ==> old(self).fallible(),
            final(self).fallible() == old(self).fallible(),
    {
        match &mut self.work_items {
            Some(store) => transition_work_item(
                store,
                &mut self.activity,
                &mut self.control_events,
                command,
                actor,
                stamps,
            ),
            None => Err(unsupported("work_graph")),
        }
    }
}

/// The answer to a request of another major version.
fn version_refusal(version: &ProtocolVersion) -> (r: ProtocolError)
    ensures
        r@ == wrong_version(*version),
{
    let served: ProtocolVersion = ProtocolVersion::current();
    let asked: String = text::numeral(version.major as u64);
    let major: String = text::numeral(served.major as u64);
    let minor: String = text::numeral(served.minor as u64);
    let mut message: String = text::joined("protocol major version ", &asked);
    message.append(" is not supported (server: ");
    message.append(&major);
    message.append(".");
    message.append(&minor);
    message.append(")");
    refusal(ControlErrorCode::PolicyDenied, message)
}

/// A request of another major version changes nothing, whatever it asks for.
pub proof fn law_version_gate_precedes_every_command<
    W: WorkItemRepository,
    A: ActivityEventRepository,
    C: ControlEventRepository,
>(
    dispatcher: ProtocolDispatcher<W, A, C>,
    request: ProtocolRequest,
    stamps: MutationStamps,
    response: ProtocolResponse,
    after: Plane,
)
    requires
        executed(dispatcher, request, stamps, response, after),
        request.version.major != ProtocolVersion::served().major,
    ensures
        after == dispatcher.plane(),
        response.result matches Err(error) && error.code == ControlErrorCode::PolicyDenied,
{
}

/// A refused mutation leaves no work item and no audit: unless a store itself failed, a command
/// that is answered with an error changed nothing.
pub proof fn law_refused_mutation_leaves_no_trace(
    before: Plane,
    limits: WorkItemLimits,
    create: CreateWorkItemCommand,
    transition: TransitionWorkItemCommand,
    actor: Actor,
    stamps: MutationStamps,
    created: Result<ProtocolOutcome, ProtocolError>,
    after_create: Plane,
    moved_to: Result<ProtocolOutcome, ProtocolError>,
    after_transition: Plane,
)
    requires
        create_outcome(before, limits, create, actor, stamps, created, after_create),
        transition_outcome(before, transition, actor, stamps, moved_to, after_transition),
    ensures
        created matches Err(error) && error.code != ControlErrorCode::InternalError ==> after_create
            == before,
        moved_to matches Err(error) && error.code != ControlErrorCode::InternalError
            ==> after_transition == before,
{
    if let Err(error) = created {
        assert(error@.code == error.code);
    }
    if let Err(error) = moved_to {
        assert(error@.code == error.code);
    }
}

/// The protocol never writes the execution phase: a created item is unstarted, and a moved item
/// keeps its phase.
pub proof fn law_execution_phase_is_left_to_dispatch(
    before: Plane,
    limits: WorkItemLimits,
    create: CreateWorkItemCommand,
    transition: TransitionWorkItemCommand,
    actor: Actor,
    stamps: MutationStamps,
    created: Result<ProtocolOutcome, ProtocolError>,
    after_create: Plane,
    moved_to: Result<ProtocolOutcome, ProtocolError>,
    after_transition: Plane,
)
    requires
        create_outcome(before, limits, create, actor, stamps, created, after_create),
        transition_outcome(before, transition, actor, stamps, moved_to, after_transition),
    ensures
        created matches Ok(ProtocolOutcome::WorkItemCreated(item)) ==> item.execution_phase
            == ExecutionPhase::Unstarted && item.status == WorkStatus::Backlog
            && item.revision.value == 0,
        moved_to matches Ok(ProtocolOutcome::WorkItemTransitioned(item)) ==> item.execution_phase
            == before.work->0.items[transition.work_item_id.value@].execution_phase,
{
}

/// Every committed mutation is audited: its fact is in the activity stream and its change is in the
/// log, under the item's new revision.
pub proof fn law_committed_mutation_is_audited(
    before: Plane,
    limits: WorkItemLimits,
    create: CreateWorkItemCommand,
    transition: TransitionWorkItemCommand,
    actor: Actor,
    stamps: MutationStamps,
    created: Result<ProtocolOutcome, ProtocolError>,
    after_create: Plane,
    moved_to: Result<ProtocolOutcome, ProtocolError>,
    after_transition: Plane,
)
    requires
        create_outcome(before, limits, create, actor, stamps, created, after_create),
        transition_outcome(before, transition, actor, stamps, moved_to, after_transition),
    ensures
        created matches Ok(ProtocolOutcome::WorkItemCreated(item)) ==> is_audited(
            after_create,
            item,
        ),
        moved_to matches Ok(ProtocolOutcome::WorkItemTransitioned(item)) ==> is_audited(
            after_transition,
            item,
        ),
{
    if let Ok(ProtocolOutcome::WorkItemCreated(item)) = created {
        lemma_audited(
            Plane { work: after_create.work, ..before },
            creation_record(create, actor, item, stamps),
            after_create,
        );
    }
    if let Ok(ProtocolOutcome::WorkItemTransitioned(item)) = moved_to {
        lemma_audited(
            Plane { work: after_transition.work, ..before },
            transition_record(transition, actor, item, stamps),
            after_transition,
        );
    }
}

/// The mutation that led to an item is in the stream and in the log.
pub open spec fn is_audited(plane: Plane, item: WorkItem) -> bool {
    &&& plane.activity is Some
    &&& has_event(plane.activity->0, mutation_id(item))
    &&& plane.control is Some
    &&& has_change(plane.control->0, item.id.value@, item.revision.value)
}

/// A recorded mutation is in the stream and in the log.
proof fn lemma_audited(before: Plane, record: MutationRecord, after: Plane)
    requires
        before.activity is Some,
        before.control is Some,
        audit_result(before, record, Ok(()), after),
    ensures
        is_audited(after, record.item),
{
    let stream = after.activity->0;
    if stream == before.activity->0.push(stream.last()) && is_fact_of(stream.last(), record) {
        assert(stream[stream.len() - 1].event_id@ == mutation_id(record.item));
    }
    let log = after.control->0;
    if log == before.control->0.push(log.last()) && is_change_of(log.last().1, record) {
        assert(log[log.len() - 1].1.aggregate_id.value@ == record.item.id.value@);
    }
}

/// Of two transitions from the same revision at most one succeeds.
pub proof fn law_one_transition_per_revision(
    before: Plane,
    first: TransitionWorkItemCommand,
    second: TransitionWorkItemCommand,
    actor: Actor,
    other_actor: Actor,
    stamps: MutationStamps,
    other_stamps: MutationStamps,
    won: Result<ProtocolOutcome, ProtocolError>,
    between: Plane,
    lost: Result<ProtocolOutcome, ProtocolError>,
    after: Plane,
)
    requires
        before.work is Some,
        crate::work_item_repository::keyed(before.work->0),
        first.work_item_id.value@ == second.work_item_id.value@,
        first.expected_revision == second.expected_revision,
        first.expected_revision.value < u64::MAX,
        transition_outcome(before, first, actor, stamps, won, between),
        won is Ok,
        transition_outcome(between, second, other_actor, other_stamps, lost, after),
    ensures
        lost is Err,
{
    let key = first.work_item_id.value@;
    let next = moved(before.work->0.items[key], first, stamps.mutation);
    assert(before.work->0.items[key].id.value@ == key);
    assert(between.work->0.items[key] == next);
}

/// What a deployment cannot serve it denies: a command whose store is not wired is answered with a
/// typed denial and changes nothing.
pub proof fn law_unwired_commands_are_denied<
    W: WorkItemRepository,
    A: ActivityEventRepository,
    C: ControlEventRepository,
>(
    dispatcher: ProtocolDispatcher<W, A, C>,
    request: ProtocolRequest,
    stamps: MutationStamps,
    response: ProtocolResponse,
    after: Plane,
)
    requires
        executed(dispatcher, request, stamps, response, after),
        match request.payload {
            ProtocolCommand::NegotiateCapabilities(_) => false,
            ProtocolCommand::QueryActivity(_) => dispatcher.activity is None,
            ProtocolCommand::ReplayEvents(_) => dispatcher.control_events is None,
            ProtocolCommand::CreateWorkItem(_) | ProtocolCommand::TransitionWorkItem(_) => {
                dispatcher.work_items is None
            },
        },
    ensures
        response.result matches Err(error) && error.code == ControlErrorCode::PolicyDenied,
        after == dispatcher.plane(),
{
    if let Err(error) = response.result {
        assert(error@.code == error.code);
    }
}

/// A deployment that cannot audit does not mutate: without the activity stream or the log of control
/// events every mutation is refused and changes nothing.
pub proof fn law_unaudited_mutations_are_refused<
    W: WorkItemRepository,
    A: ActivityEventRepository,
    C: ControlEventRepository,
>(
    dispatcher: ProtocolDispatcher<W, A, C>,
    request: ProtocolRequest,
    stamps: MutationStamps,
    response: ProtocolResponse,
    after: Plane,
)
    requires
        executed(dispatcher, request, stamps, response, after),
        request.payload is CreateWorkItem || request.payload is TransitionWorkItem,
        dispatcher.activity is None || dispatcher.control_events is None,
    ensures
        response.result is Err,
        after == dispatcher.plane(),
{
}

/// Negotiations, queries and replays change nothing.
pub proof fn law_reads_change_nothing<
    W: WorkItemRepository,
    A: ActivityEventRepository,
    C: ControlEventRepository,
>(
    dispatcher: ProtocolDispatcher<W, A, C>,
    request: ProtocolRequest,
    stamps: MutationStamps,
    response: ProtocolResponse,
    after: Plane,
)
    requires
        executed(dispatcher, request, stamps, response, after),
        !(request.payload is CreateWorkItem),
        !(request.payload is TransitionWorkItem),
    ensures
        after == dispatcher.plane(),
{
}

/// Every mutation lands exactly once: recording it again finds its own trail and adds nothing.
pub proof fn law_audit_lands_once(
    before: Plane,
    record: MutationRecord,
    between: Plane,
    again: Result<(), ProtocolError>,
    after: Plane,
)
    requires
        audit_result(before, record, Ok(()), between),
        audit_result(between, record, again, after),
    ensures
        after == between,
{
    if between.activity is Some {
        let stream = between.activity->0;
        if !has_event(before.activity->0, mutation_id(record.item)) {
            assert(stream[stream.len() - 1].event_id@ == mutation_id(record.item));
        }
    }
    if between.control is Some {
        let log = between.control->0;
        if !has_change(before.control->0, record.item.id.value@, record.item.revision.value) {
            assert(log[log.len() - 1].1.aggregate_id.value@ == record.item.id.value@);
        }
    }
}

} // verus!
