//! Work items inside projects: created once, replaced only by a writer that knows the current
//! revision.
use vstd::prelude::*;
use vstd::string::*;
use crate::model::{EntityId, Revision};
use crate::record::Record;
use crate::table::Table;
use crate::text;

verus! {

/// Where a work item stands.
#[derive(Debug, Clone, Copy, PartialEq, Eq, Structural)]
pub enum WorkStatus {
    Backlog,
    Todo,
    InProgress,
    InReview,
    Done,
    Blocked,
    Cancelled,
}

/// Where the execution of a work item stands. Only its dispatcher moves it.
#[derive(Debug, Clone, Copy, PartialEq, Eq, Structural)]
pub enum ExecutionPhase {
    Unstarted,
    Terminal,
}

/// The kind of an ordinary work item.
pub const TASK: &'static str = "task";

/// A piece of work.
#[derive(Debug)]
pub struct WorkItem {
    pub id: EntityId,
    pub project_id: EntityId,
    pub goal_id: Option<EntityId>,
    pub parent_work_item_id: Option<EntityId>,
    pub kind: String,
    pub title: String,
    pub description: String,
    pub status: WorkStatus,
    pub execution_phase: ExecutionPhase,
    pub revision: Revision,
    pub created_at: String,
    pub updated_at: String,
}

impl Record for WorkItem {
    open spec fn alike(&self, other: &Self) -> bool {
        &&& self.id.alike(&other.id)
        &&& self.project_id.alike(&other.project_id)
        &&& self.goal_id.alike(&other.goal_id)
        &&& self.parent_work_item_id.alike(&other.parent_work_item_id)
        &&& self.kind@ == other.kind@
        &&& self.title@ == other.title@
        &&& self.description@ == other.description@
        &&& self.status == other.status
        &&& self.execution_phase == other.execution_phase
        &&& self.revision == other.revision
        &&& self.created_at@ == other.created_at@
        &&& self.updated_at@ == other.updated_at@
    }

    proof fn alike_reflexive(&self) {
        self.goal_id.alike_reflexive();
        self.parent_work_item_id.alike_reflexive();
    }

    fn same(&self, other: &Self) -> (r: bool) {
        self.id.same(&other.id) && self.project_id.same(&other.project_id) && self.goal_id.same(
            &other.goal_id,
        ) && self.parent_work_item_id.same(&other.parent_work_item_id) && self.kind.same(
            &other.kind,
        ) && self.title.same(&other.title) && self.description.same(&other.description)
            && self.status == other.status && self.execution_phase == other.execution_phase
            && self.revision == other.revision && self.created_at.same(&other.created_at)
            && self.updated_at.same(&other.updated_at)
    }

    fn copy(&self) -> (r: Self) {
        WorkItem {
            id: self.id.copy(),
            project_id: self.project_id.copy(),
            goal_id: self.goal_id.copy(),
            parent_work_item_id: self.parent_work_item_id.copy(),
            kind: self.kind.copy(),
            title: self.title.copy(),
            description: self.description.copy(),
            status: self.status,
            execution_phase: self.execution_phase,
            revision: self.revision,
            created_at: self.created_at.copy(),
            updated_at: self.updated_at.copy(),
        }
    }
}

/// Why a work-item operation failed.
#[derive(Debug)]
pub enum WorkItemRepositoryError {
    AlreadyExists { work_item_id: String },
    NotFound { work_item_id: String },
    ProjectNotFound { project_id: String },
    ProjectMismatch { work_item_id: String },
    StaleRevision { work_item_id: String },
    /// The store itself failed; nothing was changed.
    Internal { reason: String },
}

impl WorkItemRepositoryError {
    /// The error in words.
    pub open spec fn words(&self) -> Seq<char> {
        match *self {
            WorkItemRepositoryError::AlreadyExists { work_item_id } => {
                "work item already exists: "@ + work_item_id@
            },
            WorkItemRepositoryError::NotFound { work_item_id } => "work item not found: "@
                + work_item_id@,
            WorkItemRepositoryError::ProjectNotFound { project_id } => "project not found: "@
                + project_id@,
            WorkItemRepositoryError::ProjectMismatch { work_item_id } => {
                "work item not found in project: "@ + work_item_id@
            },
            WorkItemRepositoryError::StaleRevision { work_item_id } => {
                "stale revision for work item: "@ + work_item_id@
            },
            WorkItemRepositoryError::Internal { reason } => reason@,
        }
    }

    /// The error in words.
    pub fn to_text(&self) -> (r: String)
        ensures
            r@ == self.words(),
    {
        match self {
            WorkItemRepositoryError::AlreadyExists { work_item_id } => text::joined(
                "work item already exists: ",
                work_item_id,
            ),
            WorkItemRepositoryError::NotFound { work_item_id } => text::joined(
                "work item not found: ",
                work_item_id,
            ),
            WorkItemRepositoryError::ProjectNotFound { project_id } => text::joined(
                "project not found: ",
                project_id,
            ),
            WorkItemRepositoryError::ProjectMismatch { work_item_id } => text::joined(
                "work item not found in project: ",
                work_item_id,
            ),
            WorkItemRepositoryError::StaleRevision { work_item_id } => text::joined(
                "stale revision for work item: ",
                work_item_id,
            ),
            WorkItemRepositoryError::Internal { reason } => reason.clone(),
        }
    }
}

/// The organization of each project and the work items, by the values of the identifiers.
#[verifier::ext_equal]
pub ghost struct WorkItems {
    pub projects: Map<Seq<char>, EntityId>,
    pub items: Map<Seq<char>, WorkItem>,
}

impl WorkItems {
    /// The work item of an identifier stands in another project than the named one.
    pub open spec fn stands_elsewhere(self, project: EntityId, id: Seq<char>) -> bool {
        self.items.contains_key(id) && !self.items[id].project_id.alike(&project)
    }
}

/// What comes of looking up the organization of a project.
pub open spec fn organization_result(
    state: WorkItems,
    project_id: EntityId,
    r: Result<EntityId, WorkItemRepositoryError>,
) -> bool {
    let key = project_id.value@;
    match r {
        Ok(organization) => state.projects.contains_key(key) && organization == state.projects[key],
        Err(WorkItemRepositoryError::ProjectNotFound { project_id: missing }) => {
            !state.projects.contains_key(key) && missing == project_id.value
        },
        Err(error) => error is Internal,
    }
}

/// What comes of creating a work item: it is stored where its project exists and its identifier is
/// free.
pub open spec fn create_result(
    before: WorkItems,
    item: WorkItem,
    r: Result<(), WorkItemRepositoryError>,
    after: WorkItems,
) -> bool {
    let key = item.id.value@;
    let known = before.projects.contains_key(item.project_id.value@);
    match r {
        Ok(_) => {
            &&& known
            &&& !before.items.contains_key(key)
            &&& after == (WorkItems { items: before.items.insert(key, item), ..before })
        },
        Err(error) => {
            &&& after == before
            &&& match error {
                WorkItemRepositoryError::AlreadyExists { work_item_id } => {
                    before.items.contains_key(key) && work_item_id == item.id.value
                },
                WorkItemRepositoryError::ProjectNotFound { project_id } => {
                    !known && project_id == item.project_id.value
                },
                WorkItemRepositoryError::Internal { .. } => true,
                _ => false,
            }
        },
    }
}

/// What comes of looking up a work item.
pub open spec fn get_result(
    state: WorkItems,
    id: EntityId,
    r: Result<WorkItem, WorkItemRepositoryError>,
) -> bool {
    let key = id.value@;
    match r {
        Ok(item) => state.items.contains_key(key) && item == state.items[key],
        Err(WorkItemRepositoryError::NotFound { work_item_id }) => {
            !state.items.contains_key(key) && work_item_id == id.value
        },
        Err(error) => error is Internal,
    }
}

/// What comes of looking up a work item inside a project.
pub open spec fn get_in_project_result(
    state: WorkItems,
    project_id: EntityId,
    id: EntityId,
    r: Result<WorkItem, WorkItemRepositoryError>,
) -> bool {
    let key = id.value@;
    match r {
        Ok(item) => {
            &&& state.items.contains_key(key)
            &&& !state.stands_elsewhere(project_id, key)
            &&& item == state.items[key]
        },
        Err(WorkItemRepositoryError::NotFound { work_item_id }) => {
            !state.items.contains_key(key) && work_item_id == id.value
        },
        Err(WorkItemRepositoryError::ProjectMismatch { work_item_id }) => {
            state.stands_elsewhere(project_id, key) && work_item_id == id.value
        },
        Err(error) => error is Internal,
    }
}

/// What comes of replacing a work item: it happens where the item stands in the same project under
/// the expected revision.
pub open spec fn replace_result(
    before: WorkItems,
    item: WorkItem,
    expected: Revision,
    r: Result<WorkItem, WorkItemRepositoryError>,
    after: WorkItems,
) -> bool {
    let key = item.id.value@;
    let known = before.items.contains_key(key);
    match r {
        Ok(stored) => {
            &&& known
            &&& !before.stands_elsewhere(item.project_id, key)
            &&& before.items[key].revision == expected
            &&& stored == item
            &&& after == (WorkItems { items: before.items.insert(key, item), ..before })
        },
        Err(error) => {
            &&& after == before
            &&& match error {
                WorkItemRepositoryError::NotFound { work_item_id } => {
                    !known && work_item_id == item.id.value
                },
                WorkItemRepositoryError::ProjectMismatch { work_item_id } => {
                    before.stands_elsewhere(item.project_id, key) && work_item_id == item.id.value
                },
                WorkItemRepositoryError::StaleRevision { work_item_id } => {
                    known && before.items[key].revision != expected && work_item_id
                        == item.id.value
                },
                WorkItemRepositoryError::Internal { .. } => true,
                _ => false,
            }
        },
    }
}

/// A store of work items.
pub trait WorkItemRepository {
    /// The store is in order.
    spec fn ready(&self) -> bool;

    /// What the store holds.
    spec fn holdings(&self) -> WorkItems;

    /// The store itself can fail, whatever it is asked.
    spec fn fallible(&self) -> bool;

    /// The organization of a project.
    fn project_organization(&self, project_id: &EntityId) -> (r: Result<
        EntityId,
        WorkItemRepositoryError,
    >)
        requires
            self.ready(),
        ensures
            organization_result(self.holdings(), *project_id, r),
            r matches Err(WorkItemRepositoryError::Internal { .. }) ==> self.fallible(),
    ;

    /// Creates a work item.
    fn create(&mut self, item: WorkItem) -> (r: Result<(), WorkItemRepositoryError>)
        requires
            old(self).ready(),
        ensures
            final(self).ready(),
            create_result(old(self).holdings(), item, r, final(self).holdings()),
            r matches Err(WorkItemRepositoryError::Internal { .. }) ==> old(self).fallible(),
            final(self).fallible() == old(self).fallible(),
    ;

    /// The work item of an identifier.
    fn get(&self, id: &EntityId) -> (r: Result<WorkItem, WorkItemRepositoryError>)
        requires
            self.ready(),
        ensures
            get_result(self.holdings(), *id, r),
            r matches Err(WorkItemRepositoryError::Internal { .. }) ==> self.fallible(),
    ;

    /// The work item of an identifier, where it stands in the project.
    fn get_in_project(&self, project_id: &EntityId, id: &EntityId) -> (r: Result<
        WorkItem,
        WorkItemRepositoryError,
    >)
        requires
            self.ready(),
        ensures
            get_in_project_result(self.holdings(), *project_id, *id, r),
            r matches Err(WorkItemRepositoryError::Internal { .. }) ==> self.fallible(),
    ;

    /// Replaces a work item that stands under the expected revision.
    fn replace_if_revision(&mut self, item: WorkItem, expected: Revision) -> (r: Result<
        WorkItem,
        WorkItemRepositoryError,
    >)
        requires
            old(self).ready(),
        ensures
            final(self).ready(),
            replace_result(old(self).holdings(), item, expected, r, final(self).holdings()),
            r matches Err(WorkItemRepositoryError::Internal { .. }) ==> old(self).fallible(),
            final(self).fallible() == old(self).fallible(),
    ;
}

/// Work items in memory.
pub struct WorkItemTable {
    pub projects: Table<EntityId>,
    pub items: Table<WorkItem>,
}

impl WorkItemTable {
    /// A store without projects and work items.
    pub fn new() -> (r: Self)
        ensures
            r.ready(),
            r.holdings() == (WorkItems { projects: Map::empty(), items: Map::empty() }),
    {
        let r: WorkItemTable = WorkItemTable { projects: Table::new(), items: Table::new() };
        assert(r.holdings() =~= WorkItems { projects: Map::empty(), items: Map::empty() });
        r
    }

    /// Records the organization of a project.
    pub fn put_project(&mut self, project_id: &EntityId, organization_id: EntityId)
        requires
            old(self).ready(),
        ensures
            final(self).ready(),
            final(self).holdings() == (WorkItems {
                projects: old(self).holdings().projects.insert(project_id.value@, organization_id),
                ..old(self).holdings()
            }),
    {
        self.projects.put(project_id.value.clone(), organization_id);
    }

    /// The number of work items.
    pub fn count(&self) -> (r: usize)
        requires
            self.ready(),
        ensures
            r == self.holdings().items.dom().len(),
    {
        self.items.len()
    }
}

impl WorkItemRepository for WorkItemTable {
    open spec fn ready(&self) -> bool {
        self.projects.wf() && self.items.wf()
    }

    open spec fn holdings(&self) -> WorkItems {
        WorkItems { projects: self.projects@, items: self.items@ }
    }

    open spec fn fallible(&self) -> bool {
        false
    }

    fn project_organization(&self, project_id: &EntityId) -> (r: Result<
        EntityId,
        WorkItemRepositoryError,
    >)
        ensures
            r is Ok <==> self.holdings().projects.contains_key(project_id.value@),
            r matches Err(error) ==> !(error is Internal),
    {
        match self.projects.get(&project_id.value) {
            Some(organization) => Ok(organization.copy()),
            None => Err(
                WorkItemRepositoryError::ProjectNotFound { project_id: project_id.value.clone() },
            ),
        }
    }

    fn create(&mut self, item: WorkItem) -> (r: Result<(), WorkItemRepositoryError>)
        ensures
            r is Ok <==> old(self).holdings().projects.contains_key(item.project_id.value@)
                && !old(self).holdings().items.contains_key(item.id.value@),
            r matches Err(error) ==> !(error is Internal),
            old(self).holdings().projects.contains_key(item.project_id.value@) ==> !(r matches Err(
                WorkItemRepositoryError::ProjectNotFound { .. },
            )),
    {
        if !self.projects.has(&item.project_id.value) {
            return Err(
                WorkItemRepositoryError::ProjectNotFound {
                    project_id: item.project_id.value.clone(),
                },
            );
        }
        if self.items.has(&item.id.value) {
            return Err(
                WorkItemRepositoryError::AlreadyExists { work_item_id: item.id.value.clone() },
            );
        }
        self.items.put(item.id.value.clone(), item);
        Ok(())
    }

    fn get(&self, id: &EntityId) -> (r: Result<WorkItem, WorkItemRepositoryError>)
        ensures
            r is Ok <==> self.holdings().items.contains_key(id.value@),
            r matches Err(error) ==> !(error is Internal),
    {
        match self.items.get(&id.value) {
            Some(item) => Ok(item.copy()),
            None => Err(WorkItemRepositoryError::NotFound { work_item_id: id.value.clone() }),
        }
    }

    fn get_in_project(&self, project_id: &EntityId, id: &EntityId) -> (r: Result<
        WorkItem,
        WorkItemRepositoryError,
    >)
        ensures
            r matches Err(error) ==> !(error is Internal),
    {
        match self.items.get(&id.value) {
            Some(item) => {
                if item.project_id.same(project_id) {
                    Ok(item.copy())
                } else {
                    Err(
                        WorkItemRepositoryError::ProjectMismatch { work_item_id: id.value.clone() },
                    )
                }
            },
            None => Err(WorkItemRepositoryError::NotFound { work_item_id: id.value.clone() }),
        }
    }

    fn replace_if_revision(&mut self, item: WorkItem, expected: Revision) -> (r: Result<
        WorkItem,
        WorkItemRepositoryError,
    >)
        ensures
            r matches Err(error) ==> !(error is Internal),
    {
        match self.items.get(&item.id.value) {
            Some(current) => {
                if !current.project_id.same(&item.project_id) {
                    return Err(
                        WorkItemRepositoryError::ProjectMismatch {
                            work_item_id: item.id.value.clone(),
                        },
                    );
                }
                if current.revision != expected {
                    return Err(
                        WorkItemRepositoryError::StaleRevision {
                            work_item_id: item.id.value.clone(),
                        },
                    );
                }
            },
            None => {
                return Err(
                    WorkItemRepositoryError::NotFound { work_item_id: item.id.value.clone() },
                );
            },
        }
        let stored: WorkItem = item.copy();
        self.items.put(item.id.value.clone(), item);
        Ok(stored)
    }
}

/// Every work item stands under its own identifier.
pub open spec fn keyed(state: WorkItems) -> bool {
    forall|key: Seq<char>|
        state.items.contains_key(key) ==> (#[trigger] state.items[key]).id.value@ == key
}

/// Creating and replacing keep every work item under its own identifier.
pub proof fn law_items_stay_under_their_identifiers(
    before: WorkItems,
    item: WorkItem,
    expected: Revision,
    created: Result<(), WorkItemRepositoryError>,
    replaced: Result<WorkItem, WorkItemRepositoryError>,
    after_create: WorkItems,
    after_replace: WorkItems,
)
    requires
        keyed(before),
        create_result(before, item, created, after_create),
        replace_result(before, item, expected, replaced, after_replace),
    ensures
        keyed(after_create),
        keyed(after_replace),
{
}

/// Of two writers that read the same revision only the first replaces the item: the second finds
/// another revision and is refused.
pub proof fn law_second_writer_is_refused(
    before: WorkItems,
    first: WorkItem,
    second: WorkItem,
    expected: Revision,
    won: Result<WorkItem, WorkItemRepositoryError>,
    between: WorkItems,
    lost: Result<WorkItem, WorkItemRepositoryError>,
    after: WorkItems,
)
    requires
        first.id.value@ == second.id.value@,
        first.revision == expected.following(),
        expected.value < u64::MAX,
        replace_result(before, first, expected, won, between),
        won is Ok,
        replace_result(between, second, expected, lost, after),
    ensures
        lost is Err,
        after == between,
{
}

} // verus!
