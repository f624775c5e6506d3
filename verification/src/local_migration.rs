//! The lifecycle of the local database: a newer schema is refused before anything is opened, every
//! schema owner is opened in a fixed order, and only then the version is recorded.
use vstd::prelude::*;
use vstd::string::*;
use crate::text;

verus! {

/// The version of the local schema.
pub const LOCAL_WORK_DB_SCHEMA_VERSION: i64 = 4;

/// How many adapters own a part of the schema.
pub const LOCAL_ADAPTER_COUNT: usize = 21;

/// What a migration did.
#[derive(Debug, Clone, Copy, PartialEq, Eq, Structural)]
pub struct LocalMigrationReport {
    pub schema_version: i64,
    pub applied: bool,
}

/// Why a migration failed.
#[derive(Debug)]
pub enum LocalMigrationError {
    UnsupportedSchema { current: i64, supported: i64 },
    Database { reason: String },
}

impl LocalMigrationError {
    /// The error in words.
    pub fn to_text(&self) -> (r: String)
        ensures
            r@ == match *self {
                LocalMigrationError::UnsupportedSchema { current, supported } => {
                    "local work.db schema version "@ + text::signed_decimal(current as int)
                        + " is newer than supported version "@ + text::signed_decimal(
                        supported as int,
                    )
                },
                LocalMigrationError::Database { reason } => "local work.db migration failed: "@
                    + reason@,
            },
    {
        match self {
            LocalMigrationError::UnsupportedSchema { current, supported } => {
                let found: String = text::signed_numeral(*current);
                let known: String = text::signed_numeral(*supported);
                let mut out: String = text::joined("local work.db schema version ", &found);
                out.append(" is newer than supported version ");
                out.append(&known);
                out
            },
            LocalMigrationError::Database { reason } => text::joined(
                "local work.db migration failed: ",
                reason,
            ),
        }
    }
}

/// An owner of a part of the schema.
#[derive(Debug, Clone, Copy, PartialEq, Eq, Structural)]
pub enum LocalAdapter {
    Scope,
    Agent,
    WorkGraph,
    WorkItem,
    Wake,
    RunBinding,
    Attempt,
    ExecutionSnapshot,
    Routine,
    ScheduleBackend,
    Approval,
    Evidence,
    ExternalAccount,
    ExternalObject,
    Usage,
    Budget,
    Recovery,
    RepositoryScope,
    Registration,
    NotificationProposal,
    CronAutomationTransfer,
}

/// The adapters in the order in which they are opened.
pub open spec fn adapters() -> Seq<LocalAdapter> {
    seq![
        LocalAdapter::Scope,
        LocalAdapter::Agent,
        LocalAdapter::WorkGraph,
        LocalAdapter::WorkItem,
        LocalAdapter::Wake,
        LocalAdapter::RunBinding,
        LocalAdapter::Attempt,
        LocalAdapter::ExecutionSnapshot,
        LocalAdapter::Routine,
        LocalAdapter::ScheduleBackend,
        LocalAdapter::Approval,
        LocalAdapter::Evidence,
        LocalAdapter::ExternalAccount,
        LocalAdapter::ExternalObject,
        LocalAdapter::Usage,
        LocalAdapter::Budget,
        LocalAdapter::Recovery,
        LocalAdapter::RepositoryScope,
        LocalAdapter::Registration,
        LocalAdapter::NotificationProposal,
        LocalAdapter::CronAutomationTransfer,
    ]
}

/// The adapter at a place of the order.
pub fn adapter_at(index: usize) -> (r: LocalAdapter)
    requires
        index < LOCAL_ADAPTER_COUNT,
    ensures
        r == adapters()[index as int],
{
    if index == 0 {
        LocalAdapter::Scope
    } else if index == 1 {
        LocalAdapter::Agent
    } else if index == 2 {
        LocalAdapter::WorkGraph
    } else if index == 3 {
        LocalAdapter::WorkItem
    } else if index == 4 {
        LocalAdapter::Wake
    } else if index == 5 {
        LocalAdapter::RunBinding
    } else if index == 6 {
        LocalAdapter::Attempt
    } else if index == 7 {
        LocalAdapter::ExecutionSnapshot
    } else if index == 8 {
        LocalAdapter::Routine
    } else if index == 9 {
        LocalAdapter::ScheduleBackend
    } else if index == 10 {
        LocalAdapter::Approval
    } else if index == 11 {
        LocalAdapter::Evidence
    } else if index == 12 {
        LocalAdapter::ExternalAccount
    } else if index == 13 {
        LocalAdapter::ExternalObject
    } else if index == 14 {
        LocalAdapter::Usage
    } else if index == 15 {
        LocalAdapter::Budget
    } else if index == 16 {
        LocalAdapter::Recovery
    } else if index == 17 {
        LocalAdapter::RepositoryScope
    } else if index == 18 {
        LocalAdapter::Registration
    } else if index == 19 {
        LocalAdapter::NotificationProposal
    } else {
        LocalAdapter::CronAutomationTransfer
    }
}

/// Migrates the local database, step by step.
#[derive(Debug, Clone, Copy, PartialEq, Eq, Structural)]
pub struct LocalMigrationRunner {
    pub stage: MigrationStage,
}

impl LocalMigrationRunner {
    /// A migration that has not begun.
    pub fn new() -> (r: Self)
        ensures
            r.stage == MigrationStage::Preflight,
    {
        LocalMigrationRunner { stage: MigrationStage::Preflight }
    }

    /// Takes the migration one step further; an error ends it where it stands.
    pub fn advance(&mut self, event: MigrationEvent) -> (r: Result<(), LocalMigrationError>)
        ensures
            match next_stage(old(self).stage, event) {
                Ok(stage) => r is Ok && final(self).stage == stage,
                Err(error) => r == Err::<(), LocalMigrationError>(error) && *final(self) == *old(
                    self,
                ),
            },
    {
        match migrate_next(self.stage, event) {
            Ok(stage) => {
                self.stage = stage;
                Ok(())
            },
            Err(error) => Err(error),
        }
    }
}

/// Where a migration stands.
#[derive(Debug, Clone, Copy, PartialEq, Eq, Structural)]
pub enum MigrationStage {
    /// The ledger of an existing database is read, without changing it.
    Preflight,
    /// The core store is opened; it creates the file.
    Core,
    /// The ledger is created where it is absent, and read.
    Ledger,
    /// An adapter is opened.
    Adapter { index: usize, current: i64 },
    /// The version is recorded.
    Recording { current: i64 },
    Finished { report: LocalMigrationReport },
}

/// What the outside reports.
#[derive(Debug)]
pub enum MigrationEvent {
    /// The ledger was read; nothing where it is absent or empty.
    LedgerRead { version: Option<i64> },
    /// What was asked for is done.
    Done,
    /// What was asked for failed.
    Failed { reason: String },
}

/// The recorded version; zero where there is none.
pub open spec fn version_of(version: Option<i64>) -> i64 {
    match version {
        Some(version) => version,
        None => 0,
    }
}

/// Where a migration goes after an event; an error ends it. An event that does not belong to the
/// stage is a fault of the caller.
pub open spec fn next_stage(stage: MigrationStage, event: MigrationEvent) -> Result<
    MigrationStage,
    LocalMigrationError,
> {
    match (stage, event) {
        (_, MigrationEvent::Failed { reason }) => Err(LocalMigrationError::Database { reason }),
        (MigrationStage::Preflight, MigrationEvent::LedgerRead { version }) => {
            if version_of(version) > LOCAL_WORK_DB_SCHEMA_VERSION {
                Err(
                    LocalMigrationError::UnsupportedSchema {
                        current: version_of(version),
                        supported: LOCAL_WORK_DB_SCHEMA_VERSION,
                    },
                )
            } else {
                Ok(MigrationStage::Core)
            }
        },
        (MigrationStage::Core, MigrationEvent::Done) => Ok(MigrationStage::Ledger),
        (MigrationStage::Ledger, MigrationEvent::LedgerRead { version }) => {
            if version_of(version) > LOCAL_WORK_DB_SCHEMA_VERSION {
                Err(
                    LocalMigrationError::UnsupportedSchema {
                        current: version_of(version),
                        supported: LOCAL_WORK_DB_SCHEMA_VERSION,
                    },
                )
            } else {
                Ok(MigrationStage::Adapter { index: 0, current: version_of(version) })
            }
        },
        (MigrationStage::Adapter { index, current }, MigrationEvent::Done) => {
            if index + 1 < LOCAL_ADAPTER_COUNT {
                Ok(MigrationStage::Adapter { index: (index + 1) as usize, current })
            } else if current < LOCAL_WORK_DB_SCHEMA_VERSION {
                Ok(MigrationStage::Recording { current })
            } else {
                Ok(
                    MigrationStage::Finished {
                        report: LocalMigrationReport {
                            schema_version: LOCAL_WORK_DB_SCHEMA_VERSION,
                            applied: false,
                        },
                    },
                )
            }
        },
        (MigrationStage::Recording { current }, MigrationEvent::Done) => Ok(
            MigrationStage::Finished {
                report: LocalMigrationReport {
                    schema_version: LOCAL_WORK_DB_SCHEMA_VERSION,
                    applied: true,
                },
            },
        ),
        (stage, _) => Ok(stage),
    }
}

/// Refuses a version that is newer than this one.
fn check_version(version: Option<i64>) -> (r: Result<i64, LocalMigrationError>)
    ensures
        match r {
            Ok(current) => current == version_of(version) && current
                <= LOCAL_WORK_DB_SCHEMA_VERSION,
            Err(error) => version_of(version) > LOCAL_WORK_DB_SCHEMA_VERSION && error == (
            LocalMigrationError::UnsupportedSchema {
                current: version_of(version),
                supported: LOCAL_WORK_DB_SCHEMA_VERSION,
            }),
        },
{
    let current: i64 = match version {
        Some(version) => version,
        None => 0,
    };
    if current > LOCAL_WORK_DB_SCHEMA_VERSION {
        return Err(
            LocalMigrationError::UnsupportedSchema {
                current,
                supported: LOCAL_WORK_DB_SCHEMA_VERSION,
            },
        );
    }
    Ok(current)
}

/// Where a migration goes after an event.
pub fn migrate_next(stage: MigrationStage, event: MigrationEvent) -> (r: Result<
    MigrationStage,
    LocalMigrationError,
>)
    ensures
        r == next_stage(stage, event),
{
    let event: MigrationEvent = match event {
        MigrationEvent::Failed { reason } => {
            return Err(LocalMigrationError::Database { reason });
        },
        other => other,
    };
    match (stage, event) {
        (MigrationStage::Preflight, MigrationEvent::LedgerRead { version }) => {
            match check_version(version) {
                Ok(_) => Ok(MigrationStage::Core),
                Err(error) => Err(error),
            }
        },
        (MigrationStage::Core, MigrationEvent::Done) => Ok(MigrationStage::Ledger),
        (MigrationStage::Ledger, MigrationEvent::LedgerRead { version }) => {
            match check_version(version) {
                Ok(current) => Ok(MigrationStage::Adapter { index: 0, current }),
                Err(error) => Err(error),
            }
        },
        (MigrationStage::Adapter { index, current }, MigrationEvent::Done) => {
            if index < LOCAL_ADAPTER_COUNT - 1 {
                Ok(MigrationStage::Adapter { index: index + 1, current })
            } else if current < LOCAL_WORK_DB_SCHEMA_VERSION {
                Ok(MigrationStage::Recording { current })
            } else {
                Ok(
                    MigrationStage::Finished {
                        report: LocalMigrationReport {
                            schema_version: LOCAL_WORK_DB_SCHEMA_VERSION,
                            applied: false,
                        },
                    },
                )
            }
        },
        (MigrationStage::Recording { .. }, MigrationEvent::Done) => Ok(
            MigrationStage::Finished {
                report: LocalMigrationReport {
                    schema_version: LOCAL_WORK_DB_SCHEMA_VERSION,
                    applied: true,
                },
            },
        ),
        (stage, _) => Ok(stage),
    }
}

/// The stages of a migration in which nothing fails, from the two reads of the ledger: the first
/// `count` of them.
pub open spec fn stage_after(first: Option<i64>, second: Option<i64>, count: nat) -> Result<
    MigrationStage,
    LocalMigrationError,
>
    decreases count,
{
    if count == 0 {
        Ok(MigrationStage::Preflight)
    } else {
        match stage_after(first, second, (count - 1) as nat) {
            Err(error) => Err(error),
            Ok(stage) => next_stage(
                stage,
                match stage {
                    MigrationStage::Preflight => MigrationEvent::LedgerRead { version: first },
                    MigrationStage::Ledger => MigrationEvent::LedgerRead { version: second },
                    _ => MigrationEvent::Done,
                },
            ),
        }
    }
}

/// A newer schema is refused before the core store or any adapter is opened.
pub proof fn law_newer_schema_opens_nothing(first: Option<i64>, second: Option<i64>, count: nat)
    requires
        version_of(first) > LOCAL_WORK_DB_SCHEMA_VERSION,
        count > 0,
    ensures
        stage_after(first, second, count) == Err::<MigrationStage, LocalMigrationError>(
            LocalMigrationError::UnsupportedSchema {
                current: version_of(first),
                supported: LOCAL_WORK_DB_SCHEMA_VERSION,
            },
        ),
    decreases count,
{
    if count > 1 {
        law_newer_schema_opens_nothing(first, second, (count - 1) as nat);
    } else {
        assert(stage_after(first, second, 0) == Ok::<MigrationStage, LocalMigrationError>(
            MigrationStage::Preflight,
        ));
    }
}

/// Every schema owner is one of the adapters that are opened, and none is opened twice.
proof fn lemma_every_owner_is_opened()
    ensures
        adapters().len() == LOCAL_ADAPTER_COUNT,
        adapters().no_duplicates(),
        forall|owner: LocalAdapter| #[trigger] adapters().contains(owner),
{
    assert forall|owner: LocalAdapter| #[trigger] adapters().contains(owner) by {
        match owner {
            LocalAdapter::Scope => assert(adapters()[0] == owner),
            LocalAdapter::Agent => assert(adapters()[1] == owner),
            LocalAdapter::WorkGraph => assert(adapters()[2] == owner),
            LocalAdapter::WorkItem => assert(adapters()[3] == owner),
            LocalAdapter::Wake => assert(adapters()[4] == owner),
            LocalAdapter::RunBinding => assert(adapters()[5] == owner),
            LocalAdapter::Attempt => assert(adapters()[6] == owner),
            LocalAdapter::ExecutionSnapshot => assert(adapters()[7] == owner),
            LocalAdapter::Routine => assert(adapters()[8] == owner),
            LocalAdapter::ScheduleBackend => assert(adapters()[9] == owner),
            LocalAdapter::Approval => assert(adapters()[10] == owner),
            LocalAdapter::Evidence => assert(adapters()[11] == owner),
            LocalAdapter::ExternalAccount => assert(adapters()[12] == owner),
            LocalAdapter::ExternalObject => assert(adapters()[13] == owner),
            LocalAdapter::Usage => assert(adapters()[14] == owner),
            LocalAdapter::Budget => assert(adapters()[15] == owner),
            LocalAdapter::Recovery => assert(adapters()[16] == owner),
            LocalAdapter::RepositoryScope => assert(adapters()[17] == owner),
            LocalAdapter::Registration => assert(adapters()[18] == owner),
            LocalAdapter::NotificationProposal => assert(adapters()[19] == owner),
            LocalAdapter::CronAutomationTransfer => assert(adapters()[20] == owner),
        }
    }
}

/// Every schema owner is opened once, each after the one before it, and only then the migration ends: it is
/// applied exactly where the recorded version was older.
pub proof fn law_every_adapter_is_opened_in_order(
    first: Option<i64>,
    second: Option<i64>,
    index: nat,
)
    requires
        version_of(first) <= LOCAL_WORK_DB_SCHEMA_VERSION,
        version_of(second) <= LOCAL_WORK_DB_SCHEMA_VERSION,
        index < LOCAL_ADAPTER_COUNT,
    ensures
        adapters().len() == LOCAL_ADAPTER_COUNT,
        adapters().no_duplicates(),
        forall|owner: LocalAdapter| #[trigger] adapters().contains(owner),
        stage_after(first, second, index + 3) == Ok::<MigrationStage, LocalMigrationError>(
            MigrationStage::Adapter { index: index as usize, current: version_of(second) },
        ),
        index == LOCAL_ADAPTER_COUNT - 1 ==> stage_after(first, second, index + 5) == Ok::<
            MigrationStage,
            LocalMigrationError,
        >(
            MigrationStage::Finished {
                report: LocalMigrationReport {
                    schema_version: LOCAL_WORK_DB_SCHEMA_VERSION,
                    applied: version_of(second) < LOCAL_WORK_DB_SCHEMA_VERSION,
                },
            },
        ),
    decreases index,
{
    lemma_every_owner_is_opened();
    if index == 0 {
        assert(stage_after(first, second, 0) == Ok::<MigrationStage, LocalMigrationError>(
            MigrationStage::Preflight,
        ));
        assert(stage_after(first, second, 1) == Ok::<MigrationStage, LocalMigrationError>(
            MigrationStage::Core,
        ));
        assert(stage_after(first, second, 2) == Ok::<MigrationStage, LocalMigrationError>(
            MigrationStage::Ledger,
        ));
    } else {
        law_every_adapter_is_opened_in_order(first, second, (index - 1) as nat);
    }
    if index == LOCAL_ADAPTER_COUNT - 1 {
        reveal_with_fuel(stage_after, 3);
    }
}

} // verus!
