//! What is read of the legacy stores, and how the local database is brought up to date.
use vstd::prelude::*;
use vstd::string::*;
use crate::legacy_import::LegacyImportError;
use crate::legacy_store::MemberView;
use crate::local_migration::{
    LocalAdapter, LocalMigrationError, LocalMigrationReport, MigrationEvent, MigrationStage,
};
use crate::table::Table;
use crate::text;

verus! {

/// The first member of a key stands where none before it has the key; where there is none, no
/// member has it.
pub proof fn law_first_member_of_a_key(members: Seq<MemberView>, key: Seq<char>)
    ensures
        ({
            let at = crate::legacy_store::member_at(members, key);
            &&& at <= members.len()
            &&& at < members.len() ==> members[at as int].0 == key
            &&& forall|i: int| 0 <= i < at ==> (#[trigger] members[i]).0 != key
        }),
    decreases members.len(),
{
    if members.len() > 0 && members[0].0 != key {
        let rest = members.drop_first();
        law_first_member_of_a_key(rest, key);
        let at = crate::legacy_store::member_at(members, key);
        assert forall|i: int| 0 <= i < at implies (#[trigger] members[i]).0 != key by {
            if i > 0 {
                assert(rest[i - 1] == members[i]);
            }
        }
    }
}

/// The assignments are the entries of the first member of that name, as they are and in order. A
/// store without the member holds none; a member that is no array, or one of more than 2000 entries,
/// is refused.
pub proof fn law_assignments_are_read_as_they_stand(
    members: Seq<MemberView>,
    r: Result<Vec<String>, LegacyImportError>,
    at: int,
)
    requires
        crate::legacy_store::assignments_result(members, r),
        0 <= at <= members.len(),
        at < members.len() ==> members[at].0 == "assignments"@,
        forall|i: int| 0 <= i < at ==> (#[trigger] members[i]).0 != "assignments"@,
    ensures
        at == members.len() ==> r is Ok && r->Ok_0@.len() == 0,
        at < members.len() && members[at].1 is None ==> r is Err,
        at < members.len() && members[at].1 is Some ==> (r is Ok <==> members[at].1->0.len()
            <= 2000),
        at < members.len() && r is Ok ==> {
            &&& r->Ok_0@.len() == members[at].1->0.len()
            &&& forall|i: int|
                0 <= i < r->Ok_0@.len() ==> (#[trigger] r->Ok_0@[i])@ == members[at].1->0[i]
        },
        r is Err ==> r->Err_0 is InvalidStore,
{
    law_first_member_of_a_key(members, "assignments"@);
    let found = crate::legacy_store::member_at(members, "assignments"@) as int;
    if found < at {
        assert(members[found].0 != "assignments"@);
    }
    if at < found {
        assert(members[at].0 != "assignments"@);
    }
    if at < members.len() && r is Ok {
        let entries = r->Ok_0@;
        assert(text::views(entries).len() == entries.len());
        assert forall|i: int| 0 <= i < entries.len() implies (#[trigger] entries[i])@
            == members[at].1->0[i] by {
            assert(text::views(entries)[i] == entries[i]@);
        }
    }
}

/// A key is that of a session's todos.
pub open spec fn is_key_of(key: Seq<char>, session: Seq<char>) -> bool {
    key == "todos:"@ + session
}

/// A key that begins as a session's does is that of the session behind the beginning.
proof fn lemma_session_key(key: Seq<char>, session: Seq<char>)
    ensures
        is_key_of(key, session) <==> crate::legacy_store::is_session(key)
            && crate::legacy_store::session_of(key) == session,
{
    let prefix = "todos:"@;
    if is_key_of(key, session) {
        assert(key.subrange(0, prefix.len() as int) =~= prefix);
        assert(key.skip(prefix.len() as int) =~= session);
    }
    if crate::legacy_store::is_session(key) && crate::legacy_store::session_of(key) == session {
        assert(key =~= key.subrange(0, prefix.len() as int) + key.skip(prefix.len() as int));
    }
}

/// The todos of a session are the entries of the last member of its key that is an array, and a
/// session without one has none.
pub proof fn law_todos_are_read_by_session(members: Seq<MemberView>, session: Seq<char>, at: int)
    requires
        0 <= at < members.len(),
        is_key_of(members[at].0, session),
        members[at].1 is Some,
        forall|i: int|
            at < i < members.len() ==> !(is_key_of((#[trigger] members[i]).0, session)
                && members[i].1 is Some),
    ensures
        crate::legacy_store::sessions_of(members).contains_key(session),
        crate::legacy_store::sessions_of(members)[session] == members[at].1->0,
    decreases members.len(),
{
    let last = members.last();
    lemma_session_key(last.0, session);
    if at < members.len() - 1 {
        let shorter = members.drop_last();
        assert(members[members.len() - 1] == last);
        assert forall|i: int| at < i < shorter.len() implies !(is_key_of(
            (#[trigger] shorter[i]).0,
            session,
        ) && shorter[i].1 is Some) by {
            assert(shorter[i] == members[i]);
        }
        law_todos_are_read_by_session(shorter, session, at);
    }
}

/// A session has todos only where a member of its key is an array.
pub proof fn law_no_other_sessions_are_read(members: Seq<MemberView>, session: Seq<char>)
    requires
        forall|i: int|
            0 <= i < members.len() ==> !(is_key_of((#[trigger] members[i]).0, session)
                && members[i].1 is Some),
    ensures
        !crate::legacy_store::sessions_of(members).contains_key(session),
    decreases members.len(),
{
    if members.len() > 0 {
        let shorter = members.drop_last();
        assert(members[members.len() - 1] == members.last());
        lemma_session_key(members.last().0, session);
        assert forall|i: int| 0 <= i < shorter.len() implies !(is_key_of(
            (#[trigger] shorter[i]).0,
            session,
        ) && shorter[i].1 is Some) by {
            assert(shorter[i] == members[i]);
        }
        law_no_other_sessions_are_read(shorter, session);
    }
}

/// A member is in order: it is none of a session's, or it is an array of at most 2000 entries.
pub open spec fn is_in_order(member: MemberView) -> bool {
    (exists|session: Seq<char>| #[trigger] is_key_of(member.0, session)) ==> member.1 is Some
        && member.1->0.len() <= 2000
}

/// The todos are read exactly where every member is in order.
pub proof fn law_todos_are_read_where_every_session_is_in_order(members: Seq<MemberView>)
    ensures
        crate::legacy_store::todos_fault(members) is None <==> forall|i: int|
            0 <= i < members.len() ==> is_in_order(#[trigger] members[i]),
    decreases members.len(),
{
    if members.len() > 0 {
        let shorter = members.drop_last();
        let last = members.last();
        law_todos_are_read_where_every_session_is_in_order(shorter);
        lemma_session_key(last.0, crate::legacy_store::session_of(last.0));
        if exists|session: Seq<char>| #[trigger] is_key_of(last.0, session) {
            let session = choose|session: Seq<char>| #[trigger] is_key_of(last.0, session);
            lemma_session_key(last.0, session);
        }
        assert(is_in_order(last) <==> crate::legacy_store::session_fault(last) is None);
        assert(members[members.len() - 1] == last);
        if forall|i: int| 0 <= i < members.len() ==> is_in_order(#[trigger] members[i]) {
            assert forall|i: int| 0 <= i < shorter.len() implies is_in_order(
                #[trigger] shorter[i],
            ) by {
                assert(shorter[i] == members[i]);
            }
        }
        if crate::legacy_store::todos_fault(members) is None {
            assert forall|i: int| 0 <= i < members.len() implies is_in_order(
                #[trigger] members[i],
            ) by {
                if i < shorter.len() {
                    assert(shorter[i] == members[i]);
                }
            }
        }
    }
}

/// What is read of the todos is every session's entries as they stand, and a store that is not in
/// order is refused.
pub proof fn law_todos_result(
    members: Seq<MemberView>,
    r: Result<Table<Vec<String>>, LegacyImportError>,
)
    requires
        crate::legacy_store::todos_result(members, r),
    ensures
        r is Ok <==> forall|i: int| 0 <= i < members.len() ==> is_in_order(#[trigger] members[i]),
        r is Err ==> r->Err_0 is InvalidStore,
        r matches Ok(sessions) ==> forall|session: Seq<char>| #[trigger]
            sessions@.contains_key(session) ==> crate::legacy_store::sessions_of(
                members,
            ).contains_key(session) && text::views(sessions@[session]@)
                == crate::legacy_store::sessions_of(members)[session],
{
    law_todos_are_read_where_every_session_is_in_order(members);
    if let Ok(sessions) = r {
        let seen = sessions@.map_values(|entries: Vec<String>| text::views(entries@));
        assert forall|session: Seq<char>| #[trigger] sessions@.contains_key(session) implies
            crate::legacy_store::sessions_of(members).contains_key(session) && text::views(
            sessions@[session]@,
        ) == crate::legacy_store::sessions_of(members)[session] by {
            assert(seen.contains_key(session));
            assert(seen[session] == text::views(sessions@[session]@));
        }
    }
}

/// A database of a version after the fourth is refused with both versions, at either reading of the
/// ledger; a database without a version counts as of version zero.
pub proof fn law_newer_databases_are_refused(version: Option<i64>)
    ensures
        ({
            let recorded: i64 = if version is Some {
                version->0
            } else {
                0
            };
            let first = crate::local_migration::next_stage(
                MigrationStage::Preflight,
                MigrationEvent::LedgerRead { version },
            );
            let second = crate::local_migration::next_stage(
                MigrationStage::Ledger,
                MigrationEvent::LedgerRead { version },
            );
            &&& recorded > 4 ==> first is Err && first->Err_0 == (
            LocalMigrationError::UnsupportedSchema { current: recorded, supported: 4 })
                && second == first
            &&& recorded <= 4 ==> first == Ok::<MigrationStage, LocalMigrationError>(
                MigrationStage::Core,
            ) && second == Ok::<MigrationStage, LocalMigrationError>(
                MigrationStage::Adapter { index: 0, current: recorded },
            )
        }),
{
}

/// The adapters are opened one after the other, all twenty-one; behind the last the version is
/// recorded where the database was older, and the migration ends at the fourth version, applied
/// exactly where it was recorded.
pub proof fn law_adapters_then_the_version(index: usize, current: i64)
    requires
        index < 21,
        current <= 4,
    ensures
        ({
            let done = crate::local_migration::next_stage(
                MigrationStage::Adapter { index, current },
                MigrationEvent::Done,
            );
            &&& index < 20 ==> done == Ok::<MigrationStage, LocalMigrationError>(
                MigrationStage::Adapter { index: (index + 1) as usize, current },
            )
            &&& index == 20 && current < 4 ==> done == Ok::<MigrationStage, LocalMigrationError>(
                MigrationStage::Recording { current },
            )
            &&& index == 20 && current == 4 ==> done == Ok::<MigrationStage, LocalMigrationError>(
                MigrationStage::Finished {
                    report: LocalMigrationReport { schema_version: 4, applied: false },
                },
            )
            &&& crate::local_migration::next_stage(
                MigrationStage::Recording { current },
                MigrationEvent::Done,
            ) == Ok::<MigrationStage, LocalMigrationError>(
                MigrationStage::Finished {
                    report: LocalMigrationReport { schema_version: 4, applied: true },
                },
            )
            &&& crate::local_migration::next_stage(MigrationStage::Core, MigrationEvent::Done)
                == Ok::<MigrationStage, LocalMigrationError>(MigrationStage::Ledger)
        }),
{
}

/// A failure ends the migration at whatever stage, with its reason; an event that does not belong to
/// a stage leaves it.
pub proof fn law_failures_end_the_migration(stage: MigrationStage, reason: String)
    ensures
        crate::local_migration::next_stage(stage, MigrationEvent::Failed { reason }) == Err::<
            MigrationStage,
            LocalMigrationError,
        >(LocalMigrationError::Database { reason }),
        stage is Preflight || stage is Ledger || stage is Finished
            ==> crate::local_migration::next_stage(stage, MigrationEvent::Done) == Ok::<
            MigrationStage,
            LocalMigrationError,
        >(stage),
{
}

/// The scope is opened before the agents, those before the work graph and its items, the routines
/// before what schedules them, and the transfer of automations last.
pub proof fn law_order_of_the_adapters()
    ensures
        crate::local_migration::adapters().len() == 21,
        crate::local_migration::adapters()[0] == LocalAdapter::Scope,
        crate::local_migration::adapters()[1] == LocalAdapter::Agent,
        crate::local_migration::adapters()[2] == LocalAdapter::WorkGraph,
        crate::local_migration::adapters()[3] == LocalAdapter::WorkItem,
        crate::local_migration::adapters()[4] == LocalAdapter::Wake,
        crate::local_migration::adapters()[5] == LocalAdapter::RunBinding,
        crate::local_migration::adapters()[6] == LocalAdapter::Attempt,
        crate::local_migration::adapters()[7] == LocalAdapter::ExecutionSnapshot,
        crate::local_migration::adapters()[8] == LocalAdapter::Routine,
        crate::local_migration::adapters()[9] == LocalAdapter::ScheduleBackend,
        crate::local_migration::adapters()[10] == LocalAdapter::Approval,
        crate::local_migration::adapters()[11] == LocalAdapter::Evidence,
        crate::local_migration::adapters()[12] == LocalAdapter::ExternalAccount,
        crate::local_migration::adapters()[13] == LocalAdapter::ExternalObject,
        crate::local_migration::adapters()[14] == LocalAdapter::Usage,
        crate::local_migration::adapters()[15] == LocalAdapter::Budget,
        crate::local_migration::adapters()[16] == LocalAdapter::Recovery,
        crate::local_migration::adapters()[17] == LocalAdapter::RepositoryScope,
        crate::local_migration::adapters()[18] == LocalAdapter::Registration,
        crate::local_migration::adapters()[19] == LocalAdapter::NotificationProposal,
        crate::local_migration::adapters()[20] == LocalAdapter::CronAutomationTransfer,
{
}

} // verus!
