//! What the cutover of a schedule leaves in the ledger and in the mappings, flag by flag and
//! automation by automation.
use vstd::prelude::*;
use vstd::string::*;
use crate::cron_automation_transfer::{CronAutomationRecord, Mapping};
use crate::feature_flag_repository::FeatureFlagError;
use crate::schedule::{EnableError, Reading};
use crate::text;

verus! {

/// The ledger records two owners: the daemon and the desktop.
pub proof fn law_owners_are_the_daemon_and_the_desktop(owner: Seq<char>)
    ensures
        crate::schedule::is_owner(owner) <==> owner == "daemon"@ || owner == "desktop_host"@,
{
}

/// A decision is recorded where none is, accepted where the same one is, and refused where another
/// one is. It is refused as unsound where its key is blank or its value empty. Nothing else in the
/// ledger moves.
pub proof fn law_first_decision_stands(
    before: Map<Seq<char>, Seq<char>>,
    key: Seq<char>,
    value: Seq<char>,
    r: Result<(), EnableError>,
    after: Map<Seq<char>, Seq<char>>,
)
    requires
        crate::schedule::record_result(before, key, value, r, after),
        !(r matches Err(EnableError::Flag(FeatureFlagError::Internal { .. }))),
    ensures
        ({
            let blank = forall|i: int|
                0 <= i < key.len() ==> text::is_white_space(#[trigger] key[i]);
            let sound = !blank && value.len() > 0;
            let known = before.contains_key(key);
            &&& sound && !known ==> r is Ok && after.contains_key(key) && after[key] == value
            &&& sound && known && before[key] == value ==> r is Ok && after == before
            &&& known && before[key] != value ==> r is Err && after == before
            &&& sound && known && before[key] != value ==> r->Err_0 is FlagConflict
            &&& !sound ==> r is Err && after == before
            &&& forall|other: Seq<char>|
                other != key ==> (#[trigger] after.contains_key(other)) == before.contains_key(
                    other,
                ) && (before.contains_key(other) ==> after[other] == before[other])
        }),
{
    assert(text::is_blank(key) <==> forall|i: int|
        0 <= i < key.len() ==> text::is_white_space(#[trigger] key[i]));
}

/// A reading is verified exactly where it succeeded and every automation that it found has a mapping
/// that is not an incompatible one.
pub proof fn law_verified_readings_are_mapped_and_compatible(
    mappings: Map<Seq<char>, Mapping>,
    reading: Reading,
)
    ensures
        crate::schedule::is_verified(mappings, reading) <==> reading.outcome is Ok && forall|i: int|
            0 <= i < reading.outcome->Ok_0@.len() ==> mappings.contains_key(
                (#[trigger] reading.outcome->Ok_0@[i]).id@,
            ) && mappings[reading.outcome->Ok_0@[i].id@].disposition != "incompatible"@,
{
    if reading.outcome is Ok {
        crate::snapshot_laws::law_blockers_are_what_stands_in_the_way(
            mappings,
            reading.outcome->Ok_0@,
        );
    }
}

/// One of the automations has the identifier.
pub open spec fn names(automations: Seq<CronAutomationRecord>, id: Seq<char>) -> bool {
    exists|i: int| 0 <= i < automations.len() && (#[trigger] automations[i]).id@ == id
}

/// Retiring automations stamps each of them that has a mapping and was not retired with the time,
/// and leaves every other mapping, and everything else of theirs, as it was.
pub proof fn law_retirement_stamps_each(
    before: Map<Seq<char>, Mapping>,
    automations: Seq<CronAutomationRecord>,
    at: u64,
    count: nat,
    key: Seq<char>,
)
    requires
        count <= automations.len(),
    ensures
        ({
            let after = crate::schedule::retired_all(before, automations, at, count);
            let named = names(automations.take(count as int), key);
            &&& after.contains_key(key) == before.contains_key(key)
            &&& before.contains_key(key) ==> {
                &&& named && before[key].retired_at is None ==> after[key].retired_at == Some(at)
                &&& !named || before[key].retired_at is Some ==> after[key].retired_at
                    == before[key].retired_at
                &&& after[key].disposition == before[key].disposition
                &&& after[key].routine_id == before[key].routine_id
                &&& after[key].work_item_id == before[key].work_item_id
                &&& after[key].content_hash == before[key].content_hash
                &&& after[key].provenance_json == before[key].provenance_json
            }
        }),
    decreases count,
{
    let taken = automations.take(count as int);
    if count > 0 {
        let last = (count - 1) as nat;
        law_retirement_stamps_each(before, automations, at, last, key);
        let fewer = automations.take(last as int);
        let between = crate::schedule::retired_all(before, automations, at, last);
        crate::snapshot_laws::law_retirement_stamps_once(
            between,
            automations[last as int].id@,
            at,
            key,
        );
        if names(fewer, key) {
            let i = choose|i: int| 0 <= i < fewer.len() && (#[trigger] fewer[i]).id@ == key;
            assert(taken[i].id@ == key);
        }
        if automations[last as int].id@ == key {
            assert(taken[last as int].id@ == key);
        }
        if names(taken, key) {
            let i = choose|i: int| 0 <= i < taken.len() && (#[trigger] taken[i]).id@ == key;
            if i < last {
                assert(fewer[i].id@ == key);
            }
        }
    } else {
        assert(!names(taken, key));
    }
}

/// A cutover that succeeds leaves the owner and the decision in the ledger, and no other flag is
/// touched. Every automation that the last reading found is counted, and retired where it has a
/// mapping; no other mapping changes.
pub proof fn law_completed_cutover(
    mappings: Map<Seq<char>, Mapping>,
    flags: Map<Seq<char>, Seq<char>>,
    readings: Seq<Reading>,
    owner: Seq<char>,
    now: u64,
    fallible: bool,
    count: usize,
    mappings_after: Map<Seq<char>, Mapping>,
    flags_after: Map<Seq<char>, Seq<char>>,
    key: Seq<char>,
)
    requires
        crate::schedule::enable_result(
            mappings,
            flags,
            readings,
            owner,
            now,
            fallible,
            Ok(count),
            mappings_after,
            flags_after,
        ),
    ensures
        flags_after.contains_key("schedule_owner"@),
        flags_after["schedule_owner"@] == owner,
        flags_after.contains_key("control_plane_enabled"@),
        flags_after["control_plane_enabled"@] == "true"@,
        key != "schedule_owner"@ && key != "control_plane_enabled"@ ==> flags_after.contains_key(key)
            == flags.contains_key(key) && (flags.contains_key(key) ==> flags_after[key]
            == flags[key]),
        readings.len() == 3,
        readings[2].outcome is Ok,
        count == readings[2].outcome->Ok_0@.len(),
        mappings_after.contains_key(key) == mappings.contains_key(key),
        mappings.contains_key(key) ==> {
            let named = names(readings[2].outcome->Ok_0@, key);
            &&& named && mappings[key].retired_at is None ==> mappings_after[key].retired_at
                == Some(now)
            &&& named ==> mappings_after[key].retired_at is Some
            &&& !named ==> mappings_after[key].retired_at == mappings[key].retired_at
            &&& mappings_after[key].disposition == mappings[key].disposition
            &&& mappings_after[key].content_hash == mappings[key].content_hash
        },
{
    reveal_strlit("schedule_owner");
    reveal_strlit("control_plane_enabled");
    assert("schedule_owner"@.len() != "control_plane_enabled"@.len());
    assert(readings.skip(1)[0] == readings[1]);
    assert(readings.skip(1)[1] == readings[2]);
    let active = readings[2].outcome->Ok_0@;
    law_retirement_stamps_each(mappings, active, now, active.len(), key);
    assert(active.take(active.len() as int) =~= active);
}

/// A cutover that fails retires nothing unless the store of the mappings itself fails, and it moves
/// no flag but the owner's and the decision's, each only where none was recorded.
pub proof fn law_failed_cutover(
    mappings: Map<Seq<char>, Mapping>,
    flags: Map<Seq<char>, Seq<char>>,
    readings: Seq<Reading>,
    owner: Seq<char>,
    now: u64,
    error: EnableError,
    mappings_after: Map<Seq<char>, Mapping>,
    flags_after: Map<Seq<char>, Seq<char>>,
    key: Seq<char>,
)
    requires
        crate::schedule::enable_result(
            mappings,
            flags,
            readings,
            owner,
            now,
            false,
            Err(error),
            mappings_after,
            flags_after,
        ),
    ensures
        mappings_after == mappings,
        flags.contains_key(key) ==> flags_after.contains_key(key) && flags_after[key] == flags[key],
        key != "schedule_owner"@ && key != "control_plane_enabled"@ ==> flags_after.contains_key(key)
            == flags.contains_key(key),
        flags_after.contains_key("schedule_owner"@) && !flags.contains_key("schedule_owner"@)
            ==> flags_after["schedule_owner"@] == owner,
{
    reveal_strlit("schedule_owner");
    reveal_strlit("control_plane_enabled");
    assert("schedule_owner"@.len() != "control_plane_enabled"@.len());
    if readings.len() > 1 {
        assert(readings.skip(1)[0] == readings[1]);
    }
    if readings.len() > 2 {
        assert(readings.skip(1)[1] == readings[2]);
    }
}

} // verus!
