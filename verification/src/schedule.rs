//! The cutover of a workspace's schedule to a named owner: verify, record the decision, verify
//! again, retire.
use vstd::prelude::*;
use vstd::string::*;
use crate::cron_automation_transfer::{
    CronAutomationRecord, CronAutomationTransfer, Mapping, MappingRepository, SnapshotReport,
    TransferError,
};
use crate::feature_flag_repository::{
    FeatureFlagError, FeatureFlagRepository, CONTROL_PLANE_ENABLED_FLAG,
};
use crate::outside;
use crate::routine_cron_bridge::{
    SCHEDULE_OWNER_DAEMON, SCHEDULE_OWNER_DESKTOP, SCHEDULE_OWNER_FLAG,
};
use crate::text;

verus! {

/// Why the cutover failed.
#[derive(Debug)]
pub enum EnableError {
    Transfer(TransferError),
    /// The decision is recorded, and the automations are not verified under it.
    Stranded(TransferError),
    Flag(FeatureFlagError),
    /// Another decision is recorded.
    FlagConflict { message: String },
}

impl EnableError {
    /// The error in words.
    pub fn to_text(&self) -> (r: String)
        ensures
            r@ == match *self {
                EnableError::Transfer(error) => error.words(),
                EnableError::Stranded(error) => error.words(),
                EnableError::Flag(error) => error.words(),
                EnableError::FlagConflict { message } => message@,
            },
    {
        match self {
            EnableError::Transfer(error) => error.to_text(),
            EnableError::Stranded(error) => error.to_text(),
            EnableError::Flag(error) => error.to_text(),
            EnableError::FlagConflict { message } => message.clone(),
        }
    }
}

/// Whether the daemon may listen at an address; only loopback addresses are permitted.
pub fn check_listener(is_loopback: bool) -> (r: Result<(), &'static str>)
    ensures
        r is Ok <==> is_loopback,
        r matches Err(message) ==> message@
            == "control-plane daemon only permits loopback bind in this milestone"@,
{
    if is_loopback {
        Ok(())
    } else {
        Err("control-plane daemon only permits loopback bind in this milestone")
    }
}

/// The ledger records this schedule owner.
pub open spec fn is_owner(owner: Seq<char>) -> bool {
    owner == SCHEDULE_OWNER_DAEMON@ || owner == SCHEDULE_OWNER_DESKTOP@
}

/// Whether the ledger records a schedule owner.
pub fn check_owner(owner: &str) -> (r: Result<(), String>)
    ensures
        r is Ok <==> is_owner(owner@),
        r matches Err(message) ==> message@ == "unknown schedule owner "@ + outside::debug_quoted(
            owner@,
        ) + ": the ledger records `daemon` or `desktop_host`"@,
{
    if text::same(owner, SCHEDULE_OWNER_DAEMON) || text::same(owner, SCHEDULE_OWNER_DESKTOP) {
        return Ok(());
    }
    let quoted: String = outside::debug_quote(owner);
    let mut message: String = text::joined("unknown schedule owner ", &quoted);
    message.append(": the ledger records `daemon` or `desktop_host`");
    Err(message)
}

/// The flags with a decision recorded, where none was.
pub open spec fn recorded(
    before: Map<Seq<char>, Seq<char>>,
    key: Seq<char>,
    value: Seq<char>,
) -> Map<Seq<char>, Seq<char>> {
    if before.contains_key(key) {
        before
    } else {
        before.insert(key, value)
    }
}

/// What comes of recording a decision: the first one stands, the same again is accepted, another
/// one is refused. A refusal leaves the flags as they were.
pub open spec fn record_result(
    before: Map<Seq<char>, Seq<char>>,
    key: Seq<char>,
    value: Seq<char>,
    r: Result<(), EnableError>,
    after: Map<Seq<char>, Seq<char>>,
) -> bool {
    match r {
        Ok(_) => {
            &&& crate::feature_flag_repository::flag_fault(key, value) is None
            &&& after == recorded(before, key, value)
            &&& after.contains_key(key)
            &&& after[key] == value
        },
        Err(EnableError::FlagConflict { message }) => {
            &&& after == before
            &&& before.contains_key(key)
            &&& before[key] != value
            &&& message@ == "feature flag "@ + key + " is already "@ + outside::debug_quoted(
                before[key],
            ) + "; refusing to overwrite it with "@ + outside::debug_quoted(value)
        },
        Err(EnableError::Flag(error)) => {
            &&& after == before
            &&& error is Internal || crate::feature_flag_repository::names_fault(
                error,
                crate::feature_flag_repository::flag_fault(key, value),
            )
        },
        Err(EnableError::Transfer(_)) => false,
        Err(EnableError::Stranded(_)) => false,
    }
}

/// Records a decision.
pub fn record_flag<L: FeatureFlagRepository>(
    ledger: &mut L,
    flag_key: &str,
    flag_value: &str,
) -> (r: Result<(), EnableError>)
    requires
        old(ledger).ready(),
    ensures
        final(ledger).ready(),
        record_result(old(ledger).flags(), flag_key@, flag_value@, r, final(ledger).flags()),
        r matches Err(EnableError::Flag(FeatureFlagError::Internal { .. })) ==> old(
            ledger,
        ).fallible(),
        final(ledger).fallible() == old(ledger).fallible(),
{
    match ledger.set_if_absent(flag_key, flag_value) {
        Ok(true) => {
            return Ok(());
        },
        Ok(false) => {},
        Err(error) => {
            return Err(EnableError::Flag(error));
        },
    }
    let existing: String = match ledger.get(flag_key) {
        Ok(Some(value)) => value,
        Ok(None) => String::new(),
        Err(error) => {
            return Err(EnableError::Flag(error));
        },
    };
    if text::same(&existing, flag_value) {
        return Ok(());
    }
    let found: String = outside::debug_quote(&existing);
    let wanted: String = outside::debug_quote(flag_value);
    let mut message: String = text::joined("feature flag ", flag_key);
    message.append(" is already ");
    message.append(&found);
    message.append("; refusing to overwrite it with ");
    message.append(&wanted);
    Err(EnableError::FlagConflict { message })
}

/// The mappings after the retirement of the first `count` automations.
pub open spec fn retired_all(
    before: Map<Seq<char>, Mapping>,
    automations: Seq<CronAutomationRecord>,
    at: u64,
    count: nat,
) -> Map<Seq<char>, Mapping>
    decreases count,
{
    if count == 0 {
        before
    } else {
        crate::cron_automation_transfer::retired(
            retired_all(before, automations, at, (count - 1) as nat),
            automations[count - 1].id@,
            at,
        )
    }
}

/// The retirement stopped after the first `count` automations, before all were retired.
pub open spec fn is_retired_up_to(
    before: Map<Seq<char>, Mapping>,
    automations: Seq<CronAutomationRecord>,
    at: u64,
    count: nat,
    after: Map<Seq<char>, Mapping>,
) -> bool {
    count < automations.len() && after == retired_all(before, automations, at, count)
}

/// A reading of the active automations: the flags that were recorded when it was taken, and what
/// came of it.
pub ghost struct Reading {
    pub flags: Map<Seq<char>, Seq<char>>,
    pub outcome: Result<Vec<CronAutomationRecord>, TransferError>,
}

/// Reads the active automations and accounts for every reading.
pub struct ActiveReader<F: Fn() -> Result<Vec<CronAutomationRecord>, TransferError>> {
    source: F,
    readings: Ghost<Seq<Reading>>,
}

impl<F: Fn() -> Result<Vec<CronAutomationRecord>, TransferError>> ActiveReader<F> {
    /// Where the automations are read.
    pub closed spec fn source(&self) -> F {
        self.source
    }

    /// The readings that were taken, in order.
    pub closed spec fn seen(&self) -> Seq<Reading> {
        self.readings@
    }

    /// The source can be read.
    pub open spec fn ready(&self) -> bool {
        call_requires(self.source(), ())
    }

    /// A reader that has read nothing.
    pub fn new(source: F) -> (r: Self)
        requires
            call_requires(source, ()),
        ensures
            r.ready(),
            r.source() == source,
            r.seen() == Seq::<Reading>::empty(),
    {
        ActiveReader { source, readings: Ghost(Seq::empty()) }
    }

    /// Reads the active automations under the flags as the ledger has them.
    pub fn read<L: FeatureFlagRepository>(&mut self, ledger: &L) -> (r: Result<
        Vec<CronAutomationRecord>,
        TransferError,
    >)
        requires
            old(self).ready(),
        ensures
            final(self).ready(),
            final(self).source() == old(self).source(),
            call_ensures(old(self).source(), (), r),
            final(self).seen() == old(self).seen().push(
                Reading { flags: ledger.flags(), outcome: r },
            ),
    {
        let outcome: Result<Vec<CronAutomationRecord>, TransferError> = (self.source)();
        self.readings = Ghost(
            self.readings@.push(Reading { flags: ledger.flags(), outcome }),
        );
        outcome
    }
}

/// The reading found every active automation mapped and compatible.
pub open spec fn is_verified(mappings: Map<Seq<char>, Mapping>, reading: Reading) -> bool {
    reading.outcome is Ok && crate::cron_automation_transfer::blockers_of(
        mappings,
        reading.outcome->Ok_0@,
    ).len() == 0
}

/// The error by which a reading is not verified: that of the reading, what stands in the way, or,
/// of a store that can fail, that of the store.
pub open spec fn unverified(
    mappings: Map<Seq<char>, Mapping>,
    reading: Reading,
    fallible: bool,
    error: TransferError,
) -> bool {
    match reading.outcome {
        Err(failed) => error == failed,
        Ok(active) => {
            ||| fallible && error is Database
            ||| {
                &&& error matches TransferError::EnableBlocked { blockers }
                &&& blockers@.len() > 0
                &&& crate::cron_automation_transfer::blocker_texts(blockers@)
                    == crate::cron_automation_transfer::blockers_of(mappings, active@)
            }
        },
    }
}

/// What comes of verifying again and retiring. Two readings of the active automations decide: the
/// first is verified, and what the second found is retired.
pub open spec fn retire_result(
    before: Map<Seq<char>, Mapping>,
    readings: Seq<Reading>,
    now: u64,
    fallible: bool,
    r: Result<usize, EnableError>,
    after: Map<Seq<char>, Mapping>,
) -> bool {
    match r {
        Ok(count) => {
            &&& readings.len() == 2
            &&& is_verified(before, readings[0])
            &&& readings[1].outcome matches Ok(active)
            &&& count == active@.len()
            &&& after == retired_all(before, active@, now, active@.len())
        },
        Err(EnableError::Stranded(error)) => {
            &&& readings.len() == 1
            &&& unverified(before, readings[0], fallible, error)
            &&& after == before
        },
        Err(EnableError::Transfer(error)) => {
            &&& readings.len() == 2
            &&& is_verified(before, readings[0])
            &&& match readings[1].outcome {
                Err(failed) => error == failed && after == before,
                Ok(active) => {
                    &&& fallible
                    &&& error is Database
                    &&& exists|count: nat| #[trigger]
                        is_retired_up_to(before, active@, now, count, after)
                },
            }
        },
        Err(_) => false,
    }
}

/// The readings that came after those of an earlier account.
pub open spec fn readings_since(earlier: Seq<Reading>, later: Seq<Reading>) -> Seq<Reading> {
    later.skip(earlier.len() as int)
}

/// Every reading was taken under these flags.
pub open spec fn taken_under(readings: Seq<Reading>, flags: Map<Seq<char>, Seq<char>>) -> bool {
    forall|i: int| 0 <= i < readings.len() ==> (#[trigger] readings[i]).flags == flags
}

/// The half of the cutover after the decision is recorded. An automation that appeared meanwhile
/// fails it by name, with nothing retired.
pub fn reverify_and_retire<
    M: MappingRepository,
    L: FeatureFlagRepository,
    F: Fn() -> Result<Vec<CronAutomationRecord>, TransferError>,
>(
    transfer: &mut CronAutomationTransfer<M>,
    ledger: &L,
    reader: &mut ActiveReader<F>,
    now_unix_seconds: u64,
) -> (r: Result<usize, EnableError>)
    requires
        old(transfer).mappings.ready(),
        old(reader).ready(),
    ensures
        final(transfer).mappings.ready(),
        final(transfer).mappings.fallible() == old(transfer).mappings.fallible(),
        final(reader).ready(),
        final(reader).source() == old(reader).source(),
        old(reader).seen().is_prefix_of(final(reader).seen()),
        taken_under(readings_since(old(reader).seen(), final(reader).seen()), ledger.flags()),
        retire_result(
            old(transfer).mappings.mappings(),
            readings_since(old(reader).seen(), final(reader).seen()),
            now_unix_seconds,
            old(transfer).mappings.fallible(),
            r,
            final(transfer).mappings.mappings(),
        ),
{
    let ghost before = transfer.mappings.mappings();
    let ghost earlier = reader.seen();
    let checked: Vec<CronAutomationRecord> = match reader.read(ledger) {
        Ok(checked) => checked,
        Err(error) => {
            assert(readings_since(earlier, reader.seen()) =~= seq![reader.seen().last()]);
            return Err(EnableError::Stranded(error));
        },
    };
    let ghost first = reader.seen().last();
    assert(readings_since(earlier, reader.seen()) =~= seq![first]);
    match transfer.verify_enable_ready(&checked) {
        Ok(_) => {},
        Err(error) => {
            return Err(EnableError::Stranded(error));
        },
    }
    let active: Vec<CronAutomationRecord> = match reader.read(ledger) {
        Ok(active) => active,
        Err(error) => {
            assert(readings_since(earlier, reader.seen()) =~= seq![first, reader.seen().last()]);
            return Err(EnableError::Transfer(error));
        },
    };
    let ghost second = reader.seen().last();
    assert(readings_since(earlier, reader.seen()) =~= seq![first, second]);
    let mut i: usize = 0;
    while i < active.len()
        invariant
            i <= active@.len(),
            transfer.mappings.ready(),
            transfer.mappings.fallible() == old(transfer).mappings.fallible(),
            before == old(transfer).mappings.mappings(),
            earlier == old(reader).seen(),
            reader.ready(),
            reader.source() == old(reader).source(),
            earlier.is_prefix_of(reader.seen()),
            first.flags == ledger.flags(),
            second.flags == ledger.flags(),
            second.outcome == Ok::<Vec<CronAutomationRecord>, TransferError>(active),
            is_verified(before, first),
            readings_since(earlier, reader.seen()) == seq![first, second],
            transfer.mappings.mappings() == retired_all(
                before,
                active@,
                now_unix_seconds,
                i as nat,
            ),
        decreases active@.len() - i,
    {
        match transfer.mark_retired_at(&active[i].id, now_unix_seconds) {
            Ok(_) => {},
            Err(error) => {
                assert(is_retired_up_to(
                    before,
                    active@,
                    now_unix_seconds,
                    i as nat,
                    transfer.mappings.mappings(),
                ));
                let ghost readings = readings_since(earlier, reader.seen());
                assert(readings[1].outcome is Ok && readings[1].outcome->Ok_0 == active);
                let outcome: Result<usize, EnableError> = Err(EnableError::Transfer(error));
                assert(retire_result(
                    before,
                    readings,
                    now_unix_seconds,
                    old(transfer).mappings.fallible(),
                    outcome,
                    transfer.mappings.mappings(),
                ));
                return outcome;
            },
        }
        i = i + 1;
    }
    Ok(active.len())
}

/// What comes of the cutover. The first reading is taken before any flag moves, and nothing moves
/// unless it is verified; the owner is recorded before the handover, so that a stop between the two
/// leaves the cutover undecided. The readings that are verified again and retired are taken after
/// the decision is recorded.
pub open spec fn enable_result(
    mappings: Map<Seq<char>, Mapping>,
    flags: Map<Seq<char>, Seq<char>>,
    readings: Seq<Reading>,
    owner: Seq<char>,
    now: u64,
    fallible: bool,
    r: Result<usize, EnableError>,
    mappings_after: Map<Seq<char>, Mapping>,
    flags_after: Map<Seq<char>, Seq<char>>,
) -> bool {
    let owned = recorded(flags, SCHEDULE_OWNER_FLAG@, owner);
    let decided = recorded(owned, CONTROL_PLANE_ENABLED_FLAG@, "true"@);
    &&& readings.len() > 0
    &&& readings[0].flags == flags
    &&& if readings.len() > 1 {
        &&& is_verified(mappings, readings[0])
        &&& owned[SCHEDULE_OWNER_FLAG@] == owner
        &&& decided[CONTROL_PLANE_ENABLED_FLAG@] == "true"@
        &&& flags_after == decided
        &&& taken_under(readings.skip(1), decided)
        &&& retire_result(mappings, readings.skip(1), now, fallible, r, mappings_after)
    } else {
        &&& mappings_after == mappings
        &&& match r {
            Ok(_) => false,
            Err(EnableError::Stranded(_)) => false,
            Err(EnableError::Transfer(error)) => {
                &&& flags_after == flags
                &&& unverified(mappings, readings[0], fallible, error)
            },
            Err(error) => {
                &&& is_verified(mappings, readings[0])
                &&& {
                    ||| record_result(flags, SCHEDULE_OWNER_FLAG@, owner, Err(error), flags_after)
                    ||| {
                        &&& owned[SCHEDULE_OWNER_FLAG@] == owner
                        &&& record_result(
                            owned,
                            CONTROL_PLANE_ENABLED_FLAG@,
                            "true"@,
                            Err(error),
                            flags_after,
                        )
                    }
                }
            },
        }
    }
}

/// Cuts the schedule over to an owner and tells how many automations were retired.
pub fn enable_schedule<
    M: MappingRepository,
    L: FeatureFlagRepository,
    F: Fn() -> Result<Vec<CronAutomationRecord>, TransferError>,
>(
    transfer: &mut CronAutomationTransfer<M>,
    ledger: &mut L,
    reader: &mut ActiveReader<F>,
    owner: &str,
    now_unix_seconds: u64,
) -> (r: Result<usize, EnableError>)
    requires
        old(transfer).mappings.ready(),
        old(ledger).ready(),
        old(reader).ready(),
    ensures
        final(transfer).mappings.ready(),
        final(ledger).ready(),
        final(reader).ready(),
        final(reader).source() == old(reader).source(),
        old(reader).seen().is_prefix_of(final(reader).seen()),
        enable_result(
            old(transfer).mappings.mappings(),
            old(ledger).flags(),
            readings_since(old(reader).seen(), final(reader).seen()),
            owner@,
            now_unix_seconds,
            old(transfer).mappings.fallible(),
            r,
            final(transfer).mappings.mappings(),
            final(ledger).flags(),
        ),
        r matches Err(EnableError::Flag(FeatureFlagError::Internal { .. })) ==> old(
            ledger,
        ).fallible(),
{
    let ghost earlier = reader.seen();
    let active: Vec<CronAutomationRecord> = match reader.read(ledger) {
        Ok(active) => active,
        Err(error) => {
            assert(readings_since(earlier, reader.seen()) =~= seq![reader.seen().last()]);
            return Err(EnableError::Transfer(error));
        },
    };
    let ghost first = reader.seen().last();
    assert(readings_since(earlier, reader.seen()) =~= seq![first]);
    match transfer.verify_enable_ready(&active) {
        Ok(_) => {},
        Err(error) => {
            return Err(EnableError::Transfer(error));
        },
    }
    match record_flag(ledger, SCHEDULE_OWNER_FLAG, owner) {
        Ok(_) => {},
        Err(error) => {
            return Err(error);
        },
    }
    match record_flag(ledger, CONTROL_PLANE_ENABLED_FLAG, "true") {
        Ok(_) => {},
        Err(error) => {
            return Err(error);
        },
    }
    let ghost before_decision = reader.seen();
    let outcome: Result<usize, EnableError> = reverify_and_retire(
        transfer,
        ledger,
        reader,
        now_unix_seconds,
    );
    proof {
        let readings = readings_since(earlier, reader.seen());
        assert(readings.skip(1) =~= readings_since(before_decision, reader.seen()));
        assert(readings[0] == first);
    }
    outcome
}

/// What a snapshot counted, in words.
pub fn snapshot_summary(report: &SnapshotReport) -> (r: String)
    ensures
        r@ == "active automations: "@ + text::decimal(report.total_active as nat)
            + " (newly mapped "@ + text::decimal(report.newly_mapped as nat) + ", already mapped "@
            + text::decimal(report.already_mapped as nat) + ", incompatible "@ + text::decimal(
            report.incompatible as nat,
        ) + ")"@,
{
    let total: String = text::numeral(report.total_active as u64);
    let mapped: String = text::numeral(report.newly_mapped as u64);
    let already: String = text::numeral(report.already_mapped as u64);
    let incompatible: String = text::numeral(report.incompatible as u64);
    let mut out: String = text::joined("active automations: ", &total);
    out.append(" (newly mapped ");
    out.append(&mapped);
    out.append(", already mapped ");
    out.append(&already);
    out.append(", incompatible ");
    out.append(&incompatible);
    out.append(")");
    out
}

/// What the cutover did, in words.
pub fn enable_summary(owner: &str, retired: usize) -> (r: String)
    ensures
        r@ == "canonical scheduling enabled with owner "@ + outside::debug_quoted(owner@) + "; "@
            + text::decimal(retired as nat) + " legacy row(s) retired"@,
{
    let quoted: String = outside::debug_quote(owner);
    let count: String = text::numeral(retired as u64);
    let mut out: String = text::joined("canonical scheduling enabled with owner ", &quoted);
    out.append("; ");
    out.append(&count);
    out.append(" legacy row(s) retired");
    out
}

/// What to do where an automation appeared after the decision was recorded.
pub open spec fn advice_words(owner: Seq<char>) -> Seq<char> {
    "the ledger flags are already recorded (owner="@ + outside::debug_quoted(owner)
        + ", control_plane_enabled=true); the automation(s) above can neither fire nor transfer until they are snapshotted: re-run `schedule snapshot` (idempotent), then `schedule enable`"@
}

/// What to do where an automation appeared after the decision was recorded.
pub fn stranded_advice(owner: &str) -> (r: String)
    ensures
        r@ == advice_words(owner@),
{
    let quoted: String = outside::debug_quote(owner);
    let mut out: String = text::joined(
        "the ledger flags are already recorded (owner=",
        &quoted,
    );
    out.append(
        ", control_plane_enabled=true); the automation(s) above can neither fire nor transfer until they are snapshotted: re-run `schedule snapshot` (idempotent), then `schedule enable`",
    );
    out
}

/// The advice that a cutover leaves: some where it is stranded, none otherwise.
pub fn advice_after(outcome: &Result<usize, EnableError>, owner: &str) -> (r: Option<String>)
    ensures
        match r {
            Some(advice) => {
                &&& *outcome matches Err(EnableError::Stranded(_))
                &&& advice@ == advice_words(owner@)
            },
            None => !(*outcome matches Err(EnableError::Stranded(_))),
        },
{
    match outcome {
        Err(EnableError::Stranded(_)) => Some(stranded_advice(owner)),
        _ => None,
    }
}

/// The state of an automation's transfer, in words.
pub fn status_line(
    automation_id: &str,
    enabled: bool,
    disposition: Option<&str>,
    is_retired: bool,
) -> (r: String)
    ensures
        r@ == "automation "@ + automation_id@ + " enabled="@ + (if enabled {
            "true"@
        } else {
            "false"@
        }) + " disposition="@ + (match disposition {
            Some(disposition) => disposition@,
            None => "unmapped"@,
        }) + " retired="@ + (if is_retired {
            "true"@
        } else {
            "false"@
        }),
{
    let mut out: String = text::joined("automation ", automation_id);
    out.append(" enabled=");
    out.append(
        if enabled {
            "true"
        } else {
            "false"
        },
    );
    out.append(" disposition=");
    out.append(
        match disposition {
            Some(disposition) => disposition,
            None => "unmapped",
        },
    );
    out.append(" retired=");
    out.append(
        if is_retired {
            "true"
        } else {
            "false"
        },
    );
    out
}

/// No flag moves while an automation blocks the cutover: where the first reading of the active
/// automations fails or finds one that is not mapped or not compatible, the cutover is refused, no
/// other reading is taken, and every flag and every mapping stays as it was.
pub proof fn law_blocked_cutover_moves_no_flag(
    mappings: Map<Seq<char>, Mapping>,
    flags: Map<Seq<char>, Seq<char>>,
    readings: Seq<Reading>,
    owner: Seq<char>,
    now: u64,
    fallible: bool,
    r: Result<usize, EnableError>,
    mappings_after: Map<Seq<char>, Mapping>,
    flags_after: Map<Seq<char>, Seq<char>>,
)
    requires
        enable_result(
            mappings,
            flags,
            readings,
            owner,
            now,
            fallible,
            r,
            mappings_after,
            flags_after,
        ),
        !is_verified(mappings, readings[0]),
    ensures
        r matches Err(EnableError::Transfer(error)) && unverified(
            mappings,
            readings[0],
            fallible,
            error,
        ),
        readings.len() == 1,
        mappings_after == mappings,
        flags_after == flags,
{
}

/// What is retired was read and verified under the decision: a cutover that succeeds read the active
/// automations twice after both flags were recorded, verified what the first of the two found, and
/// retired all that the second found.
pub proof fn law_retirement_follows_the_decision(
    mappings: Map<Seq<char>, Mapping>,
    flags: Map<Seq<char>, Seq<char>>,
    readings: Seq<Reading>,
    owner: Seq<char>,
    now: u64,
    fallible: bool,
    r: Result<usize, EnableError>,
    mappings_after: Map<Seq<char>, Mapping>,
    flags_after: Map<Seq<char>, Seq<char>>,
)
    requires
        enable_result(
            mappings,
            flags,
            readings,
            owner,
            now,
            fallible,
            r,
            mappings_after,
            flags_after,
        ),
        r is Ok,
    ensures
        readings.len() == 3,
        is_verified(mappings, readings[0]),
        readings[0].flags == flags,
        is_verified(mappings, readings[1]),
        readings[1].flags == flags_after,
        readings[2].flags == flags_after,
        readings[2].outcome matches Ok(active) && r == Ok::<usize, EnableError>(
            active@.len() as usize,
        ) && mappings_after == retired_all(mappings, active@, now, active@.len()),
{
    assert(readings.skip(1)[0] == readings[1]);
    assert(readings.skip(1)[1] == readings[2]);
}

/// An automation that appears after the decision strands the cutover: where the reading under the
/// decision is not verified, the error says so, both flags are recorded, and nothing is retired.
pub proof fn law_newcomer_strands_the_cutover(
    mappings: Map<Seq<char>, Mapping>,
    flags: Map<Seq<char>, Seq<char>>,
    readings: Seq<Reading>,
    owner: Seq<char>,
    now: u64,
    fallible: bool,
    r: Result<usize, EnableError>,
    mappings_after: Map<Seq<char>, Mapping>,
    flags_after: Map<Seq<char>, Seq<char>>,
)
    requires
        enable_result(
            mappings,
            flags,
            readings,
            owner,
            now,
            fallible,
            r,
            mappings_after,
            flags_after,
        ),
        readings.len() > 1,
        !is_verified(mappings, readings[1]),
    ensures
        r matches Err(EnableError::Stranded(error)) && unverified(
            mappings,
            readings[1],
            fallible,
            error,
        ),
        flags_after.contains_key(SCHEDULE_OWNER_FLAG@),
        flags_after[SCHEDULE_OWNER_FLAG@] == owner,
        flags_after.contains_key(CONTROL_PLANE_ENABLED_FLAG@),
        flags_after[CONTROL_PLANE_ENABLED_FLAG@] == "true"@,
        mappings_after == mappings,
{
    lemma_keys_differ();
    assert(readings.skip(1)[0] == readings[1]);
}

/// The two flags of the cutover have different keys.
proof fn lemma_keys_differ()
    ensures
        SCHEDULE_OWNER_FLAG@ != CONTROL_PLANE_ENABLED_FLAG@,
{
    reveal_strlit("schedule_owner");
    reveal_strlit("control_plane_enabled");
    assert("schedule_owner"@.len() != "control_plane_enabled"@.len());
}

/// The first recorded decision stands: the cutover never changes a recorded flag.
pub proof fn law_cutover_keeps_recorded_flags(
    mappings: Map<Seq<char>, Mapping>,
    flags: Map<Seq<char>, Seq<char>>,
    readings: Seq<Reading>,
    owner: Seq<char>,
    now: u64,
    fallible: bool,
    r: Result<usize, EnableError>,
    mappings_after: Map<Seq<char>, Mapping>,
    flags_after: Map<Seq<char>, Seq<char>>,
    key: Seq<char>,
)
    requires
        enable_result(
            mappings,
            flags,
            readings,
            owner,
            now,
            fallible,
            r,
            mappings_after,
            flags_after,
        ),
        flags.contains_key(key),
    ensures
        flags_after.contains_key(key),
        flags_after[key] == flags[key],
{
}

/// A decided cutover names its owner: whenever the handover is recorded that was not recorded
/// before, the owner is recorded too.
pub proof fn law_owner_is_recorded_before_the_handover(
    mappings: Map<Seq<char>, Mapping>,
    flags: Map<Seq<char>, Seq<char>>,
    readings: Seq<Reading>,
    owner: Seq<char>,
    now: u64,
    fallible: bool,
    r: Result<usize, EnableError>,
    mappings_after: Map<Seq<char>, Mapping>,
    flags_after: Map<Seq<char>, Seq<char>>,
)
    requires
        enable_result(
            mappings,
            flags,
            readings,
            owner,
            now,
            fallible,
            r,
            mappings_after,
            flags_after,
        ),
        !flags.contains_key(CONTROL_PLANE_ENABLED_FLAG@),
        flags_after.contains_key(CONTROL_PLANE_ENABLED_FLAG@),
    ensures
        flags_after.contains_key(SCHEDULE_OWNER_FLAG@),
        flags_after[SCHEDULE_OWNER_FLAG@] == owner,
{
    lemma_keys_differ();
}

/// The flag is not recorded, or recorded with this value.
pub open spec fn admits(
    flags: Map<Seq<char>, Seq<char>>,
    key: Seq<char>,
    value: Seq<char>,
) -> bool {
    flags.contains_key(key) ==> flags[key] == value
}

/// The flags of a cutover are acceptable.
proof fn lemma_flags_are_sound(owner: Seq<char>)
    requires
        is_owner(owner),
    ensures
        crate::feature_flag_repository::flag_fault(SCHEDULE_OWNER_FLAG@, owner) is None,
        crate::feature_flag_repository::flag_fault(CONTROL_PLANE_ENABLED_FLAG@, "true"@) is None,
{
    reveal_strlit("schedule_owner");
    reveal_strlit("control_plane_enabled");
    reveal_strlit("true");
    reveal_strlit("daemon");
    reveal_strlit("desktop_host");
    assert(!text::is_white_space(SCHEDULE_OWNER_FLAG@[0]));
    assert(!text::is_white_space(CONTROL_PLANE_ENABLED_FLAG@[0]));
}

/// A cutover can be repeated until it completes: where every reading of the active automations finds
/// all of them mapped and compatible, the recorded flags are those of this cutover or none, and no
/// store fails, it succeeds, and both flags are recorded.
pub proof fn law_repeated_cutover_completes(
    mappings: Map<Seq<char>, Mapping>,
    flags: Map<Seq<char>, Seq<char>>,
    readings: Seq<Reading>,
    owner: Seq<char>,
    now: u64,
    fallible: bool,
    r: Result<usize, EnableError>,
    mappings_after: Map<Seq<char>, Mapping>,
    flags_after: Map<Seq<char>, Seq<char>>,
)
    requires
        enable_result(
            mappings,
            flags,
            readings,
            owner,
            now,
            fallible,
            r,
            mappings_after,
            flags_after,
        ),
        forall|i: int|
            0 <= i < readings.len() ==> is_verified(mappings, #[trigger] readings[i]),
        is_owner(owner),
        admits(flags, SCHEDULE_OWNER_FLAG@, owner),
        admits(flags, CONTROL_PLANE_ENABLED_FLAG@, "true"@),
        !fallible,
        !(r matches Err(EnableError::Flag(FeatureFlagError::Internal { .. }))),
    ensures
        r is Ok,
        flags_after.contains_key(SCHEDULE_OWNER_FLAG@),
        flags_after[SCHEDULE_OWNER_FLAG@] == owner,
        flags_after.contains_key(CONTROL_PLANE_ENABLED_FLAG@),
        flags_after[CONTROL_PLANE_ENABLED_FLAG@] == "true"@,
{
    lemma_keys_differ();
    lemma_flags_are_sound(owner);
    assert(is_verified(mappings, readings[0]));
    if readings.len() > 1 {
        assert(readings.skip(1)[0] == readings[1]);
    }
    if readings.len() > 2 {
        assert(readings.skip(1)[1] == readings[2]);
    }
}

} // verus!
