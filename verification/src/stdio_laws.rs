//! What the stdio host accepts, shows and changes, said of the texts and the jobs themselves.
use vstd::prelude::*;
use vstd::string::*;
use crate::stdio_host::{
    AutomationPayload, AutomationUpdate, NotificationChange, NotificationRow, ScheduleKind,
    ScheduledJob, ServiceSource, StdioAutomation, TranscriptMessage,
};
use crate::text;

verus! {

/// A text holds something but white space.
pub open spec fn says_something(all: Seq<char>) -> bool {
    exists|i: int| 0 <= i < all.len() && !text::is_white_space(#[trigger] all[i])
}

/// How many bytes a text has.
pub open spec fn bytes_of(all: Seq<char>) -> nat {
    vstd::utf8::encode_utf8(all).len()
}

/// A message is the user's.
pub open spec fn is_users() -> spec_fn(TranscriptMessage) -> bool {
    |message: TranscriptMessage| message.from_user
}

/// The turns of the user are the messages that are the user's.
pub proof fn law_turns_are_the_users_messages(messages: Seq<TranscriptMessage>)
    ensures
        crate::stdio_host::user_turns(messages) == messages.filter(is_users()).len(),
    decreases messages.len(),
{
    reveal(Seq::filter);
    if messages.len() > 0 {
        law_turns_are_the_users_messages(messages.drop_last());
    }
}

/// The latest prompt is the text of the last message that is the user's; a replacement goes before
/// it, and without either there is none.
pub proof fn law_retry_takes_the_last_prompt(
    messages: Seq<TranscriptMessage>,
    replacement: Option<String>,
    at: int,
)
    requires
        -1 <= at < messages.len(),
        at >= 0 ==> messages[at].from_user,
        forall|i: int| at < i < messages.len() ==> !(#[trigger] messages[i]).from_user,
    ensures
        replacement is Some ==> crate::stdio_host::retry_prompt(messages, replacement)
            == replacement,
        replacement is None && at >= 0 ==> crate::stdio_host::retry_prompt(messages, replacement)
            == messages[at].text,
        replacement is None && at == -1 ==> crate::stdio_host::retry_prompt(
            messages,
            replacement,
        ) is None,
    decreases messages.len(),
{
    if messages.len() > 0 && at < messages.len() - 1 {
        assert(!messages[messages.len() - 1].from_user);
        let shorter = messages.drop_last();
        assert forall|i: int| at < i < shorter.len() implies !(
        #[trigger] shorter[i]).from_user by {
            assert(shorter[i] == messages[i]);
        }
        law_retry_takes_the_last_prompt(shorter, replacement, at);
    }
}

/// A name is bounded exactly where it says something and has no more bytes than the limit.
pub proof fn law_bounded_names(name: Seq<char>, limit: int)
    ensures
        crate::stdio_host::is_bounded_name(name, limit) <==> says_something(name) && bytes_of(name)
            <= limit,
{
}

/// A notification of the stdio channel is changed as it was asked, by its own name: resolved or
/// marked as seen. A name of more than 512 bytes or of white space is not valid, and a notification
/// of another channel is not found.
pub proof fn law_notifications_are_changed_by_name(
    id: Seq<char>,
    resolve: bool,
    rows: Seq<NotificationRow>,
    r: Result<NotificationChange, String>,
)
    requires
        crate::stdio_host::change_result(id, resolve, rows, r),
    ensures
        ({
            let valid = says_something(id) && bytes_of(id) <= 512;
            let there = exists|i: int|
                0 <= i < rows.len() && (#[trigger] rows[i]).notification_id@ == id
                    && rows[i].channel@ == "stdio"@;
            &&& r is Ok <==> valid && there
            &&& !valid ==> r->Err_0@ == "invalid_notification_id"@
            &&& valid && !there ==> r->Err_0@ == "notification_not_found"@
            &&& r is Ok && resolve ==> (r->Ok_0 matches NotificationChange::Resolve {
                notification_id,
            } && notification_id@ == id)
            &&& r is Ok && !resolve ==> (r->Ok_0 matches NotificationChange::MarkSeen {
                notification_id,
            } && notification_id@ == id)
        }),
{
}

/// The named roots are the given ones without the empty ones, each as it is.
pub proof fn law_named_roots_are_not_empty(roots: Seq<Seq<char>>, root: Seq<char>)
    ensures
        crate::stdio_host::named_roots(roots).contains(root) <==> roots.contains(root) && root.len()
            > 0,
{
    let keep = |root: Seq<char>| root.len() > 0;
    let named = roots.filter(keep);
    assert(named == crate::stdio_host::named_roots(roots));
    if named.contains(root) {
        roots.lemma_filter_contains_rev(keep, root);
        lemma_filtered_satisfies(roots, keep, root);
    }
    if roots.contains(root) && root.len() > 0 {
        let i = choose|i: int| 0 <= i < roots.len() && roots[i] == root;
        roots.lemma_filter_contains(keep, i);
    }
}

/// What a filter keeps satisfies it.
proof fn lemma_filtered_satisfies(
    all: Seq<Seq<char>>,
    keep: spec_fn(Seq<char>) -> bool,
    item: Seq<char>,
)
    requires
        all.filter(keep).contains(item),
    ensures
        keep(item),
    decreases all.len(),
{
    reveal(Seq::filter);
    if all.len() > 0 {
        let shorter = all.drop_last();
        let i = choose|i: int| 0 <= i < all.filter(keep).len() && all.filter(keep)[i] == item;
        if i < shorter.filter(keep).len() {
            assert(shorter.filter(keep)[i] == item);
            lemma_filtered_satisfies(shorter, keep, item);
        }
    }
}

/// An automation's name begins with its six characters and has at most 512 bytes.
pub proof fn law_automation_names(id: Seq<char>)
    ensures
        crate::stdio_host::is_automation_id(id) <==> {
            &&& id.len() >= 6
            &&& id[0] == 'a' && id[1] == 'l' && id[2] == 't' && id[3] == 'a' && id[4] == 'i'
                && id[5] == ':'
            &&& bytes_of(id) <= 512
        },
{
    lemma_prefix(id);
}

/// To begin with the prefix is to have its six characters.
proof fn lemma_prefix(id: Seq<char>)
    ensures
        text::begins_with(id, "altai:"@) <==> id.len() >= 6 && id[0] == 'a' && id[1] == 'l' && id[2]
            == 't' && id[3] == 'a' && id[4] == 'i' && id[5] == ':',
{
    reveal_strlit("altai:");
    let prefix = "altai:"@;
    assert(prefix.len() == 6);
    if text::begins_with(id, prefix) {
        assert(id.subrange(0, 6) == prefix);
        assert(id.subrange(0, 6)[0] == id[0]);
        assert(id.subrange(0, 6)[1] == id[1]);
        assert(id.subrange(0, 6)[2] == id[2]);
        assert(id.subrange(0, 6)[3] == id[3]);
        assert(id.subrange(0, 6)[4] == id[4]);
        assert(id.subrange(0, 6)[5] == id[5]);
    }
    if id.len() >= 6 && id[0] == 'a' && id[1] == 'l' && id[2] == 't' && id[3] == 'a' && id[4] == 'i'
        && id[5] == ':' {
        assert(id.subrange(0, 6) =~= prefix);
    }
}

/// A chat can be addressed exactly where its name says something, has at most 256 bytes and holds no
/// colon.
pub proof fn law_automation_chats(chat_id: Seq<char>)
    ensures
        crate::stdio_host::is_automation_chat(chat_id) <==> says_something(chat_id) && bytes_of(
            chat_id,
        ) <= 256 && forall|i: int| 0 <= i < chat_id.len() ==> #[trigger] chat_id[i] != ':',
{
    if !chat_id.contains(':') {
        assert forall|i: int| 0 <= i < chat_id.len() implies #[trigger] chat_id[i] != ':' by {
            assert(chat_id.contains(chat_id[i]));
        }
    }
}

/// A text is accepted within a limit exactly where it says something and what is left of it without
/// white space at its ends has no more bytes than the limit.
pub proof fn law_bounded_texts(given: Seq<char>, limit: int)
    ensures
        crate::stdio_host::is_bounded_text(given, limit) <==> says_something(given) && bytes_of(
            text::trimmed(given),
        ) <= limit,
{
    let (from, to) = crate::text_laws::law_trimming_cuts_white_space_only(given);
    if says_something(given) {
        let i = choose|i: int| 0 <= i < given.len() && !text::is_white_space(#[trigger] given[i]);
        assert(from <= i < to);
    }
    if text::trimmed(given).len() > 0 {
        assert(given[from] == text::trimmed(given)[0]);
    }
}

/// A point in time is accepted where it lies after now, an interval where it is from one minute to
/// 366 days, and a cron expression never. Each is refused in its own words.
pub proof fn law_schedules_are_accepted_within_bounds(schedule: ScheduleKind, now_ms: i64)
    ensures
        ({
            let fault = crate::stdio_host::schedule_fault(schedule, now_ms);
            &&& schedule matches ScheduleKind::At { at_ms } ==> {
                &&& fault is None <==> at_ms > now_ms
                &&& at_ms <= now_ms ==> fault == Some("automation_schedule_must_be_future"@)
            }
            &&& schedule matches ScheduleKind::Every { every_ms } ==> {
                &&& fault is None <==> 60_000 <= every_ms <= 31_622_400_000
                &&& every_ms < 60_000 ==> fault == Some("automation_interval_too_short"@)
                &&& every_ms > 31_622_400_000 ==> fault == Some("automation_interval_too_long"@)
            }
            &&& schedule is Cron ==> fault == Some("automation_cron_not_supported"@)
        }),
{
}

/// A payload is an automation's exactly where it is marked with one and both its texts say
/// something.
pub proof fn law_automation_payloads(payload: AutomationPayload)
    ensures
        crate::stdio_host::is_automation(payload) <==> payload.altai_automation == 1
            && says_something(payload.title@) && says_something(payload.prompt@),
{
}

/// A job is an automation of the stdio channel.
pub open spec fn is_own(job: ScheduledJob) -> bool {
    &&& job.channel@ == "stdio"@
    &&& job.id@.len() >= 6
    &&& job.id@[0] == 'a' && job.id@[1] == 'l' && job.id@[2] == 't' && job.id@[3] == 'a'
        && job.id@[4] == 'i' && job.id@[5] == ':'
}

/// An automation shows a job: its name, chat, schedule and flag, and the title and the instruction
/// of its payload; where there is no such payload, its message for both.
pub open spec fn is_view_of(shown: StdioAutomation, job: ScheduledJob) -> bool {
    &&& shown.id == job.id
    &&& shown.chat_id == job.chat_id
    &&& shown.schedule == job.schedule
    &&& shown.enabled == job.enabled
    &&& if job.payload is Some && job.payload->0.altai_automation == 1 && says_something(
        job.payload->0.title@,
    ) && says_something(job.payload->0.prompt@) {
        shown.title == job.payload->0.title && shown.prompt == job.payload->0.prompt
    } else {
        shown.title == job.message && shown.prompt == job.message
    }
}

/// The positions of the automations are those of the stdio channel's own jobs: all of them, in
/// order.
proof fn lemma_positions(jobs: Seq<ScheduledJob>)
    ensures
        forall|k: int|
            0 <= k < crate::stdio_host::automation_positions(jobs).len() ==> {
                let at = #[trigger] crate::stdio_host::automation_positions(jobs)[k];
                0 <= at < jobs.len() && is_own(jobs[at])
            },
        forall|at: int|
            0 <= at < jobs.len() && is_own(#[trigger] jobs[at])
                ==> crate::stdio_host::automation_positions(jobs).contains(at),
        forall|i: int, j: int|
            0 <= i < j < crate::stdio_host::automation_positions(jobs).len() ==> (
            #[trigger] crate::stdio_host::automation_positions(jobs)[i]) < (
            #[trigger] crate::stdio_host::automation_positions(jobs)[j]),
    decreases jobs.len(),
{
    let positions = crate::stdio_host::automation_positions(jobs);
    if jobs.len() > 0 {
        let shorter = jobs.drop_last();
        let earlier = crate::stdio_host::automation_positions(shorter);
        lemma_positions(shorter);
        lemma_prefix(jobs.last().id@);
        assert forall|k: int| 0 <= k < positions.len() implies {
            let at = #[trigger] positions[k];
            0 <= at < jobs.len() && is_own(jobs[at])
        } by {
            if k < earlier.len() {
                assert(positions[k] == earlier[k]);
                assert(shorter[earlier[k]] == jobs[earlier[k]]);
            }
        }
        assert forall|at: int| 0 <= at < jobs.len() && is_own(#[trigger] jobs[at]) implies
            positions.contains(at) by {
            if at < shorter.len() {
                assert(shorter[at] == jobs[at]);
                assert(earlier.contains(at));
                let k = choose|k: int| 0 <= k < earlier.len() && earlier[k] == at;
                assert(positions[k] == at);
            } else {
                assert(positions[positions.len() - 1] == at);
            }
        }
        assert forall|i: int, j: int| 0 <= i < j < positions.len() implies (
        #[trigger] positions[i]) < (#[trigger] positions[j]) by {
            assert(positions[i] == earlier[i]);
            assert(0 <= earlier[i] < shorter.len());
            if j < earlier.len() {
                assert(positions[j] == earlier[j]);
            }
        }
    }
}

/// A job is shown somewhere in the list.
pub open spec fn is_shown(list: Seq<StdioAutomation>, job: ScheduledJob) -> bool {
    exists|i: int| 0 <= i < list.len() && is_view_of(#[trigger] list[i], job)
}

/// A list shows an own job of the channel at the place.
pub open spec fn shows_own(shown: StdioAutomation, jobs: Seq<ScheduledJob>) -> bool {
    exists|k: int| 0 <= k < jobs.len() && is_own(#[trigger] jobs[k]) && is_view_of(shown, jobs[k])
}

/// The list of automations shows every one of the stdio channel's own jobs and nothing else, by
/// name.
pub proof fn law_list_shows_every_own_job(list: Seq<StdioAutomation>, jobs: Seq<ScheduledJob>)
    requires
        crate::stdio_host::is_automation_list(list, jobs),
    ensures
        forall|k: int|
            0 <= k < jobs.len() && is_own(#[trigger] jobs[k]) ==> is_shown(list, jobs[k]),
        forall|i: int| 0 <= i < list.len() ==> shows_own(#[trigger] list[i], jobs),
        forall|i: int, j: int|
            0 <= i < j < list.len() ==> (#[trigger] list[i]).id@ == (#[trigger] list[j]).id@
                || text::lt(list[i].id@, list[j].id@),
        list.len() == crate::stdio_host::automation_positions(jobs).len(),
{
    lemma_positions(jobs);
    let positions = crate::stdio_host::automation_positions(jobs);
    let order = choose|order: Seq<usize>|
        {
            &&& order.len() == positions.len()
            &&& list.len() == order.len()
            &&& forall|i: int| 0 <= i < order.len() ==> (#[trigger] order[i]) < positions.len()
            &&& forall|i: int, j: int|
                0 <= i < j < order.len() ==> crate::stdio_host::name_precedes(
                    jobs,
                    positions,
                    (#[trigger] order[i]) as int,
                    (#[trigger] order[j]) as int,
                )
            &&& forall|i: int|
                0 <= i < order.len() ==> crate::stdio_host::shows(
                    #[trigger] list[i],
                    jobs[positions[order[i] as int]],
                )
        };
    assert forall|i: int| 0 <= i < list.len() implies shows_own(#[trigger] list[i], jobs) by {
        let at = positions[order[i] as int];
        assert(crate::stdio_host::shows(list[i], jobs[at]));
        assert(is_own(jobs[at]));
        lemma_views(list[i], jobs[at]);
    }
    assert forall|i: int, j: int| 0 <= i < j < list.len() implies (#[trigger] list[i]).id@ == (
    #[trigger] list[j]).id@ || text::lt(list[i].id@, list[j].id@) by {
        assert(crate::stdio_host::name_precedes(jobs, positions, order[i] as int, order[j] as int));
        assert(crate::stdio_host::shows(list[i], jobs[positions[order[i] as int]]));
        assert(crate::stdio_host::shows(list[j], jobs[positions[order[j] as int]]));
    }
    let places = order.map_values(|at: usize| at as int);
    assert(places.no_duplicates()) by {
        assert forall|a: int, b: int|
            0 <= a < places.len() && 0 <= b < places.len() && a != b implies places[a]
            != places[b] by {
            let (x, y) = if a < b {
                (a, b)
            } else {
                (b, a)
            };
            assert(crate::stdio_host::name_precedes(
                jobs,
                positions,
                order[x] as int,
                order[y] as int,
            ));
            text::law_order_irreflexive(jobs[positions[order[x] as int]].id@);
        }
    }
    assert forall|k: int| 0 <= k < jobs.len() && is_own(#[trigger] jobs[k]) implies is_shown(
        list,
        jobs[k],
    ) by {
        assert(positions.contains(k));
        let p = choose|p: int| 0 <= p < positions.len() && positions[p] == k;
        assert forall|a: int| 0 <= a < places.len() implies 0 <= #[trigger] places[a]
            < places.len() by {
            assert(order[a] < positions.len());
        }
        lemma_places_cover(places, p);
        let a = choose|a: int| 0 <= a < places.len() && places[a] == p;
        assert(crate::stdio_host::shows(list[a], jobs[positions[order[a] as int]]));
        lemma_views(list[a], jobs[k]);
        assert(is_view_of(list[a], jobs[k]));
    }
}

/// As many different places as there are leave none out.
proof fn lemma_places_cover(places: Seq<int>, p: int)
    requires
        places.no_duplicates(),
        forall|a: int| 0 <= a < places.len() ==> 0 <= #[trigger] places[a] < places.len(),
        0 <= p < places.len(),
    ensures
        places.contains(p),
{
    let range = vstd::set_lib::set_int_range(0, places.len() as int);
    vstd::set_lib::lemma_int_range(0, places.len() as int);
    places.unique_seq_to_set();
    assert(places.to_set().subset_of(range)) by {
        assert forall|x: int| places.to_set().contains(x) implies range.contains(x) by {
            let a = choose|a: int| 0 <= a < places.len() && places[a] == x;
        }
    }
    vstd::set_lib::lemma_subset_equality(places.to_set(), range);
    assert(range.contains(p));
    assert(places.to_set().contains(p));
}

/// What shows a job is a view of it.
proof fn lemma_views(shown: StdioAutomation, job: ScheduledJob)
    ensures
        crate::stdio_host::shows(shown, job) <==> is_view_of(shown, job),
{
}

/// An automation can be created exactly where its chat can be addressed, its title and instruction
/// are within 256 and 10000 bytes and say something, and its schedule is acceptable. The first that
/// is not decides the refusal.
pub proof fn law_creation_is_checked_in_order(
    chat_id: Seq<char>,
    title: Seq<char>,
    prompt: Seq<char>,
    schedule: ScheduleKind,
    now_ms: i64,
)
    ensures
        ({
            let fault = crate::stdio_host::creation_fault(
                chat_id,
                title,
                prompt,
                schedule,
                now_ms,
            );
            let addressed = says_something(chat_id) && bytes_of(chat_id) <= 256
                && !chat_id.contains(':');
            let titled = says_something(title) && bytes_of(text::trimmed(title)) <= 256;
            let instructed = says_something(prompt) && bytes_of(text::trimmed(prompt)) <= 10_000;
            let timely = match schedule {
                ScheduleKind::At { at_ms } => at_ms > now_ms,
                ScheduleKind::Every { every_ms } => 60_000 <= every_ms <= 31_622_400_000,
                ScheduleKind::Cron { .. } => false,
            };
            &&& fault is None <==> addressed && titled && instructed && timely
            &&& !addressed ==> fault == Some("invalid_automation_chat_id"@)
            &&& addressed && !titled ==> fault == Some("invalid_automation_title"@)
            &&& addressed && titled && !instructed ==> fault == Some("invalid_automation_prompt"@)
        }),
{
    law_bounded_texts(title, 256);
    law_bounded_texts(prompt, 10_000);
    law_bounded_names(chat_id, 256);
}

/// A created automation has the name, the chat and the schedule that were given, the title and the
/// instruction without white space at their ends, and is enabled; its job's message is written from
/// those texts.
pub proof fn law_created_automation_is_what_was_given(
    created: StdioAutomation,
    message: Seq<char>,
    id: Seq<char>,
    chat_id: Seq<char>,
    title: Seq<char>,
    prompt: Seq<char>,
    schedule: ScheduleKind,
)
    requires
        crate::stdio_host::is_creation(created, message, id, chat_id, title, prompt, schedule),
    ensures
        created.id@ == id,
        created.chat_id@ == chat_id,
        created.title@ == text::trimmed(title),
        created.prompt@ == text::trimmed(prompt),
        created.schedule == schedule,
        created.enabled == true,
        message == "{\"altai_automation\":1,\"title\":"@ + crate::outside::json_string(
            created.title@,
        ) + ",\"prompt\":"@ + crate::outside::json_string(created.prompt@) + "}"@,
{
}

/// A change leaves what it does not name: the name and the chat always stay, a title, an
/// instruction, a schedule or a flag changes only where one is given, and the texts lose the white
/// space at their ends. The scheduler is sent a message exactly where the title or the instruction
/// changed.
pub proof fn law_change_leaves_what_it_does_not_name(
    updated: StdioAutomation,
    command: AutomationUpdate,
    existing: StdioAutomation,
    title: Option<String>,
    prompt: Option<String>,
    schedule: Option<ScheduleKind>,
    enabled: Option<bool>,
)
    requires
        crate::stdio_host::is_update(
            updated,
            command,
            existing,
            title,
            prompt,
            schedule,
            enabled,
        ),
    ensures
        updated.id == existing.id,
        updated.chat_id == existing.chat_id,
        title is None ==> updated.title@ == existing.title@,
        title is Some ==> updated.title@ == text::trimmed(title->0@),
        prompt is None ==> updated.prompt@ == existing.prompt@,
        prompt is Some ==> updated.prompt@ == text::trimmed(prompt->0@),
        schedule is None ==> updated.schedule == existing.schedule,
        schedule is Some ==> updated.schedule == schedule->0,
        enabled is None ==> updated.enabled == existing.enabled,
        enabled is Some ==> updated.enabled == enabled->0,
        command.id == existing.id,
        command.schedule == schedule,
        command.enabled == enabled,
        command.message is Some <==> updated.title@ != existing.title@ || updated.prompt@
            != existing.prompt@,
        command.message is Some ==> command.message->0@
            == "{\"altai_automation\":1,\"title\":"@ + crate::outside::json_string(updated.title@)
            + ",\"prompt\":"@ + crate::outside::json_string(updated.prompt@) + "}"@,
{
}

/// A change is acceptable exactly where each text that it gives is within its bytes and says
/// something, and a schedule that it gives is acceptable.
pub proof fn law_changes_are_checked_in_order(
    title: Option<String>,
    prompt: Option<String>,
    schedule: Option<ScheduleKind>,
    now_ms: i64,
)
    ensures
        ({
            let fault = crate::stdio_host::update_fault(title, prompt, schedule, now_ms);
            let titled = title is None || says_something(title->0@) && bytes_of(
                text::trimmed(title->0@),
            ) <= 256;
            let instructed = prompt is None || says_something(prompt->0@) && bytes_of(
                text::trimmed(prompt->0@),
            ) <= 10_000;
            let timely = match schedule {
                None => true,
                Some(ScheduleKind::At { at_ms }) => at_ms > now_ms,
                Some(ScheduleKind::Every { every_ms }) => 60_000 <= every_ms <= 31_622_400_000,
                Some(ScheduleKind::Cron { .. }) => false,
            };
            &&& fault is None <==> titled && instructed && timely
            &&& !titled ==> fault == Some("invalid_automation_title"@)
            &&& titled && !instructed ==> fault == Some("invalid_automation_prompt"@)
        }),
{
    if let Some(given) = title {
        law_bounded_texts(given@, 256);
    }
    if let Some(given) = prompt {
        law_bounded_texts(given@, 10_000);
    }
}

/// An automation is found exactly where its name is one and is listed.
pub proof fn law_automations_are_found_by_name(listed: Seq<StdioAutomation>, id: Seq<char>)
    ensures
        ({
            let fault = crate::stdio_host::lookup_fault(listed, id);
            let there = exists|k: int| 0 <= k < listed.len() && (#[trigger] listed[k]).id@ == id;
            let named = crate::stdio_host::is_automation_id(id);
            &&& fault is None <==> named && there
            &&& !named ==> fault == Some("invalid_automation_id"@)
            &&& named && !there ==> fault == Some("automation_not_found"@)
        }),
{
}

/// The services of a directory come from those that run where it is among them, from the start of
/// the host where it is its own, and are opened otherwise.
pub proof fn law_services_are_opened_last(
    running: Seq<Seq<char>>,
    directory: Seq<char>,
    own: Seq<char>,
)
    ensures
        ({
            let source = crate::stdio_host::source_of(running, directory, own);
            let runs = exists|i: int| 0 <= i < running.len() && #[trigger] running[i] == directory;
            &&& source == ServiceSource::Running <==> runs
            &&& source == ServiceSource::Session <==> !runs && directory == own
            &&& source == ServiceSource::Opened <==> !runs && directory != own
        }),
{
    assert(running.contains(directory) <==> exists|i: int|
        0 <= i < running.len() && #[trigger] running[i] == directory);
}

/// Only the services of the kept directory stay, and they stay where they ran.
pub proof fn law_only_the_kept_services_stay(
    running: Seq<Seq<char>>,
    keep: Seq<char>,
    directory: Seq<char>,
)
    ensures
        crate::stdio_host::retained(running, keep).contains(directory) <==> directory == keep
            && running.contains(keep),
{
    let kept = crate::stdio_host::is_kept(keep);
    if crate::stdio_host::retained(running, keep).contains(directory) {
        running.lemma_filter_contains_rev(kept, directory);
        lemma_filtered_satisfies(running, kept, directory);
    }
    if running.contains(keep) {
        let i = choose|i: int| 0 <= i < running.len() && running[i] == keep;
        running.lemma_filter_contains(kept, i);
    }
}

/// An automation is found at its first place in the list.
pub proof fn law_automation_is_found_at_its_place(
    listed: Seq<StdioAutomation>,
    id: Seq<char>,
    at: int,
    first: int,
)
    requires
        0 <= first < listed.len(),
        listed[first].id@ == id,
        forall|k: int| 0 <= k < first ==> (#[trigger] listed[k]).id@ != id,
    ensures
        crate::stdio_host::is_found(listed, id, at) <==> at == first,
{
}

} // verus!
