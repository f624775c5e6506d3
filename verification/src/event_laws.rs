//! What a page of the activity stream and a replay of the control log hold, and how the pages of one
//! list fit together.
use vstd::prelude::*;
use crate::event_log::{ActivityLog, ControlLog};
use crate::model::EntityId;
use crate::protocol_dispatch::{
    ActivityEvent, ActivityEventRepository, ActivityPage, ActivityQueryRequest, ControlEvent,
    ControlEventRepository, EventReplayRequest, EventReplayResponse,
};

verus! {

/// A query wants a fact: it is of the organization, and of the kind and the work item where the
/// query names them.
pub open spec fn wanted(request: ActivityQueryRequest) -> spec_fn(ActivityEvent) -> bool {
    |event: ActivityEvent|
        {
            &&& event.organization_id.kind@ == request.organization_id.kind@
            &&& event.organization_id.value@ == request.organization_id.value@
            &&& request.kind is None || request.kind == Some(event.kind)
            &&& request.work_item_id is None || event.work_item_id is Some
                && event.work_item_id->0.kind@ == request.work_item_id->0.kind@
                && event.work_item_id->0.value@ == request.work_item_id->0.value@
        }
}

/// The asked-for facts are the wanted ones of the stream.
proof fn lemma_asked_for_are_the_wanted(stream: Seq<ActivityEvent>, request: ActivityQueryRequest)
    ensures
        crate::event_log::asked_for(stream, request) == stream.filter(wanted(request)),
    decreases stream.len(),
{
    reveal(Seq::filter);
    if stream.len() > 0 {
        lemma_asked_for_are_the_wanted(stream.drop_last(), request);
    }
}

/// A page holds the wanted facts of the stream in their order, from the offset on, as many as the
/// limit allows and there are; there is more exactly where wanted facts come after it.
pub proof fn law_page_holds_the_wanted_facts(
    log: ActivityLog,
    request: ActivityQueryRequest,
    page: ActivityPage,
)
    requires
        log.answers(request, page),
    ensures
        ({
            let all = log.events@.filter(wanted(request));
            let offset = request.page.offset as int;
            let limit = request.page.limit as int;
            &&& page.items@.len() == if offset >= all.len() {
                0
            } else if offset + limit <= all.len() {
                limit
            } else {
                all.len() - offset
            }
            &&& forall|i: int|
                0 <= i < page.items@.len() ==> #[trigger] page.items@[i] == all[offset + i]
            &&& page.has_more <==> offset + limit < all.len()
        }),
{
    lemma_asked_for_are_the_wanted(log.events@, request);
}

/// Every fact of a page is in the stream and is wanted: it is of the organization that was asked
/// for, and of the kind and the work item where those were named.
pub proof fn law_page_holds_nothing_else(
    log: ActivityLog,
    request: ActivityQueryRequest,
    page: ActivityPage,
    i: int,
)
    requires
        log.answers(request, page),
        0 <= i < page.items@.len(),
    ensures
        log.events@.contains(page.items@[i]),
        page.items@[i].organization_id.value@ == request.organization_id.value@,
        request.kind is Some ==> page.items@[i].kind == request.kind->0,
        request.work_item_id is Some ==> page.items@[i].work_item_id is Some
            && page.items@[i].work_item_id->0.value@ == request.work_item_id->0.value@,
{
    broadcast use vstd::seq_lib::group_filter_ensures;

    law_page_holds_the_wanted_facts(log, request, page);
    let all = log.events@.filter(wanted(request));
    let offset = request.page.offset as int;
    assert(page.items@[i] == all[offset + i]);
    assert(all.contains(all[offset + i]));
    log.events@.lemma_filter_contains_rev(wanted(request), all[offset + i]);
}

/// Pages fit together: a page, and the page that begins where it ends, hold what one page of both
/// sizes holds, and there is more after the second exactly where there is after the whole.
pub proof fn law_pages_fit_together(
    log: ActivityLog,
    first: ActivityQueryRequest,
    first_page: ActivityPage,
    second: ActivityQueryRequest,
    second_page: ActivityPage,
    whole: ActivityQueryRequest,
    whole_page: ActivityPage,
)
    requires
        log.answers(first, first_page),
        log.answers(second, second_page),
        log.answers(whole, whole_page),
        second.organization_id == first.organization_id && whole.organization_id
            == first.organization_id,
        second.kind == first.kind && whole.kind == first.kind,
        second.work_item_id == first.work_item_id && whole.work_item_id == first.work_item_id,
        second.page.offset == first.page.offset + first.page.limit,
        whole.page.offset == first.page.offset,
        whole.page.limit == first.page.limit + second.page.limit,
    ensures
        first_page.items@ + second_page.items@ == whole_page.items@,
        second_page.has_more == whole_page.has_more,
        first_page.has_more <==> first_page.items@.len() == first.page.limit
            && exists_after(log, second),
{
    law_page_holds_the_wanted_facts(log, first, first_page);
    law_page_holds_the_wanted_facts(log, second, second_page);
    law_page_holds_the_wanted_facts(log, whole, whole_page);
    lemma_same_wants(first, second, log.events@);
    lemma_same_wants(first, whole, log.events@);
    assert(first_page.items@ + second_page.items@ =~= whole_page.items@);
}

/// A wanted fact stands at or behind the offset.
pub open spec fn exists_after(log: ActivityLog, request: ActivityQueryRequest) -> bool {
    request.page.offset < log.events@.filter(wanted(request)).len()
}

/// Requests that differ in their page alone want the same facts.
proof fn lemma_same_wants(
    a: ActivityQueryRequest,
    b: ActivityQueryRequest,
    stream: Seq<ActivityEvent>,
)
    requires
        a.organization_id == b.organization_id,
        a.kind == b.kind,
        a.work_item_id == b.work_item_id,
    ensures
        stream.filter(wanted(a)) == stream.filter(wanted(b)),
{
    assert(wanted(a) =~= wanted(b));
}

/// The positions, counted from one, are those of the organization's changes after a position: all of
/// them, in order.
pub open spec fn are_positions(
    positions: Seq<int>,
    log: Seq<(EntityId, ControlEvent)>,
    organization: EntityId,
    after: u64,
) -> bool {
    &&& forall|i: int, j: int|
        0 <= i < j < positions.len() ==> #[trigger] positions[i] < #[trigger] positions[j]
    &&& forall|i: int|
        0 <= i < positions.len() ==> {
            &&& after < #[trigger] positions[i] <= log.len()
            &&& log[positions[i] - 1].0.kind@ == organization.kind@
            &&& log[positions[i] - 1].0.value@ == organization.value@
        }
    &&& forall|p: int|
        1 <= p <= log.len() && p > after && (#[trigger] log[p - 1]).0.kind@ == organization.kind@
            && log[p - 1].0.value@ == organization.value@ ==> positions.contains(p)
}

/// The replayed positions are those of the organization's changes.
proof fn lemma_positions(
    log: Seq<(EntityId, ControlEvent)>,
    organization: EntityId,
    after: u64,
)
    ensures
        are_positions(
            crate::event_log::positions_after(log, organization, after),
            log,
            organization,
            after,
        ),
    decreases log.len(),
{
    let all = crate::event_log::positions_after(log, organization, after);
    if log.len() > 0 {
        let shorter = log.drop_last();
        let earlier = crate::event_log::positions_after(shorter, organization, after);
        lemma_positions(shorter, organization, after);
        assert forall|i: int| 0 <= i < all.len() implies {
            &&& after < #[trigger] all[i] <= log.len()
            &&& log[all[i] - 1].0.kind@ == organization.kind@
            &&& log[all[i] - 1].0.value@ == organization.value@
        } by {
            if i < earlier.len() {
                assert(all[i] == earlier[i]);
                assert(after < earlier[i] <= shorter.len());
                assert(shorter[earlier[i] - 1] == log[earlier[i] - 1]);
            }
        }
        assert forall|i: int, j: int| 0 <= i < j < all.len() implies #[trigger] all[i]
            < #[trigger] all[j] by {
            assert(i < earlier.len());
            assert(all[i] == earlier[i]);
            assert(after < earlier[i] <= shorter.len());
            if j < earlier.len() {
                assert(all[j] == earlier[j]);
            }
        }
        assert forall|p: int|
            1 <= p <= log.len() && p > after && (#[trigger] log[p - 1]).0.kind@
                == organization.kind@ && log[p - 1].0.value@ == organization.value@ implies
            all.contains(p) by {
            if p < log.len() {
                assert(shorter[p - 1] == log[p - 1]);
                assert(earlier.contains(p));
                let k = choose|k: int| 0 <= k < earlier.len() && earlier[k] == p;
                assert(all[k] == p);
            } else {
                assert(log.last().0.kind@ == organization.kind@);
                assert(all[all.len() - 1] == p);
            }
        }
    }
}

/// A replay answers the organization's changes after the position, in the order of the log: as many
/// as the limit allows, or all of them without one. It ends at the position of the last one, or
/// where it began if there is none, and there is more exactly where a change was left out.
pub proof fn law_replay_answers_what_comes_after(
    log: ControlLog,
    request: EventReplayRequest,
    replayed: EventReplayResponse,
) -> (positions: Seq<int>)
    requires
        log.answers(request, replayed),
    ensures
        are_positions(
            positions,
            log.changes@,
            request.organization_id,
            request.after_sequence,
        ),
        request.limit is None ==> replayed.events@.len() == positions.len(),
        request.limit is Some ==> replayed.events@.len() == if request.limit->0
            < positions.len() {
            request.limit->0 as int
        } else {
            positions.len() as int
        },
        forall|i: int|
            0 <= i < replayed.events@.len() ==> #[trigger] replayed.events@[i]
                == log.changes@[positions[i] - 1].1,
        replayed.events@.len() > 0 ==> replayed.next_sequence
            == positions[replayed.events@.len() - 1],
        replayed.events@.len() == 0 ==> replayed.next_sequence == request.after_sequence,
        replayed.has_more <==> replayed.events@.len() < positions.len(),
{
    lemma_positions(log.changes@, request.organization_id, request.after_sequence);
    crate::event_log::positions_after(
        log.changes@,
        request.organization_id,
        request.after_sequence,
    )
}

/// Positions are determined by what they are.
proof fn lemma_positions_are_determined(
    a: Seq<int>,
    b: Seq<int>,
    log: Seq<(EntityId, ControlEvent)>,
    organization: EntityId,
    after: u64,
    n: int,
)
    requires
        are_positions(a, log, organization, after),
        are_positions(b, log, organization, after),
        0 <= n <= a.len(),
    ensures
        n <= b.len(),
        a.take(n) == b.take(n),
    decreases n,
{
    if n > 0 {
        lemma_positions_are_determined(a, b, log, organization, after, n - 1);
        let p = a[n - 1];
        assert(log[p - 1].0.kind@ == organization.kind@);
        assert(b.contains(p));
        let k = choose|k: int| 0 <= k < b.len() && b[k] == p;
        if k < n - 1 {
            assert(a.take(n - 1)[k] == b.take(n - 1)[k]);
            assert(a[k] < a[n - 1]);
        }
        let q = b[n - 1];
        if k > n - 1 {
            assert(b[n - 1] < b[k]);
            assert(log[q - 1].0.kind@ == organization.kind@);
            assert(a.contains(q));
            let m = choose|m: int| 0 <= m < a.len() && a[m] == q;
            if m < n - 1 {
                assert(a.take(n - 1)[m] == b.take(n - 1)[m]);
                assert(b[m] < b[n - 1]);
            } else if m > n - 1 {
                assert(a[n - 1] < a[m]);
            }
        }
        assert(a.take(n) =~= a.take(n - 1).push(a[n - 1]));
        assert(b.take(n) =~= b.take(n - 1).push(b[n - 1]));
    }
}

/// The positions of the same changes are the same.
proof fn lemma_positions_are_equal(
    a: Seq<int>,
    b: Seq<int>,
    log: Seq<(EntityId, ControlEvent)>,
    organization: EntityId,
    after: u64,
)
    requires
        are_positions(a, log, organization, after),
        are_positions(b, log, organization, after),
    ensures
        a == b,
{
    lemma_positions_are_determined(a, b, log, organization, after, a.len() as int);
    lemma_positions_are_determined(b, a, log, organization, after, b.len() as int);
    assert(a.take(a.len() as int) =~= a);
    assert(b.take(b.len() as int) =~= b);
}

/// Behind the first positions stand those after the last of them.
proof fn lemma_rest_of_positions(
    all: Seq<int>,
    log: Seq<(EntityId, ControlEvent)>,
    organization: EntityId,
    after: u64,
    n: int,
    next: u64,
)
    requires
        are_positions(all, log, organization, after),
        0 <= n <= all.len(),
        n > 0 ==> next == all[n - 1],
        n == 0 ==> next == after,
    ensures
        are_positions(all.skip(n), log, organization, next),
{
    let rest = all.skip(n);
    assert forall|i: int| 0 <= i < rest.len() implies {
        &&& next < #[trigger] rest[i] <= log.len()
        &&& log[rest[i] - 1].0.kind@ == organization.kind@
        &&& log[rest[i] - 1].0.value@ == organization.value@
    } by {
        assert(rest[i] == all[n + i]);
        assert(after < all[n + i] <= log.len());
        if n > 0 {
            assert(all[n - 1] < all[n + i]);
        }
    }
    assert forall|i: int, j: int| 0 <= i < j < rest.len() implies #[trigger] rest[i]
        < #[trigger] rest[j] by {
        assert(all[n + i] < all[n + j]);
    }
    assert forall|x: int|
        1 <= x <= log.len() && x > next && (#[trigger] log[x - 1]).0.kind@ == organization.kind@
            && log[x - 1].0.value@ == organization.value@ implies rest.contains(x) by {
        if n > 0 {
            assert(after < all[n - 1]);
        }
        assert(all.contains(x));
        let k = choose|k: int| 0 <= k < all.len() && all[k] == x;
        if k < n {
            if k < n - 1 {
                assert(all[k] < all[n - 1]);
            }
        } else {
            assert(rest[k - n] == x);
        }
    }
}

/// A replay that goes on where another one ended leaves nothing out and repeats nothing: the changes
/// of both are those of one replay without a limit.
pub proof fn law_replay_goes_on_where_it_ended(
    log: ControlLog,
    request: EventReplayRequest,
    first: EventReplayResponse,
    later: EventReplayRequest,
    second: EventReplayResponse,
    all: EventReplayRequest,
    whole: EventReplayResponse,
)
    requires
        log.answers(request, first),
        log.answers(later, second),
        log.answers(all, whole),
        later.organization_id == request.organization_id,
        all.organization_id == request.organization_id,
        later.after_sequence == first.next_sequence,
        all.after_sequence == request.after_sequence,
        later.limit is None,
        all.limit is None,
    ensures
        first.events@ + second.events@ == whole.events@,
        !second.has_more,
        !whole.has_more,
{
    let p = law_replay_answers_what_comes_after(log, request, first);
    let q = law_replay_answers_what_comes_after(log, later, second);
    let w = law_replay_answers_what_comes_after(log, all, whole);
    let organization = request.organization_id;
    let n = first.events@.len() as int;
    lemma_positions_are_equal(p, w, log.changes@, organization, request.after_sequence);
    lemma_rest_of_positions(
        w,
        log.changes@,
        organization,
        request.after_sequence,
        n,
        later.after_sequence,
    );
    lemma_positions_are_equal(q, w.skip(n), log.changes@, organization, later.after_sequence);
    lemma_joined(log.changes@, w, n, first.events@, second.events@, whole.events@);
}

/// The changes at the first positions and at the rest are those at all of them.
proof fn lemma_joined(
    log: Seq<(EntityId, ControlEvent)>,
    positions: Seq<int>,
    n: int,
    first: Seq<ControlEvent>,
    second: Seq<ControlEvent>,
    whole: Seq<ControlEvent>,
)
    requires
        0 <= n <= positions.len(),
        first.len() == n,
        second.len() == positions.len() - n,
        whole.len() == positions.len(),
        forall|i: int|
            0 <= i < first.len() ==> #[trigger] first[i] == log[positions[i] - 1].1,
        forall|i: int|
            0 <= i < second.len() ==> #[trigger] second[i] == log[positions.skip(n)[i] - 1].1,
        forall|i: int|
            0 <= i < whole.len() ==> #[trigger] whole[i] == log[positions[i] - 1].1,
    ensures
        first + second == whole,
{
    assert forall|i: int| 0 <= i < whole.len() implies #[trigger] whole[i] == (first
        + second)[i] by {
        if i >= n {
            assert(second[i - n] == log[positions.skip(n)[i - n] - 1].1);
        }
    }
    assert(first + second =~= whole);
}

} // verus!
