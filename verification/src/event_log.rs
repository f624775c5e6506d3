//! The activity stream and the log of control events in memory.
use vstd::prelude::*;
use crate::model::EntityId;
use crate::protocol_dispatch::{
    ActivityEvent, ActivityEventRepository, ActivityPage, ActivityQueryRequest, ControlEvent,
    ControlEventRepository, EventReplayRequest, EventReplayResponse,
};
use crate::record::Record;
use crate::text;

verus! {

/// The same fact.
fn copy_fact(event: &ActivityEvent) -> (r: ActivityEvent)
    ensures
        r == *event,
{
    ActivityEvent {
        event_id: event.event_id.copy(),
        kind: event.kind,
        actor: event.actor.copy(),
        timestamp: event.timestamp.copy(),
        organization_id: event.organization_id.copy(),
        project_id: event.project_id.copy(),
        work_item_id: event.work_item_id.copy(),
        attempt_id: event.attempt_id.copy(),
        summary: event.summary.copy(),
        correlation_id: event.correlation_id.copy(),
        causation_id: event.causation_id.copy(),
    }
}

/// The same change.
fn copy_change(event: &ControlEvent) -> (r: ControlEvent)
    ensures
        r == *event,
{
    ControlEvent {
        aggregate: event.aggregate.copy(),
        aggregate_id: event.aggregate_id.copy(),
        sequence: event.sequence,
        kind: event.kind,
        actor: event.actor.copy(),
        timestamp: event.timestamp.copy(),
        revision: event.revision,
        payload: event.payload.copy(),
        correlation_id: event.correlation_id.copy(),
        causation_id: event.causation_id.copy(),
    }
}

/// The fact is one that a query asks for.
pub open spec fn is_asked_for(event: ActivityEvent, request: ActivityQueryRequest) -> bool {
    &&& event.organization_id.alike(&request.organization_id)
    &&& request.kind is Some ==> event.kind == request.kind->0
    &&& request.work_item_id is Some ==> event.work_item_id is Some && event.work_item_id->0.alike(
        &request.work_item_id->0,
    )
}

/// The facts that a query asks for, in order.
pub open spec fn asked_for(stream: Seq<ActivityEvent>, request: ActivityQueryRequest) -> Seq<
    ActivityEvent,
>
    decreases stream.len(),
{
    if stream.len() == 0 {
        Seq::empty()
    } else if is_asked_for(stream.last(), request) {
        asked_for(stream.drop_last(), request).push(stream.last())
    } else {
        asked_for(stream.drop_last(), request)
    }
}

/// The smaller of two numbers.
pub open spec fn least(a: int, b: int) -> int {
    if a < b {
        a
    } else {
        b
    }
}

/// The activity stream in memory.
pub struct ActivityLog {
    pub events: Vec<ActivityEvent>,
}

impl ActivityLog {
    /// An empty stream.
    pub fn new() -> (r: Self)
        ensures
            r.stream() == Seq::<ActivityEvent>::empty(),
    {
        ActivityLog { events: Vec::new() }
    }

    /// Whether a fact of this identifier is recorded.
    fn knows(&self, event_id: &str) -> (r: bool)
        ensures
            r == crate::protocol_dispatch::has_event(self.stream(), event_id@),
    {
        let mut i: usize = 0;
        while i < self.events.len()
            invariant
                i <= self.events@.len(),
                forall|k: int| 0 <= k < i ==> (#[trigger] self.events@[k]).event_id@ != event_id@,
            decreases self.events@.len() - i,
        {
            if text::same(&self.events[i].event_id, event_id) {
                assert(self.stream()[i as int].event_id@ == event_id@);
                return true;
            }
            i = i + 1;
        }
        false
    }
}

/// Whether a fact is one that a query asks for.
fn wants(event: &ActivityEvent, request: &ActivityQueryRequest) -> (r: bool)
    ensures
        r == is_asked_for(*event, *request),
{
    if !event.organization_id.same(&request.organization_id) {
        return false;
    }
    if let Some(kind) = request.kind {
        if event.kind != kind {
            return false;
        }
    }
    if let Some(wanted) = &request.work_item_id {
        return match &event.work_item_id {
            Some(id) => id.same(wanted),
            None => false,
        };
    }
    true
}

impl ActivityEventRepository for ActivityLog {
    open spec fn stream(&self) -> Seq<ActivityEvent> {
        self.events@
    }

    /// The asked-for facts from the offset, as many as the limit allows.
    open spec fn answers(&self, request: ActivityQueryRequest, page: ActivityPage) -> bool {
        let all = asked_for(self.stream(), request);
        let from = least(request.page.offset as int, all.len() as int);
        let to = least(request.page.offset + request.page.limit, all.len() as int);
        page.items@ == all.subrange(from, to) && page.has_more == (to < all.len())
    }

    open spec fn fallible(&self) -> bool {
        false
    }

    fn query(&self, request: &ActivityQueryRequest) -> (r: Result<ActivityPage, String>)
        ensures
            r is Ok,
    {
        let ghost stream = self.events@;
        let mut items: Vec<ActivityEvent> = Vec::new();
        let mut has_more: bool = false;
        let mut skipped: usize = 0;
        let mut i: usize = 0;
        let offset: usize = request.page.offset;
        let limit: usize = request.page.limit;
        assert(stream.take(0) =~= Seq::empty());
        while i < self.events.len()
            invariant
                stream == self.events@,
                i <= stream.len(),
                offset == request.page.offset,
                limit == request.page.limit,
                skipped <= offset,
                items@.len() <= limit,
                ({
                    let all = asked_for(stream.take(i as int), *request);
                    &&& skipped == least(offset as int, all.len() as int)
                    &&& items@ == all.subrange(
                        skipped as int,
                        least(offset + limit, all.len() as int),
                    )
                    &&& has_more == (offset + limit < all.len())
                }),
            decreases stream.len() - i,
        {
            let ghost all = asked_for(stream.take(i as int), *request);
            let ghost next = asked_for(stream.take(i + 1), *request);
            assert(stream.take(i + 1).drop_last() =~= stream.take(i as int));
            if wants(&self.events[i], request) {
                assert(next == all.push(stream[i as int]));
                if skipped < offset {
                    skipped = skipped + 1;
                    assert(items@ =~= next.subrange(
                        skipped as int,
                        least(offset + limit, next.len() as int),
                    ));
                } else if items.len() < limit {
                    items.push(copy_fact(&self.events[i]));
                    assert(items@ =~= next.subrange(
                        skipped as int,
                        least(offset + limit, next.len() as int),
                    ));
                } else {
                    has_more = true;
                    assert(items@ =~= next.subrange(
                        skipped as int,
                        least(offset + limit, next.len() as int),
                    ));
                }
            }
            i = i + 1;
        }
        assert(stream.take(i as int) =~= stream);
        Ok(ActivityPage { items, has_more })
    }

    fn append(&mut self, event: ActivityEvent) -> (r: Result<(), String>)
        ensures
            r is Ok,
    {
        if self.knows(&event.event_id) {
            return Ok(());
        }
        self.events.push(event);
        Ok(())
    }
}

/// The positions of an organization's changes after a position, counted from one.
pub open spec fn positions_after(
    log: Seq<(EntityId, ControlEvent)>,
    organization: EntityId,
    after: u64,
) -> Seq<int>
    decreases log.len(),
{
    if log.len() == 0 {
        Seq::empty()
    } else {
        let earlier = positions_after(log.drop_last(), organization, after);
        if log.last().0.alike(&organization) && log.len() > after {
            earlier.push(log.len() as int)
        } else {
            earlier
        }
    }
}

/// The log of control events in memory.
pub struct ControlLog {
    pub changes: Vec<(EntityId, ControlEvent)>,
}

impl ControlLog {
    /// An empty log.
    pub fn new() -> (r: Self)
        ensures
            r.log() == Seq::<(EntityId, ControlEvent)>::empty(),
    {
        ControlLog { changes: Vec::new() }
    }

    /// Whether a change of this aggregate under this sequence is recorded.
    fn knows(&self, aggregate_id: &str, sequence: u64) -> (r: bool)
        ensures
            r == crate::protocol_dispatch::has_change(self.log(), aggregate_id@, sequence),
    {
        let mut i: usize = 0;
        while i < self.changes.len()
            invariant
                i <= self.changes@.len(),
                forall|k: int|
                    0 <= k < i ==> !((#[trigger] self.changes@[k]).1.aggregate_id.value@
                        == aggregate_id@ && self.changes@[k].1.sequence == sequence),
            decreases self.changes@.len() - i,
        {
            if self.changes[i].1.sequence == sequence && text::same(
                &self.changes[i].1.aggregate_id.value,
                aggregate_id,
            ) {
                assert(self.log()[i as int].1.sequence == sequence);
                return true;
            }
            i = i + 1;
        }
        false
    }
}

impl ControlEventRepository for ControlLog {
    open spec fn log(&self) -> Seq<(EntityId, ControlEvent)> {
        self.changes@
    }

    /// The organization's changes after the position in the order of the log, as many as the limit
    /// allows, with the position of the last one.
    open spec fn answers(&self, request: EventReplayRequest, replayed: EventReplayResponse) -> bool {
        let all = positions_after(self.log(), request.organization_id, request.after_sequence);
        let count = if request.limit is Some {
            least(request.limit->0 as int, all.len() as int)
        } else {
            all.len() as int
        };
        &&& replayed.events@.len() == count
        &&& forall|i: int|
            0 <= i < count ==> (#[trigger] replayed.events@[i]) == self.log()[all[i] - 1].1
        &&& replayed.next_sequence == if count > 0 {
            all[count - 1]
        } else {
            request.after_sequence as int
        }
        &&& replayed.has_more == (count < all.len())
    }

    open spec fn fallible(&self) -> bool {
        false
    }

    fn replay(&self, request: &EventReplayRequest) -> (r: Result<EventReplayResponse, String>)
        ensures
            r is Ok,
    {
        let ghost log = self.changes@;
        let mut events: Vec<ControlEvent> = Vec::new();
        let mut next_sequence: u64 = request.after_sequence;
        let mut has_more: bool = false;
        let mut i: usize = 0;
        assert(log.take(0) =~= Seq::empty());
        while i < self.changes.len()
            invariant
                log == self.changes@,
                i <= log.len(),
                request.limit is Some ==> events@.len() <= request.limit->0,
                ({
                    let all = positions_after(
                        log.take(i as int),
                        request.organization_id,
                        request.after_sequence,
                    );
                    let count = if request.limit is Some {
                        least(request.limit->0 as int, all.len() as int)
                    } else {
                        all.len() as int
                    };
                    &&& forall|k: int| 0 <= k < all.len() ==> 1 <= #[trigger] all[k] <= i
                    &&& events@.len() == count
                    &&& forall|k: int|
                        0 <= k < count ==> (#[trigger] events@[k]) == log[all[k] - 1].1
                    &&& next_sequence == if count > 0 {
                        all[count - 1]
                    } else {
                        request.after_sequence as int
                    }
                    &&& has_more == (count < all.len())
                }),
            decreases log.len() - i,
        {
            let ghost all = positions_after(
                log.take(i as int),
                request.organization_id,
                request.after_sequence,
            );
            assert(log.take(i + 1).drop_last() =~= log.take(i as int));
            let position: u64 = i as u64 + 1;
            if self.changes[i].0.same(&request.organization_id) && position
                > request.after_sequence {
                let room: bool = match request.limit {
                    Some(limit) => events.len() < limit,
                    None => true,
                };
                if room {
                    events.push(copy_change(&self.changes[i].1));
                    next_sequence = position;
                } else {
                    has_more = true;
                }
            }
            i = i + 1;
        }
        assert(log.take(i as int) =~= log);
        Ok(EventReplayResponse { events, next_sequence, has_more })
    }

    fn append(&mut self, organization_id: &EntityId, event: ControlEvent) -> (r: Result<(), String>)
        ensures
            r is Ok,
    {
        if self.knows(&event.aggregate_id.value, event.sequence) {
            return Ok(());
        }
        self.changes.push((organization_id.copy(), event));
        Ok(())
    }
}

} // verus!
