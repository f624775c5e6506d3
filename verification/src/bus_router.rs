//! The two message routers of an agent instance: what is done with each message on its inbound
//! bus and with each message that the agent emits.
use vstd::prelude::*;

verus! {

/// What routing reads of a message on the inbound bus.
#[allow(inconsistent_fields)]
pub enum BusMessage {
    /// A user message or a synthetic follow-up, with the run it is trusted to belong to.
    Inbound { channel: String, chat_id: String, run_id: Option<String> },
    /// A message for the channel.
    Outbound,
    /// A request to cancel whatever runs in a chat.
    Cancel { chat_id: String },
    /// A request to cancel one run.
    CancelRun { chat_id: String, run_id: String },
    /// A request to steer one run.
    Steer { chat_id: String, run_id: String, content: String },
    /// Telemetry, lifecycle and other messages, which this bus does not carry.
    Other,
}

/// Where the router stands with the message in hand.
#[allow(inconsistent_fields)]
pub enum RouterState {
    /// No message is in hand.
    Idle,
    /// The message is being given a trusted run.
    Trusting { chat_id: String },
    /// The generated run is being admitted.
    Admitting { chat_id: String, run_id: String },
    /// The message is on its way to the agent.
    Forwarding { chat_id: String, run_id: Option<String> },
    /// The coordinator is being told of a cancellation.
    Cancelling { chat_id: String },
    /// The coordinator decides on the cancellation of a run.
    CancellingRun { chat_id: String, run_id: String },
    /// The coordinator decides on steering a run.
    Steering { chat_id: String, run_id: String, content: String },
}

/// What the router learns.
pub enum RouterEvent {
    /// A message came in.
    Received { message: BusMessage },
    /// The message was marked as trusted and carries this run.
    Trusted { run_id: Option<String> },
    /// The run coordinator answered.
    Decided { accepted: bool },
    /// The agent took the message, or did not.
    Sent { delivered: bool },
}

/// What the router asks to be done.
pub enum RouterAction {
    /// Nothing; the router waits for the next message.
    Wait,
    /// Mark the inbound message as trusted, which gives it a run.
    Trust { chat_id: String },
    /// Queue the generated run with the run coordinator.
    QueueRun { chat_id: String, run_id: String },
    /// Report that the message was dropped, because its run was not admitted.
    ReportDropped { chat_id: String },
    /// Send the inbound message to the agent.
    ForwardInbound { chat_id: String },
    /// Take back the admission of a run whose message did not reach the agent.
    RollBack { chat_id: String, run_id: String },
    /// Hand the message to the channel.
    DeliverOutbound,
    /// Tell the coordinator that a cancellation is requested.
    RequestCancel { chat_id: String },
    /// Ask the coordinator to cancel a run.
    RequestCancelRun { chat_id: String, run_id: String },
    /// Ask the coordinator whether a run accepts steering.
    RequestSteer { chat_id: String, run_id: String },
    /// Send the cancellation to the agent.
    ForwardCancel { chat_id: String },
    /// Send the cancellation of a run to the agent.
    ForwardCancelRun { chat_id: String, run_id: String },
    /// Send the steering of a run to the agent.
    ForwardSteer { chat_id: String, run_id: String, content: String },
}

/// What happens to a message that came in on a bus whose instance listens on `channel`.
pub open spec fn on_message(message: BusMessage, channel: Seq<char>) -> (RouterState, RouterAction) {
    match message {
        BusMessage::Inbound { channel: origin, chat_id, run_id } => {
            if origin@ == channel && run_id is None {
                (RouterState::Trusting { chat_id }, RouterAction::Trust { chat_id })
            } else {
                (
                    RouterState::Forwarding { chat_id, run_id },
                    RouterAction::ForwardInbound { chat_id },
                )
            }
        },
        BusMessage::Outbound => (RouterState::Idle, RouterAction::DeliverOutbound),
        BusMessage::Cancel { chat_id } => (
            RouterState::Cancelling { chat_id },
            RouterAction::RequestCancel { chat_id },
        ),
        BusMessage::CancelRun { chat_id, run_id } => (
            RouterState::CancellingRun { chat_id, run_id },
            RouterAction::RequestCancelRun { chat_id, run_id },
        ),
        BusMessage::Steer { chat_id, run_id, content } => (
            RouterState::Steering { chat_id, run_id, content },
            RouterAction::RequestSteer { chat_id, run_id },
        ),
        BusMessage::Other => (RouterState::Idle, RouterAction::Wait),
    }
}

/// The router's next state and what it asks for. An event that does not answer what is in hand
/// changes nothing.
pub open spec fn router_next(state: RouterState, event: RouterEvent, channel: Seq<char>) -> (
    RouterState,
    RouterAction,
) {
    match (state, event) {
        (RouterState::Idle, RouterEvent::Received { message }) => on_message(message, channel),
        (RouterState::Trusting { chat_id }, RouterEvent::Trusted { run_id }) => match run_id {
            Some(run) => (
                RouterState::Admitting { chat_id, run_id: run },
                RouterAction::QueueRun { chat_id, run_id: run },
            ),
            None => (
                RouterState::Forwarding { chat_id, run_id: None },
                RouterAction::ForwardInbound { chat_id },
            ),
        },
        (RouterState::Admitting { chat_id, run_id }, RouterEvent::Decided { accepted }) => {
            if accepted {
                (
                    RouterState::Forwarding { chat_id, run_id: Some(run_id) },
                    RouterAction::ForwardInbound { chat_id },
                )
            } else {
                (RouterState::Idle, RouterAction::ReportDropped { chat_id })
            }
        },
        (RouterState::Forwarding { chat_id, run_id }, RouterEvent::Sent { delivered }) => (
            RouterState::Idle,
            match run_id {
                Some(run) if !delivered => RouterAction::RollBack { chat_id, run_id: run },
                _ => RouterAction::Wait,
            },
        ),
        (RouterState::Cancelling { chat_id }, RouterEvent::Decided { .. }) => (
            RouterState::Idle,
            RouterAction::ForwardCancel { chat_id },
        ),
        (RouterState::CancellingRun { chat_id, run_id }, RouterEvent::Decided { accepted }) => (
            RouterState::Idle,
            if accepted {
                RouterAction::ForwardCancelRun { chat_id, run_id }
            } else {
                RouterAction::Wait
            },
        ),
        (RouterState::Steering { chat_id, run_id, content }, RouterEvent::Decided { accepted }) => (
            RouterState::Idle,
            if accepted {
                RouterAction::ForwardSteer { chat_id, run_id, content }
            } else {
                RouterAction::Wait
            },
        ),
        (state, _) => (state, RouterAction::Wait),
    }
}

/// Takes a message in hand.
fn take_message(message: BusMessage, channel: &str) -> (r: (RouterState, RouterAction))
    ensures
        r == on_message(message, channel@),
{
    match message {
        BusMessage::Inbound { channel: origin, chat_id, run_id } => {
            if crate::text::same(&origin, channel) && run_id.is_none() {
                (
                    RouterState::Trusting { chat_id: chat_id.clone() },
                    RouterAction::Trust { chat_id },
                )
            } else {
                (
                    RouterState::Forwarding { chat_id: chat_id.clone(), run_id },
                    RouterAction::ForwardInbound { chat_id },
                )
            }
        },
        BusMessage::Outbound => (RouterState::Idle, RouterAction::DeliverOutbound),
        BusMessage::Cancel { chat_id } => (
            RouterState::Cancelling { chat_id: chat_id.clone() },
            RouterAction::RequestCancel { chat_id },
        ),
        BusMessage::CancelRun { chat_id, run_id } => (
            RouterState::CancellingRun { chat_id: chat_id.clone(), run_id: run_id.clone() },
            RouterAction::RequestCancelRun { chat_id, run_id },
        ),
        BusMessage::Steer { chat_id, run_id, content } => (
            RouterState::Steering { chat_id: chat_id.clone(), run_id: run_id.clone(), content },
            RouterAction::RequestSteer { chat_id, run_id },
        ),
        BusMessage::Other => (RouterState::Idle, RouterAction::Wait),
    }
}

/// One step of the router.
pub fn router_step(state: RouterState, event: RouterEvent, channel: &str) -> (r: (
    RouterState,
    RouterAction,
))
    ensures
        r == router_next(state, event, channel@),
{
    match (state, event) {
        (RouterState::Idle, RouterEvent::Received { message }) => take_message(message, channel),
        (RouterState::Trusting { chat_id }, RouterEvent::Trusted { run_id }) => match run_id {
            Some(run) => (
                RouterState::Admitting { chat_id: chat_id.clone(), run_id: run.clone() },
                RouterAction::QueueRun { chat_id, run_id: run },
            ),
            None => (
                RouterState::Forwarding { chat_id: chat_id.clone(), run_id: None },
                RouterAction::ForwardInbound { chat_id },
            ),
        },
        (RouterState::Admitting { chat_id, run_id }, RouterEvent::Decided { accepted }) => {
            if accepted {
                (
                    RouterState::Forwarding { chat_id: chat_id.clone(), run_id: Some(run_id) },
                    RouterAction::ForwardInbound { chat_id },
                )
            } else {
                (RouterState::Idle, RouterAction::ReportDropped { chat_id })
            }
        },
        (RouterState::Forwarding { chat_id, run_id }, RouterEvent::Sent { delivered }) => {
            let action: RouterAction = if delivered {
                RouterAction::Wait
            } else {
                match run_id {
                    Some(run) => RouterAction::RollBack { chat_id, run_id: run },
                    None => RouterAction::Wait,
                }
            };
            (RouterState::Idle, action)
        },
        (RouterState::Cancelling { chat_id }, RouterEvent::Decided { .. }) => (
            RouterState::Idle,
            RouterAction::ForwardCancel { chat_id },
        ),
        (RouterState::CancellingRun { chat_id, run_id }, RouterEvent::Decided { accepted }) => {
            let action: RouterAction = if accepted {
                RouterAction::ForwardCancelRun { chat_id, run_id }
            } else {
                RouterAction::Wait
            };
            (RouterState::Idle, action)
        },
        (RouterState::Steering { chat_id, run_id, content }, RouterEvent::Decided { accepted }) => {
            let action: RouterAction = if accepted {
                RouterAction::ForwardSteer { chat_id, run_id, content }
            } else {
                RouterAction::Wait
            };
            (RouterState::Idle, action)
        },
        (state, _) => (state, RouterAction::Wait),
    }
}

/// A generated run reaches the agent only after the coordinator admitted it: while it is being
/// admitted nothing but an acceptance forwards its message, and a refusal is reported and leaves
/// no message in hand.
pub proof fn law_refused_run_is_never_forwarded(
    chat_id: String,
    run_id: String,
    event: RouterEvent,
    channel: Seq<char>,
)
    ensures
        router_next(RouterState::Admitting { chat_id, run_id }, event, channel).1
            is ForwardInbound <==> event == (RouterEvent::Decided { accepted: true }),
        router_next(
            RouterState::Admitting { chat_id, run_id },
            RouterEvent::Decided { accepted: false },
            channel,
        ) == (RouterState::Idle, RouterAction::ReportDropped { chat_id }),
{
}

/// An admission is taken back only for a message that did not reach the agent, and for the run
/// of that message.
pub proof fn law_rollback_only_after_failed_send(
    state: RouterState,
    event: RouterEvent,
    channel: Seq<char>,
)
    ensures
        router_next(state, event, channel).1 matches RouterAction::RollBack { chat_id, run_id }
            ==> state == (RouterState::Forwarding { chat_id, run_id: Some(run_id) }) && event == (
        RouterEvent::Sent { delivered: false }),
{
}

/// What the agent emits besides messages reaches its listeners through the outbound router
/// alone: on the inbound bus it is never acted upon.
pub proof fn law_other_messages_do_nothing_on_the_bus(channel: Seq<char>)
    ensures
        router_next(RouterState::Idle, RouterEvent::Received { message: BusMessage::Other }, channel)
            == (RouterState::Idle, RouterAction::Wait),
{
}

/// An item of a clarification's preset choices.
pub enum ChoiceItem {
    Text { text: String },
    /// Anything that is not a text.
    Other,
}

/// The texts among the items, in order.
pub open spec fn texts_of(items: Seq<ChoiceItem>) -> Seq<String>
    decreases items.len(),
{
    if items.len() == 0 {
        Seq::empty()
    } else {
        match items.last() {
            ChoiceItem::Text { text } => texts_of(items.drop_last()).push(text),
            ChoiceItem::Other => texts_of(items.drop_last()),
        }
    }
}

/// The choices of a clarification: the texts among the items, none where there is no list.
pub fn clarification_choices(items: &Option<Vec<ChoiceItem>>) -> (r: Vec<String>)
    ensures
        r@ == match *items {
            Some(list) => texts_of(list@),
            None => Seq::empty(),
        },
{
    let mut out: Vec<String> = Vec::new();
    match items {
        Some(list) => {
            let mut i: usize = 0;
            while i < list.len()
                invariant
                    i <= list@.len(),
                    out@ == texts_of(list@.take(i as int)),
                decreases list@.len() - i,
            {
                assert(list@.take(i + 1).drop_last() =~= list@.take(i as int));
                match &list[i] {
                    ChoiceItem::Text { text } => {
                        out.push(text.clone());
                    },
                    ChoiceItem::Other => {},
                }
                i = i + 1;
            }
            assert(list@.take(list@.len() as int) =~= list@);
        },
        None => {},
    }
    out
}

/// The moment of a run that a lifecycle message reports.
#[derive(Clone, Copy, Debug, PartialEq, Eq, Structural)]
pub enum LifecycleMoment {
    Started,
    Warning,
    WarningCleared,
    Terminated,
}

/// What routing reads of a message that the agent emits.
#[allow(inconsistent_fields)]
pub enum AgentMessage {
    /// A message for the user, or a clarification with what its metadata holds.
    Outbound {
        chat_id: String,
        content: String,
        is_clarification: bool,
        choices: Option<Vec<ChoiceItem>>,
        edit_diff: Option<String>,
    },
    /// Telemetry: whether it maps to an event, whether that event is the system's, and its chat.
    Telemetry { mapped: bool, system: bool, chat_id: Option<String> },
    /// A moment in the life of a run.
    Lifecycle { moment: LifecycleMoment, chat_id: String, run_id: String },
    /// A piece of a streamed reply.
    StreamDelta { chat_id: String },
    /// A snapshot of a session.
    SessionProjection { chat_id: String },
    /// Messages that are not for listeners.
    Other,
}

/// The event by which a message for the user is surfaced.
pub enum UserEvent {
    Clarification { content: String, choices: Vec<String>, edit_diff: Option<String> },
    /// A message in the assistant's role.
    Assistant { content: String },
}

/// How the run coordinator advances with a persisted event.
pub enum RunEventTransition {
    Next,
    Started { run_id: String },
    NextForRun { run_id: String },
    Terminated { run_id: String },
}

/// What is done with a message that the agent emits.
pub enum Delivery {
    /// Persist the event and deliver it; a clarification then makes its run wait for the user.
    Surface { chat_id: String, event: UserEvent, mark_waiting: bool },
    /// Emit the event outside any run.
    Emit { chat_id: String },
    /// Persist and deliver the event as the next one of the chat's run.
    DeliverNext { chat_id: String },
    /// Persist and deliver the event under a transition.
    Persist { chat_id: String, transition: RunEventTransition },
    /// Nothing.
    Ignore,
}

/// The transition that a moment of a run brings.
pub open spec fn moment_transition(moment: LifecycleMoment, run_id: String) -> RunEventTransition {
    match moment {
        LifecycleMoment::Started => RunEventTransition::Started { run_id },
        LifecycleMoment::Warning => RunEventTransition::NextForRun { run_id },
        LifecycleMoment::WarningCleared => RunEventTransition::NextForRun { run_id },
        LifecycleMoment::Terminated => RunEventTransition::Terminated { run_id },
    }
}

/// `delivery` is what is done with `message`.
pub open spec fn is_delivery_of(delivery: Delivery, message: AgentMessage) -> bool {
    match message {
        AgentMessage::Outbound { chat_id, content, is_clarification, choices, edit_diff } => {
            if is_clarification {
                &&& delivery matches Delivery::Surface {
                    chat_id: to,
                    event: UserEvent::Clarification { content: shown, choices: offered, edit_diff: diff },
                    mark_waiting,
                }
                &&& to == chat_id
                &&& shown == content
                &&& offered@ == match choices {
                    Some(list) => texts_of(list@),
                    None => Seq::empty(),
                }
                &&& diff == edit_diff
                &&& mark_waiting
            } else {
                delivery == (Delivery::Surface {
                    chat_id,
                    event: UserEvent::Assistant { content },
                    mark_waiting: false,
                })
            }
        },
        AgentMessage::Telemetry { mapped, system, chat_id } => {
            if !mapped {
                delivery == Delivery::Ignore
            } else {
                let addressed = |to: String| match chat_id {
                    Some(chat) => to@ == chat@,
                    None => to@ == Seq::<char>::empty(),
                };
                if system {
                    delivery matches Delivery::Emit { chat_id: to } && addressed(to)
                } else {
                    delivery matches Delivery::DeliverNext { chat_id: to } && addressed(to)
                }
            }
        },
        AgentMessage::Lifecycle { moment, chat_id, run_id } => delivery == (Delivery::Persist {
            chat_id,
            transition: moment_transition(moment, run_id),
        }),
        AgentMessage::StreamDelta { chat_id } => delivery == (Delivery::Emit { chat_id }),
        AgentMessage::SessionProjection { chat_id } => delivery == (Delivery::Emit { chat_id }),
        AgentMessage::Other => delivery == Delivery::Ignore,
    }
}

/// Decides what is done with a message that the agent emits.
pub fn route_outbound(message: AgentMessage) -> (r: Delivery)
    ensures
        is_delivery_of(r, message),
{
    match message {
        AgentMessage::Outbound { chat_id, content, is_clarification, choices, edit_diff } => {
            if is_clarification {
                let offered: Vec<String> = clarification_choices(&choices);
                Delivery::Surface {
                    chat_id,
                    event: UserEvent::Clarification { content, choices: offered, edit_diff },
                    mark_waiting: true,
                }
            } else {
                Delivery::Surface {
                    chat_id,
                    event: UserEvent::Assistant { content },
                    mark_waiting: false,
                }
            }
        },
        AgentMessage::Telemetry { mapped, system, chat_id } => {
            if !mapped {
                return Delivery::Ignore;
            }
            let to: String = match chat_id {
                Some(chat) => chat,
                None => String::new(),
            };
            if system {
                Delivery::Emit { chat_id: to }
            } else {
                Delivery::DeliverNext { chat_id: to }
            }
        },
        AgentMessage::Lifecycle { moment, chat_id, run_id } => {
            let transition: RunEventTransition = match moment {
                LifecycleMoment::Started => RunEventTransition::Started { run_id },
                LifecycleMoment::Warning => RunEventTransition::NextForRun { run_id },
                LifecycleMoment::WarningCleared => RunEventTransition::NextForRun { run_id },
                LifecycleMoment::Terminated => RunEventTransition::Terminated { run_id },
            };
            Delivery::Persist { chat_id, transition }
        },
        AgentMessage::StreamDelta { chat_id } => Delivery::Emit { chat_id },
        AgentMessage::SessionProjection { chat_id } => Delivery::Emit { chat_id },
        AgentMessage::Other => Delivery::Ignore,
    }
}

} // verus!
