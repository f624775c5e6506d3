//! What becomes of a message from its arrival to its end, step by step.
use vstd::prelude::*;
use crate::bus_router::{
    AgentMessage, BusMessage, ChoiceItem, Delivery, LifecycleMoment, RouterAction, RouterEvent,
    RouterState, RunEventTransition, UserEvent,
};

verus! {

/// A message of the instance's own channel without a run is trusted first, its run is queued, and it
/// is forwarded once the run is admitted. A send that fails takes the admission back; a refused run
/// drops the message and is reported. Either way no message is in hand afterwards.
pub proof fn law_own_message_is_admitted_and_forwarded(
    origin: String,
    chat_id: String,
    run_id: String,
    channel: Seq<char>,
)
    requires
        origin@ == channel,
    ensures
        ({
            let message = BusMessage::Inbound { channel: origin, chat_id, run_id: None };
            let (trusting, first) = crate::bus_router::router_next(
                RouterState::Idle,
                RouterEvent::Received { message },
                channel,
            );
            let (admitting, second) = crate::bus_router::router_next(
                trusting,
                RouterEvent::Trusted { run_id: Some(run_id) },
                channel,
            );
            let (forwarding, third) = crate::bus_router::router_next(
                admitting,
                RouterEvent::Decided { accepted: true },
                channel,
            );
            &&& first == (RouterAction::Trust { chat_id })
            &&& second == (RouterAction::QueueRun { chat_id, run_id })
            &&& third == (RouterAction::ForwardInbound { chat_id })
            &&& crate::bus_router::router_next(
                forwarding,
                RouterEvent::Sent { delivered: true },
                channel,
            ) == (RouterState::Idle, RouterAction::Wait)
            &&& crate::bus_router::router_next(
                forwarding,
                RouterEvent::Sent { delivered: false },
                channel,
            ) == (RouterState::Idle, RouterAction::RollBack { chat_id, run_id })
            &&& crate::bus_router::router_next(
                admitting,
                RouterEvent::Decided { accepted: false },
                channel,
            ) == (RouterState::Idle, RouterAction::ReportDropped { chat_id })
        }),
{
}

/// A message that is trusted without a run is forwarded without an admission, and nothing is taken
/// back where the send fails.
pub proof fn law_trusted_message_without_a_run_is_forwarded(
    origin: String,
    chat_id: String,
    delivered: bool,
    channel: Seq<char>,
)
    requires
        origin@ == channel,
    ensures
        ({
            let message = BusMessage::Inbound { channel: origin, chat_id, run_id: None };
            let (trusting, _) = crate::bus_router::router_next(
                RouterState::Idle,
                RouterEvent::Received { message },
                channel,
            );
            let (forwarding, action) = crate::bus_router::router_next(
                trusting,
                RouterEvent::Trusted { run_id: None },
                channel,
            );
            &&& action == (RouterAction::ForwardInbound { chat_id })
            &&& crate::bus_router::router_next(
                forwarding,
                RouterEvent::Sent { delivered },
                channel,
            ) == (RouterState::Idle, RouterAction::Wait)
        }),
{
}

/// A message of another channel, and one that carries a run, is forwarded at once; where the send
/// fails, the run that it carries is taken back.
pub proof fn law_other_messages_are_forwarded_at_once(
    origin: String,
    chat_id: String,
    run_id: Option<String>,
    channel: Seq<char>,
)
    requires
        origin@ != channel || run_id is Some,
    ensures
        ({
            let message = BusMessage::Inbound { channel: origin, chat_id, run_id };
            let (forwarding, action) = crate::bus_router::router_next(
                RouterState::Idle,
                RouterEvent::Received { message },
                channel,
            );
            let lost = crate::bus_router::router_next(
                forwarding,
                RouterEvent::Sent { delivered: false },
                channel,
            );
            &&& action == (RouterAction::ForwardInbound { chat_id })
            &&& crate::bus_router::router_next(
                forwarding,
                RouterEvent::Sent { delivered: true },
                channel,
            ) == (RouterState::Idle, RouterAction::Wait)
            &&& lost.0 == RouterState::Idle
            &&& run_id is None ==> lost.1 == RouterAction::Wait
            &&& run_id is Some ==> lost.1 == (RouterAction::RollBack { chat_id, run_id: run_id->0 })
        }),
{
}

/// A cancellation of a chat is announced to the coordinator and then reaches the agent, whatever the
/// coordinator answers.
pub proof fn law_cancellation_always_reaches_the_agent(
    chat_id: String,
    accepted: bool,
    channel: Seq<char>,
)
    ensures
        ({
            let (asking, first) = crate::bus_router::router_next(
                RouterState::Idle,
                RouterEvent::Received { message: BusMessage::Cancel { chat_id } },
                channel,
            );
            &&& first == (RouterAction::RequestCancel { chat_id })
            &&& crate::bus_router::router_next(asking, RouterEvent::Decided { accepted }, channel)
                == (RouterState::Idle, RouterAction::ForwardCancel { chat_id })
        }),
{
}

/// The cancellation and the steering of a run reach the agent exactly where the coordinator accepts
/// them, with the run and the content that were asked for.
pub proof fn law_run_commands_need_acceptance(
    chat_id: String,
    run_id: String,
    content: String,
    accepted: bool,
    channel: Seq<char>,
)
    ensures
        ({
            let (asking, first) = crate::bus_router::router_next(
                RouterState::Idle,
                RouterEvent::Received { message: BusMessage::CancelRun { chat_id, run_id } },
                channel,
            );
            let answer = crate::bus_router::router_next(
                asking,
                RouterEvent::Decided { accepted },
                channel,
            );
            &&& first == (RouterAction::RequestCancelRun { chat_id, run_id })
            &&& answer.0 == RouterState::Idle
            &&& accepted ==> answer.1 == (RouterAction::ForwardCancelRun { chat_id, run_id })
            &&& !accepted ==> answer.1 == RouterAction::Wait
        }),
        ({
            let (asking, first) = crate::bus_router::router_next(
                RouterState::Idle,
                RouterEvent::Received { message: BusMessage::Steer { chat_id, run_id, content } },
                channel,
            );
            let answer = crate::bus_router::router_next(
                asking,
                RouterEvent::Decided { accepted },
                channel,
            );
            &&& first == (RouterAction::RequestSteer { chat_id, run_id })
            &&& answer.0 == RouterState::Idle
            &&& accepted ==> answer.1 == (RouterAction::ForwardSteer { chat_id, run_id, content })
            &&& !accepted ==> answer.1 == RouterAction::Wait
        }),
{
}

/// A message for the channel is handed to it at once, and a message that this bus does not carry is
/// passed over.
pub proof fn law_outbound_goes_to_the_channel(channel: Seq<char>)
    ensures
        crate::bus_router::router_next(
            RouterState::Idle,
            RouterEvent::Received { message: BusMessage::Outbound },
            channel,
        ) == (RouterState::Idle, RouterAction::DeliverOutbound),
        crate::bus_router::router_next(
            RouterState::Idle,
            RouterEvent::Received { message: BusMessage::Other },
            channel,
        ) == (RouterState::Idle, RouterAction::Wait),
{
}

/// An event that does not answer what is in hand does nothing: no message is taken while one is in
/// hand, and nothing but a message is taken while none is.
pub proof fn law_events_out_of_turn_do_nothing(
    state: RouterState,
    event: RouterEvent,
    channel: Seq<char>,
)
    requires
        state is Idle && !(event is Received) || !(state is Idle) && event is Received
            || event is Trusted && !(state is Trusting) || event is Sent && !(state is Forwarding)
            || event is Decided && (state is Trusting || state is Forwarding),
    ensures
        crate::bus_router::router_next(state, event, channel) == (state, RouterAction::Wait),
{
}

/// An item of the choices is a text.
pub open spec fn is_text() -> spec_fn(ChoiceItem) -> bool {
    |item: ChoiceItem| item is Text
}

/// The choices of a clarification are its items that are texts, each as it is and in order.
pub proof fn law_choices_are_the_texts(items: Seq<ChoiceItem>)
    ensures
        crate::bus_router::texts_of(items).len() == items.filter(is_text()).len(),
        forall|i: int|
            0 <= i < items.filter(is_text()).len() ==> #[trigger] items.filter(is_text())[i] == (
            ChoiceItem::Text { text: crate::bus_router::texts_of(items)[i] }),
    decreases items.len(),
{
    reveal(Seq::filter);
    if items.len() > 0 {
        let shorter = items.drop_last();
        law_choices_are_the_texts(shorter);
        let kept = shorter.filter(is_text());
        let all = items.filter(is_text());
        assert forall|i: int| 0 <= i < all.len() implies #[trigger] all[i] == (ChoiceItem::Text {
            text: crate::bus_router::texts_of(items)[i],
        }) by {
            if i < kept.len() {
                assert(all[i] == kept[i]);
            }
        }
    }
}

/// A message for the user reaches its chat with its content: a clarification with its choices and
/// its change, after which the run waits, and anything else as the assistant's, after which it does
/// not.
pub proof fn law_user_messages_are_surfaced(
    delivery: Delivery,
    chat_id: String,
    content: String,
    is_clarification: bool,
    choices: Option<Vec<ChoiceItem>>,
    edit_diff: Option<String>,
)
    requires
        crate::bus_router::is_delivery_of(
            delivery,
            AgentMessage::Outbound { chat_id, content, is_clarification, choices, edit_diff },
        ),
    ensures
        delivery matches Delivery::Surface { chat_id: to, event, mark_waiting } && {
            &&& to == chat_id
            &&& mark_waiting == is_clarification
            &&& is_clarification ==> (event matches UserEvent::Clarification {
                content: shown,
                choices: offered,
                edit_diff: diff,
            } && shown == content && diff == edit_diff && (choices is None ==> offered@.len() == 0)
                && (choices is Some ==> offered@.len() == choices->0@.filter(is_text()).len()))
            &&& !is_clarification ==> event == (UserEvent::Assistant { content })
        },
{
    if let Some(list) = choices {
        law_choices_are_the_texts(list@);
    }
}

/// A moment in the life of a run is kept under its own transition: a start starts the run, an end
/// ends it, and a warning or its clearing is one more event of it.
pub proof fn law_moments_are_kept_as_they_are(
    delivery: Delivery,
    moment: LifecycleMoment,
    chat_id: String,
    run_id: String,
)
    requires
        crate::bus_router::is_delivery_of(
            delivery,
            AgentMessage::Lifecycle { moment, chat_id, run_id },
        ),
    ensures
        delivery matches Delivery::Persist { chat_id: to, transition } && {
            &&& to == chat_id
            &&& moment == LifecycleMoment::Started <==> transition == (
            RunEventTransition::Started { run_id })
            &&& moment == LifecycleMoment::Terminated <==> transition == (
            RunEventTransition::Terminated { run_id })
            &&& moment == LifecycleMoment::Warning || moment == LifecycleMoment::WarningCleared
                <==> transition == (RunEventTransition::NextForRun { run_id })
        },
{
}

/// Telemetry that maps to no event is passed over. A system's event is emitted outside any run, and
/// any other is the next one of its chat; without a chat, of the nameless one.
pub proof fn law_telemetry_is_delivered_where_it_maps(
    delivery: Delivery,
    mapped: bool,
    system: bool,
    chat_id: Option<String>,
)
    requires
        crate::bus_router::is_delivery_of(
            delivery,
            AgentMessage::Telemetry { mapped, system, chat_id },
        ),
    ensures
        !mapped <==> delivery is Ignore,
        mapped && system <==> delivery is Emit,
        mapped && !system <==> delivery is DeliverNext,
        delivery matches Delivery::Emit { chat_id: to } ==> (chat_id is Some ==> to@
            == chat_id->0@) && (chat_id is None ==> to@.len() == 0),
        delivery matches Delivery::DeliverNext { chat_id: to } ==> (chat_id is Some ==> to@
            == chat_id->0@) && (chat_id is None ==> to@.len() == 0),
{
}

/// A piece of a reply and a snapshot of a session are emitted to their chat; what is not for
/// listeners is passed over.
pub proof fn law_pieces_are_emitted(
    first: Delivery,
    second: Delivery,
    third: Delivery,
    chat_id: String,
)
    requires
        crate::bus_router::is_delivery_of(first, AgentMessage::StreamDelta { chat_id }),
        crate::bus_router::is_delivery_of(second, AgentMessage::SessionProjection { chat_id }),
        crate::bus_router::is_delivery_of(third, AgentMessage::Other),
    ensures
        first == (Delivery::Emit { chat_id }),
        second == (Delivery::Emit { chat_id }),
        third == Delivery::Ignore,
{
}

} // verus!
