//! Link channel events and the filter that decides which reach a subscriber.

use vstd::prelude::*;
use vstd::string::*;
use crate::text::{lowercase, push_char, push_decimal, decimal_text, to_lowercase};

verus! {

/// An event broadcast to subscribers. Only the two link channel events are
/// told apart; every other event is `Other`.
pub enum ApiEvent {
    /// A message was sent on a link channel.
    AgentMessageSent {
        from_agent_id: String,
        to_agent_id: String,
        link_id: String,
        channel_id: String,
    },
    /// A message on a link channel was acknowledged.
    AgentMessageReceived {
        from_agent_id: String,
        to_agent_id: String,
        link_id: String,
        channel_id: String,
    },
    /// Any other event.
    Other,
}

/// An event as text.
pub enum ApiEventView {
    AgentMessageSent {
        from_agent_id: Seq<char>,
        to_agent_id: Seq<char>,
        link_id: Seq<char>,
        channel_id: Seq<char>,
    },
    AgentMessageReceived {
        from_agent_id: Seq<char>,
        to_agent_id: Seq<char>,
        link_id: Seq<char>,
        channel_id: Seq<char>,
    },
    Other,
}

impl View for ApiEvent {
    type V = ApiEventView;

    open spec fn view(&self) -> ApiEventView {
        match self {
            ApiEvent::AgentMessageSent { from_agent_id, to_agent_id, link_id, channel_id } =>
                ApiEventView::AgentMessageSent {
                from_agent_id: from_agent_id@,
                to_agent_id: to_agent_id@,
                link_id: link_id@,
                channel_id: channel_id@,
            },
            ApiEvent::AgentMessageReceived { from_agent_id, to_agent_id, link_id, channel_id } =>
                ApiEventView::AgentMessageReceived {
                from_agent_id: from_agent_id@,
                to_agent_id: to_agent_id@,
                link_id: link_id@,
                channel_id: channel_id@,
            },
            ApiEvent::Other => ApiEventView::Other,
        }
    }
}

/// What a subscriber asked to receive: the channel filter, already in lower
/// case, and the agent filter.
pub struct EventFilter {
    pub channel: Option<String>,
    pub agent: Option<String>,
}

/// The filter of a subscription: the channel filter is put in lower case.
pub fn event_filter(channel_id: Option<String>, agent_id: Option<String>) -> (r: EventFilter)
    ensures
        r.channel.deep_view() == match channel_id.deep_view() {
            Some(c) => Some(lowercase(c)),
            None => None,
        },
        r.agent.deep_view() == agent_id.deep_view(),
{
    let channel = match channel_id {
        Some(c) => Some(to_lowercase(c.as_str())),
        None => None,
    };
    EventFilter { channel, agent: agent_id }
}

/// A link event with this channel and these agents passes the filter: the
/// channel, in lower case, is the channel subscribed to (itself in lower case),
/// and the agent filter is one of the two agents; an absent filter passes
/// everything.
pub open spec fn link_event_passes(
    lowered_channel: Seq<char>,
    from: Seq<char>,
    to: Seq<char>,
    channel_filter: Option<Seq<char>>,
    agent_filter: Option<Seq<char>>,
) -> bool {
    &&& (channel_filter matches Some(cf) ==> lowered_channel == cf)
    &&& (agent_filter matches Some(af) ==> from == af || to == af)
}

/// An event reaches a subscriber with these filters: only link events do, and
/// only those that pass.
pub open spec fn event_passes(
    e: ApiEventView,
    channel_filter: Option<Seq<char>>,
    agent_filter: Option<Seq<char>>,
) -> bool {
    match e {
        ApiEventView::AgentMessageSent { from_agent_id, to_agent_id, channel_id, .. } =>
            link_event_passes(lowercase(channel_id), from_agent_id, to_agent_id, channel_filter, agent_filter),
        ApiEventView::AgentMessageReceived { from_agent_id, to_agent_id, channel_id, .. } =>
            link_event_passes(lowercase(channel_id), from_agent_id, to_agent_id, channel_filter, agent_filter),
        ApiEventView::Other => false,
    }
}

/// Law: an agent filter lets through the link events that agent sent and those
/// it received, and no other: with agent filter `af`, an event passes exactly
/// when it passes without the agent filter and `af` is its sender or receiver.
pub proof fn law_agent_filter_sent_or_received(
    lowered_channel: Seq<char>,
    from: Seq<char>,
    to: Seq<char>,
    channel_filter: Option<Seq<char>>,
    af: Seq<char>,
)
    ensures
        link_event_passes(lowered_channel, af, to, None, Some(af)),
        link_event_passes(lowered_channel, from, af, None, Some(af)),
        from != af && to != af ==> !link_event_passes(lowered_channel, from, to, channel_filter, Some(af)),
        link_event_passes(lowered_channel, from, to, channel_filter, Some(af)) == (link_event_passes(
            lowered_channel,
            from,
            to,
            channel_filter,
            None,
        ) && (from == af || to == af)),
{
}

/// Whether a link event passes the filter, given its channel already in lower case.
pub fn link_event_passes_lowered(
    lowered_channel: &str,
    from_agent_id: &str,
    to_agent_id: &str,
    filter: &EventFilter,
) -> (r: bool)
    ensures
        r == link_event_passes(
            lowered_channel@,
            from_agent_id@,
            to_agent_id@,
            filter.channel.deep_view(),
            filter.agent.deep_view(),
        ),
        filter.channel.deep_view() is None && filter.agent.deep_view() == Some(from_agent_id@) ==> r,
        filter.channel.deep_view() is None && filter.agent.deep_view() == Some(to_agent_id@) ==> r,
        (filter.agent.deep_view() matches Some(af) && af != from_agent_id@ && af != to_agent_id@)
            ==> !r,
{
    proof {
        match filter.agent.deep_view() {
            Some(af) => law_agent_filter_sent_or_received(
                lowered_channel@,
                from_agent_id@,
                to_agent_id@,
                filter.channel.deep_view(),
                af,
            ),
            None => {},
        }
    }
    let channel_match = match &filter.channel {
        Some(cf) => crate::text::str_eq(lowered_channel, cf.as_str()),
        None => true,
    };
    let agent_match = match &filter.agent {
        Some(af) => crate::text::str_eq(from_agent_id, af.as_str()) || crate::text::str_eq(
            to_agent_id,
            af.as_str(),
        ),
        None => true,
    };
    channel_match && agent_match
}

/// Whether `event` reaches a subscriber with `filter`.
pub fn should_send(event: &ApiEvent, filter: &EventFilter) -> (r: bool)
    ensures
        r == event_passes(event@, filter.channel.deep_view(), filter.agent.deep_view()),
{
    match event {
        ApiEvent::AgentMessageSent { from_agent_id, to_agent_id, channel_id, .. } => {
            let lowered = to_lowercase(channel_id.as_str());
            link_event_passes_lowered(lowered.as_str(), from_agent_id.as_str(), to_agent_id.as_str(), filter)
        },
        ApiEvent::AgentMessageReceived { from_agent_id, to_agent_id, channel_id, .. } => {
            let lowered = to_lowercase(channel_id.as_str());
            link_event_passes_lowered(lowered.as_str(), from_agent_id.as_str(), to_agent_id.as_str(), filter)
        },
        ApiEvent::Other => false,
    }
}

/// Law: a subscriber with no filter receives every link event and no other.
pub proof fn law_unfiltered_subscriber(e: ApiEventView)
    ensures
        event_passes(e, None, None) == !(e is Other),
{
}

/// The name under which an event is streamed to subscribers.
pub open spec fn event_type_name(e: ApiEventView) -> Seq<char> {
    match e {
        ApiEventView::AgentMessageSent { .. } => "link_message_sent"@,
        ApiEventView::AgentMessageReceived { .. } => "link_message_received"@,
        ApiEventView::Other => "link_event"@,
    }
}

/// `link_message_sent`, `link_message_received`, or `link_event` for any other event.
pub fn event_type(event: &ApiEvent) -> (r: &'static str)
    ensures
        r@ == event_type_name(event@),
{
    match event {
        ApiEvent::AgentMessageSent { .. } => "link_message_sent",
        ApiEvent::AgentMessageReceived { .. } => "link_message_received",
        ApiEvent::Other => "link_event",
    }
}

/// The data of the notice sent to a subscriber that fell behind:
/// `{"skipped":<count>}`.
pub open spec fn lagged_data(count: nat) -> Seq<char> {
    "{\"skipped\":"@ + decimal_text(count) + seq!['}']
}

/// Builds the notice data for a subscriber that missed `count` events.
pub fn lagged_notice(count: u64) -> (r: String)
    ensures
        r@ == lagged_data(count as nat),
{
    let mut r = String::new();
    r.append("{\"skipped\":");
    push_decimal(&mut r, count);
    push_char(&mut r, '}');
    assert(r@ =~= lagged_data(count as nat));
    r
}

} // verus!
