//! Sending a message on a link channel: what is checked, and what is written
//! and announced when the send goes through.

use vstd::prelude::*;
use crate::channel::{
    channel_from, channel_to, format_link_channel, format_link_label, is_link_channel,
    law_reversed_channel, link_channel_id, link_label, parse_link_channel, reversed_channel,
};
use crate::events::{ApiEvent, ApiEventView};
use crate::links::{
    display_name_for, display_name_of, find_link, first_connecting, config_views, connects,
    link_views, may_send, sending_allowed, AgentConfig, AgentLink, AgentLinkView, AgentConfigView,
};
use crate::text::{is_blank, is_blank_text};
use crate::validation::{is_message_type_name, is_valid_message_type, ApiError};

verus! {

/// A request to send a message on a link channel.
pub struct SendLinkMessageRequest {
    /// Link channel identifier, such as `link:orchestrator:nexus`; its first
    /// agent is the sender.
    pub channel_id: String,
    /// The message.
    pub content: String,
    /// `text`, `task_delegation`, `acknowledgment` or `status_update`.
    pub message_type: String,
}

/// The answer to a send that went through.
pub struct SendLinkMessageResponse {
    pub success: bool,
    pub message_id: String,
    pub channel_id: String,
    pub delivered_to: Option<String>,
}

/// What a send writes and announces: the message from `from_display`
/// (`from_agent_id`) goes into the sender's channel and into the receiver's
/// channel, both copies under the id `response.message_id`; `event` is
/// broadcast, and `response` answers the request.
pub struct SendPlan {
    pub from_agent_id: String,
    pub to_agent_id: String,
    pub from_display: String,
    pub sender_channel_id: String,
    pub receiver_channel_id: String,
    pub content: String,
    pub message_type: String,
    pub event: ApiEvent,
    pub response: SendLinkMessageResponse,
}

/// A send plan as text.
pub struct SendPlanView {
    pub from_agent_id: Seq<char>,
    pub to_agent_id: Seq<char>,
    pub from_display: Seq<char>,
    pub sender_channel_id: Seq<char>,
    pub receiver_channel_id: Seq<char>,
    pub content: Seq<char>,
    pub message_type: Seq<char>,
    pub event: ApiEventView,
    pub success: bool,
    pub message_id: Seq<char>,
    pub response_channel_id: Seq<char>,
    pub delivered_to: Option<Seq<char>>,
}

impl View for SendPlan {
    type V = SendPlanView;

    open spec fn view(&self) -> SendPlanView {
        SendPlanView {
            from_agent_id: self.from_agent_id@,
            to_agent_id: self.to_agent_id@,
            from_display: self.from_display@,
            sender_channel_id: self.sender_channel_id@,
            receiver_channel_id: self.receiver_channel_id@,
            content: self.content@,
            message_type: self.message_type@,
            event: self.event@,
            success: self.response.success,
            message_id: self.response.message_id@,
            response_channel_id: self.response.channel_id@,
            delivered_to: self.response.delivered_to.deep_view(),
        }
    }
}

/// The first link that joins the two agents of `channel`.
pub open spec fn link_of_channel(links: Seq<AgentLinkView>, channel: Seq<char>) -> AgentLinkView {
    let i = choose|i: int| first_connecting(links, channel_from(channel), channel_to(channel), i);
    links[i]
}

/// Why a send is refused, if it is: a malformed channel, an unknown message
/// type or blank content (`BadRequest`); no link between the channel's agents
/// (`NotFound`); a one-way link whose `from` agent is not the sender (`Forbidden`).
pub open spec fn send_refusal(
    channel: Seq<char>,
    content: Seq<char>,
    message_type: Seq<char>,
    links: Seq<AgentLinkView>,
) -> Option<ApiError> {
    if !is_link_channel(channel) || !is_message_type_name(message_type) || is_blank_text(content) {
        Some(ApiError::BadRequest)
    } else if forall|i: int| 0 <= i < links.len() ==> !connects(#[trigger] links[i], channel_from(channel), channel_to(channel)) {
        Some(ApiError::NotFound)
    } else if !may_send(link_of_channel(links, channel), channel_from(channel)) {
        Some(ApiError::Forbidden)
    } else {
        None
    }
}

/// The plan of an accepted send with message id `message_id`.
pub open spec fn send_plan_of(
    channel: Seq<char>,
    content: Seq<char>,
    message_type: Seq<char>,
    configs: Seq<AgentConfigView>,
    message_id: Seq<char>,
) -> SendPlanView {
    let from = channel_from(channel);
    let to = channel_to(channel);
    SendPlanView {
        from_agent_id: from,
        to_agent_id: to,
        from_display: display_name_of(configs, from),
        sender_channel_id: channel,
        receiver_channel_id: link_channel_id(to, from),
        content,
        message_type,
        event: ApiEventView::AgentMessageSent {
            from_agent_id: from,
            to_agent_id: to,
            link_id: link_label(from, to),
            channel_id: channel,
        },
        success: true,
        message_id,
        response_channel_id: channel,
        delivered_to: Some(to),
    }
}

/// Checks a send request against the links and plans it, the new message
/// taking the id `message_id`.
pub fn plan_send_with_id(
    request: &SendLinkMessageRequest,
    links: &Vec<AgentLink>,
    configs: &Vec<AgentConfig>,
    message_id: String,
) -> (r: Result<SendPlan, ApiError>)
    ensures
        r is Err <==> send_refusal(
            request.channel_id@,
            request.content@,
            request.message_type@,
            link_views(links@),
        ) is Some,
        r matches Err(e) ==> send_refusal(
            request.channel_id@,
            request.content@,
            request.message_type@,
            link_views(links@),
        ) == Some(e),
        r matches Ok(plan) ==> plan@ == send_plan_of(
            request.channel_id@,
            request.content@,
            request.message_type@,
            config_views(configs@),
            message_id@,
        ),
        r matches Ok(plan) ==> plan.message_type@ == request.message_type@ && plan.content@
            == request.content@ && plan.response.message_id@ == message_id@,
{
    let ghost lv = link_views(links@);
    let parts = parse_link_channel(request.channel_id.as_str());
    let (from, to) = match parts {
        Some(p) => p,
        None => {
            return Err(ApiError::BadRequest);
        },
    };
    if !is_valid_message_type(request.message_type.as_str()) {
        return Err(ApiError::BadRequest);
    }
    if is_blank(request.content.as_str()) {
        return Err(ApiError::BadRequest);
    }
    let index = match find_link(links, from.as_str(), to.as_str()) {
        Some(i) => i,
        None => {
            return Err(ApiError::NotFound);
        },
    };
    proof {
        let ch = request.channel_id@;
        let k = choose|k: int| first_connecting(lv, channel_from(ch), channel_to(ch), k);
        assert(first_connecting(lv, channel_from(ch), channel_to(ch), index as int));
        if k < index {
            assert(!connects(lv[k], channel_from(ch), channel_to(ch)));
        } else if k > index {
            assert(!connects(lv[index as int], channel_from(ch), channel_to(ch)));
        }
        assert(link_of_channel(lv, ch) == links@[index as int]@);
    }
    if !sending_allowed(&links[index], from.as_str()) {
        return Err(ApiError::Forbidden);
    }
    let from_display = display_name_for(configs, from.as_str());
    let receiver_channel_id = format_link_channel(to.as_str(), from.as_str());
    let link_id = format_link_label(from.as_str(), to.as_str());
    let event = ApiEvent::AgentMessageSent {
        from_agent_id: from.clone(),
        to_agent_id: to.clone(),
        link_id,
        channel_id: request.channel_id.clone(),
    };
    let response = SendLinkMessageResponse {
        success: true,
        message_id,
        channel_id: request.channel_id.clone(),
        delivered_to: Some(to.clone()),
    };
    Ok(
        SendPlan {
            from_agent_id: from,
            to_agent_id: to,
            from_display,
            sender_channel_id: request.channel_id.clone(),
            receiver_channel_id,
            content: request.content.clone(),
            message_type: request.message_type.clone(),
            event,
            response,
        },
    )
}

/// A lower-case hexadecimal digit.
pub open spec fn is_lower_hex(c: char) -> bool {
    ('0' <= c && c <= '9') || ('a' <= c && c <= 'f')
}

/// The hyphenated lower-case text of a version 4 UUID, such as
/// `67e55044-10b1-426f-9247-bb680e5fe0c8`.
pub open spec fn is_v4_uuid_text(s: Seq<char>) -> bool {
    &&& s.len() == 36
    &&& forall|i: int|
        0 <= i < 36 ==> if i == 8 || i == 13 || i == 18 || i == 23 {
            s[i] == '-'
        } else {
            is_lower_hex(#[trigger] s[i])
        }
    &&& s[14] == '4'
    &&& (s[19] == '8' || s[19] == '9' || s[19] == 'a' || s[19] == 'b')
}

/// Calls uuid's `Uuid::new_v4` and writes it with `to_string`. Claimed: the text
/// is a hyphenated lower-case version 4 UUID; which one is left to chance.
#[verifier::external_body]
fn new_message_id() -> (r: String)
    ensures
        is_v4_uuid_text(r@),
{
    uuid::Uuid::new_v4().to_string()
}

/// Checks a send request against the links and plans it under a fresh random
/// message id.
pub fn plan_send(
    request: &SendLinkMessageRequest,
    links: &Vec<AgentLink>,
    configs: &Vec<AgentConfig>,
) -> (r: Result<SendPlan, ApiError>)
    ensures
        r is Err <==> send_refusal(
            request.channel_id@,
            request.content@,
            request.message_type@,
            link_views(links@),
        ) is Some,
        r matches Err(e) ==> send_refusal(
            request.channel_id@,
            request.content@,
            request.message_type@,
            link_views(links@),
        ) == Some(e),
        r matches Ok(plan) ==> plan@ == send_plan_of(
            request.channel_id@,
            request.content@,
            request.message_type@,
            config_views(configs@),
            plan.response.message_id@,
        ) && is_v4_uuid_text(plan.response.message_id@),
        r matches Ok(plan) ==> plan.message_type@ == request.message_type@ && plan.content@
            == request.content@,
{
    let message_id = new_message_id();
    plan_send_with_id(request, links, configs, message_id)
}


/// Law: an accepted send passes the request on unchanged: the message written
/// is the request's content, its type is the request's message type (whichever
/// of the accepted types it is), it goes under the given id, and it is written
/// in the request's channel.
pub proof fn law_send_keeps_request(
    channel: Seq<char>,
    content: Seq<char>,
    message_type: Seq<char>,
    configs: Seq<AgentConfigView>,
    message_id: Seq<char>,
)
    ensures
        send_plan_of(channel, content, message_type, configs, message_id).message_type == message_type,
        send_plan_of(channel, content, message_type, configs, message_id).content == content,
        send_plan_of(channel, content, message_type, configs, message_id).message_id == message_id,
        send_plan_of(channel, content, message_type, configs, message_id).sender_channel_id == channel,
{
}

/// Law: an accepted send writes the message into both directions of the link:
/// the sender's channel is the request's channel, the receiver's channel is the
/// same channel seen from the other side, and the message is delivered to the
/// channel's second agent.
pub proof fn law_send_writes_both_directions(
    channel: Seq<char>,
    content: Seq<char>,
    message_type: Seq<char>,
    links: Seq<AgentLinkView>,
    configs: Seq<AgentConfigView>,
    message_id: Seq<char>,
)
    requires
        send_refusal(channel, content, message_type, links) is None,
    ensures
        ({
            let plan = send_plan_of(channel, content, message_type, configs, message_id);
            &&& plan.sender_channel_id == channel
            &&& plan.receiver_channel_id == reversed_channel(channel)
            &&& is_link_channel(plan.receiver_channel_id)
            &&& channel_from(plan.receiver_channel_id) == plan.to_agent_id
            &&& channel_to(plan.receiver_channel_id) == plan.from_agent_id
            &&& plan.delivered_to == Some(plan.to_agent_id)
        }),
{
    law_reversed_channel(channel);
}

/// Law: once a send is well formed and its agents are joined by a link, the
/// link's direction decides: a two-way link accepts the send from either agent,
/// a one-way link accepts it from its `from` agent and refuses it (`Forbidden`)
/// from the other.
pub proof fn law_link_direction_decides(
    channel: Seq<char>,
    content: Seq<char>,
    message_type: Seq<char>,
    links: Seq<AgentLinkView>,
)
    requires
        is_link_channel(channel),
        is_message_type_name(message_type),
        !is_blank_text(content),
        exists|i: int| first_connecting(links, channel_from(channel), channel_to(channel), i),
    ensures
        link_of_channel(links, channel).direction == crate::links::LinkDirection::TwoWay ==> send_refusal(
            channel,
            content,
            message_type,
            links,
        ) is None,
        link_of_channel(links, channel).direction == crate::links::LinkDirection::OneWay ==> (
        send_refusal(channel, content, message_type, links) is None <==> link_of_channel(
            links,
            channel,
        ).from == channel_from(channel)),
        link_of_channel(links, channel).direction == crate::links::LinkDirection::OneWay
            && link_of_channel(links, channel).from != channel_from(channel) ==> send_refusal(
            channel,
            content,
            message_type,
            links,
        ) == Some(ApiError::Forbidden),
{
    let i = choose|i: int| first_connecting(links, channel_from(channel), channel_to(channel), i);
    assert(connects(links[i], channel_from(channel), channel_to(channel)));
}

} // verus!
