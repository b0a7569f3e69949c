//! Acknowledging a link channel message: what is checked, and what is written
//! and announced.

use vstd::prelude::*;
use crate::channel::{
    channel_from, channel_to, format_link_channel, format_link_label, is_link_channel,
    law_reversed_channel, link_channel_id, link_label, parse_link_channel, reversed_channel,
};
use crate::events::{ApiEvent, ApiEventView};
use crate::messages::{
    ack_content, contains_message, format_ack_content, has_message, is_ack_record_for,
    is_acknowledged, rfc3339_text, stored_views, ConversationMessage, ConversationMessageView,
    MessageTime,
};
use crate::validation::{is_ack_status_name, is_valid_ack_status, ApiError};

verus! {

/// A request to acknowledge a message.
pub struct AcknowledgeMessageRequest {
    /// The id of the message acknowledged.
    pub message_id: String,
    /// Link channel identifier, `link:<sender>:<receiver>`.
    pub channel_id: String,
    /// `delivered`, `read` or `processed`.
    pub status: String,
}

/// The answer to an acknowledgment.
pub struct AcknowledgeMessageResponse {
    pub success: bool,
    pub message_id: String,
    pub acknowledged_at: String,
}

/// What an acknowledgment writes and announces: the system message `content`
/// goes into the channel and into the reverse channel, `event` is broadcast,
/// and `response` answers the request.
pub struct AckPlan {
    pub content: String,
    pub channel_id: String,
    pub reverse_channel_id: String,
    pub event: ApiEvent,
    pub response: AcknowledgeMessageResponse,
}

/// An acknowledgment plan as text.
pub struct AckPlanView {
    pub content: Seq<char>,
    pub channel_id: Seq<char>,
    pub reverse_channel_id: Seq<char>,
    pub event: ApiEventView,
    pub success: bool,
    pub message_id: Seq<char>,
    pub acknowledged_at: Seq<char>,
}

impl View for AckPlan {
    type V = AckPlanView;

    open spec fn view(&self) -> AckPlanView {
        AckPlanView {
            content: self.content@,
            channel_id: self.channel_id@,
            reverse_channel_id: self.reverse_channel_id@,
            event: self.event@,
            success: self.response.success,
            message_id: self.response.message_id@,
            acknowledged_at: self.response.acknowledged_at@,
        }
    }
}

/// An acknowledgment is refused for a malformed channel or an unknown status.
pub open spec fn ack_refused(channel: Seq<char>, status: Seq<char>) -> bool {
    !is_link_channel(channel) || !is_ack_status_name(status)
}

/// Why an acknowledgment is refused, if it is, given the channel's messages:
/// a malformed channel or an unknown status (`BadRequest`), or no message with
/// the id acknowledged (`NotFound`).
pub open spec fn ack_refusal(
    message_id: Seq<char>,
    channel: Seq<char>,
    status: Seq<char>,
    msgs: Seq<ConversationMessageView>,
) -> Option<ApiError> {
    if ack_refused(channel, status) {
        Some(ApiError::BadRequest)
    } else if !has_message(msgs, message_id) {
        Some(ApiError::NotFound)
    } else {
        None
    }
}

/// The plan of an accepted acknowledgment made at `acknowledged_at`. The
/// channel's first agent is the sender of the message, its second the receiver.
pub open spec fn ack_plan_of(
    message_id: Seq<char>,
    channel: Seq<char>,
    status: Seq<char>,
    acknowledged_at: Seq<char>,
) -> AckPlanView {
    let sender = channel_from(channel);
    let receiver = channel_to(channel);
    AckPlanView {
        content: ack_content(message_id, status),
        channel_id: channel,
        reverse_channel_id: link_channel_id(receiver, sender),
        event: ApiEventView::AgentMessageReceived {
            from_agent_id: sender,
            to_agent_id: receiver,
            link_id: link_label(sender, receiver),
            channel_id: channel,
        },
        success: true,
        message_id,
        acknowledged_at,
    }
}

/// Checks an acknowledgment's channel and status, before its channel is read.
pub fn check_ack_request(request: &AcknowledgeMessageRequest) -> (r: Result<(), ApiError>)
    ensures
        r is Err <==> ack_refused(request.channel_id@, request.status@),
        r matches Err(e) ==> e == ApiError::BadRequest,
{
    if !crate::channel::is_valid_link_channel(request.channel_id.as_str()) || !is_valid_ack_status(
        request.status.as_str(),
    ) {
        return Err(ApiError::BadRequest);
    }
    Ok(())
}

/// Checks an acknowledgment against the channel's `messages` and plans it,
/// stamped with `acknowledged_at`.
pub fn plan_acknowledgment_at(
    request: &AcknowledgeMessageRequest,
    messages: &Vec<ConversationMessage>,
    acknowledged_at: String,
) -> (r: Result<AckPlan, ApiError>)
    ensures
        r is Err <==> ack_refusal(
            request.message_id@,
            request.channel_id@,
            request.status@,
            stored_views(messages@),
        ) is Some,
        r matches Err(e) ==> ack_refusal(
            request.message_id@,
            request.channel_id@,
            request.status@,
            stored_views(messages@),
        ) == Some(e),
        r matches Ok(plan) ==> plan@ == ack_plan_of(
            request.message_id@,
            request.channel_id@,
            request.status@,
            acknowledged_at@,
        ),
{
    let (sender, receiver) = match parse_link_channel(request.channel_id.as_str()) {
        Some(p) => p,
        None => {
            return Err(ApiError::BadRequest);
        },
    };
    if !is_valid_ack_status(request.status.as_str()) {
        return Err(ApiError::BadRequest);
    }
    if !contains_message(messages, request.message_id.as_str()) {
        return Err(ApiError::NotFound);
    }
    let content = format_ack_content(request.message_id.as_str(), request.status.as_str());
    let reverse_channel_id = format_link_channel(receiver.as_str(), sender.as_str());
    let link_id = format_link_label(sender.as_str(), receiver.as_str());
    let event = ApiEvent::AgentMessageReceived {
        from_agent_id: sender,
        to_agent_id: receiver,
        link_id,
        channel_id: request.channel_id.clone(),
    };
    let response = AcknowledgeMessageResponse {
        success: true,
        message_id: request.message_id.clone(),
        acknowledged_at,
    };
    Ok(
        AckPlan {
            content,
            channel_id: request.channel_id.clone(),
            reverse_channel_id,
            event,
            response,
        },
    )
}

/// The text ends with the UTC offset `+00:00`.
pub open spec fn ends_in_utc(s: Seq<char>) -> bool {
    s.len() >= 25 && s.subrange(s.len() - 6, s.len() as int) == "+00:00"@
}

/// The text is what chrono writes for some time it can hold.
pub open spec fn is_time_text(s: Seq<char>) -> bool {
    exists|t: MessageTime| t.in_range() && s == rfc3339_text(t.secs as int, t.nanos as int)
}

/// Calls chrono's `Utc::now` and writes it with `to_rfc3339`. Claimed: the
/// text is at least 25 characters long, ends with `+00:00`, and is the text
/// `rfc3339_text` of some time chrono can hold (a `DateTime<Utc>` round-trips
/// through its timestamp and nanoseconds); which time is the clock's.
#[verifier::external_body]
fn now_rfc3339() -> (r: String)
    ensures
        ends_in_utc(r@),
        is_time_text(r@),
{
    chrono::Utc::now().to_rfc3339()
}

/// Checks an acknowledgment against the channel's `messages` and plans it,
/// stamped with the current time.
pub fn plan_acknowledgment(
    request: &AcknowledgeMessageRequest,
    messages: &Vec<ConversationMessage>,
) -> (r: Result<AckPlan, ApiError>)
    ensures
        r is Err <==> ack_refusal(
            request.message_id@,
            request.channel_id@,
            request.status@,
            stored_views(messages@),
        ) is Some,
        r matches Err(e) ==> ack_refusal(
            request.message_id@,
            request.channel_id@,
            request.status@,
            stored_views(messages@),
        ) == Some(e),
        r matches Ok(plan) ==> plan@ == ack_plan_of(
            request.message_id@,
            request.channel_id@,
            request.status@,
            plan.response.acknowledged_at@,
        ) && ends_in_utc(plan.response.acknowledged_at@) && is_time_text(
            plan.response.acknowledged_at@,
        ),
{
    let now = now_rfc3339();
    plan_acknowledgment_at(request, messages, now)
}

/// Law: once the record an accepted acknowledgment writes stands among a
/// channel's messages, the acknowledged message reads as acknowledged there.
pub proof fn law_acknowledged_after_ack(
    message_id: Seq<char>,
    channel: Seq<char>,
    status: Seq<char>,
    acknowledged_at: Seq<char>,
    msgs: Seq<ConversationMessageView>,
    j: int,
)
    requires
        !ack_refused(channel, status),
        0 <= j < msgs.len(),
        msgs[j].content == ack_plan_of(message_id, channel, status, acknowledged_at).content,
    ensures
        is_ack_record_for(msgs[j].content, message_id),
        is_acknowledged(msgs, message_id),
{
}

/// Law: an accepted acknowledgment is recorded in the channel and in the same
/// channel seen from the other side, and announces the channel's first agent as
/// the sender and its second as the receiver.
pub proof fn law_ack_recorded_both_directions(
    message_id: Seq<char>,
    channel: Seq<char>,
    status: Seq<char>,
    acknowledged_at: Seq<char>,
)
    requires
        !ack_refused(channel, status),
    ensures
        ({
            let plan = ack_plan_of(message_id, channel, status, acknowledged_at);
            &&& plan.channel_id == channel
            &&& plan.reverse_channel_id == reversed_channel(channel)
            &&& is_link_channel(plan.reverse_channel_id)
            &&& plan.event == (ApiEventView::AgentMessageReceived {
                from_agent_id: channel_from(channel),
                to_agent_id: channel_to(channel),
                link_id: link_label(channel_from(channel), channel_to(channel)),
                channel_id: channel,
            })
        }),
{
    law_reversed_channel(channel);
}

} // verus!
