//! Validation of request parameters, and the defaults that requests fall back to.

use vstd::prelude::*;
use crate::channel::{is_link_channel, is_valid_link_channel};
use crate::text::{alphanumeric, chars_of, is_alphanumeric, owned, str_eq};

verus! {

/// Why a request is refused; each kind answers with its own HTTP status.
#[derive(Clone, Copy, Debug, PartialEq, Eq, Structural)]
pub enum ApiError {
    BadRequest,
    Forbidden,
    NotFound,
    InternalServerError,
}

impl ApiError {
    /// The HTTP status code of the refusal.
    pub fn status_code(&self) -> (r: u16)
        ensures
            r == match *self {
                ApiError::BadRequest => 400u16,
                ApiError::Forbidden => 403u16,
                ApiError::NotFound => 404u16,
                ApiError::InternalServerError => 500u16,
            },
    {
        match self {
            ApiError::BadRequest => 400,
            ApiError::Forbidden => 403,
            ApiError::NotFound => 404,
            ApiError::InternalServerError => 500,
        }
    }
}

/// A character a sender filter may hold: alphanumeric, `-` or `_`.
pub open spec fn is_sender_char(c: char) -> bool {
    alphanumeric(c) || c == '-' || c == '_'
}

/// A sender filter: not empty, and made of sender characters only.
pub open spec fn is_sender_filter(s: Seq<char>) -> bool {
    &&& s.len() > 0
    &&& forall|i: int| 0 <= i < s.len() ==> is_sender_char(#[trigger] s[i])
}

/// Whether `sender` is an acceptable sender filter.
pub fn is_valid_sender(sender: &str) -> (r: bool)
    ensures
        r == is_sender_filter(sender@),
{
    let v = chars_of(sender);
    if v.len() == 0 {
        return false;
    }
    let mut i: usize = 0;
    while i < v.len()
        invariant
            v@ == sender@,
            i <= v.len(),
            forall|j: int| 0 <= j < i ==> is_sender_char(#[trigger] v@[j]),
        decreases v.len() - i,
    {
        let c = v[i];
        if !(is_alphanumeric(c) || c == '-' || c == '_') {
            assert(!is_sender_char(v@[i as int]));
            return false;
        }
        i = i + 1;
    }
    true
}

/// The message roles a filter may name.
pub open spec fn is_role_name(r: Seq<char>) -> bool {
    r == "user"@ || r == "assistant"@ || r == "system"@
}

/// Whether `role` is `user`, `assistant` or `system`.
pub fn is_valid_role(role: &str) -> (r: bool)
    ensures
        r == is_role_name(role@),
{
    str_eq(role, "user") || str_eq(role, "assistant") || str_eq(role, "system")
}

/// The kinds of message that may be sent on a link channel.
pub open spec fn is_message_type_name(t: Seq<char>) -> bool {
    t == "text"@ || t == "task_delegation"@ || t == "acknowledgment"@ || t == "status_update"@
}

/// Whether `message_type` is `text`, `task_delegation`, `acknowledgment` or `status_update`.
pub fn is_valid_message_type(message_type: &str) -> (r: bool)
    ensures
        r == is_message_type_name(message_type@),
{
    str_eq(message_type, "text") || str_eq(message_type, "task_delegation") || str_eq(
        message_type,
        "acknowledgment",
    ) || str_eq(message_type, "status_update")
}

/// The statuses an acknowledgment may report.
pub open spec fn is_ack_status_name(s: Seq<char>) -> bool {
    s == "delivered"@ || s == "read"@ || s == "processed"@
}

/// Whether `status` is `delivered`, `read` or `processed`.
pub fn is_valid_ack_status(status: &str) -> (r: bool)
    ensures
        r == is_ack_status_name(status@),
{
    str_eq(status, "delivered") || str_eq(status, "read") || str_eq(status, "processed")
}

/// The page size that a request asks for, held to `1..=100`.
pub open spec fn clamped_limit(limit: int) -> int {
    if limit > 100 {
        100
    } else if limit < 1 {
        1
    } else {
        limit
    }
}

/// Holds a requested page size to `1..=100` (`limit.min(100).max(1)`).
pub fn clamp_limit(limit: i64) -> (r: i64)
    ensures
        r == clamped_limit(limit as int),
{
    let capped = if limit < 100 { limit } else { 100 };
    if capped > 1 { capped } else { 1 }
}

/// The page size of a message listing that names none: 20.
pub fn default_message_limit() -> (r: i64)
    ensures
        r == 20,
{
    20
}

/// The message type of a send request that names none: `text`.
pub fn default_message_type() -> (r: String)
    ensures
        r@ == "text"@,
{
    owned("text")
}

/// The status of an acknowledgment that names none: `delivered`.
pub fn default_ack_status() -> (r: String)
    ensures
        r@ == "delivered"@,
{
    owned("delivered")
}

/// Law: every default stands among the values it is checked against: the
/// default page size is kept as it is, the default message type is a valid
/// type, and the default acknowledgment status is a valid status.
pub proof fn law_defaults_are_valid()
    ensures
        clamped_limit(20) == 20,
        is_message_type_name("text"@),
        is_ack_status_name("delivered"@),
{
}

/// Law: a clamped page size lies in `1..=100`, and clamping it again keeps it.
pub proof fn law_clamp_limit(limit: int)
    ensures
        1 <= clamped_limit(limit) <= 100,
        clamped_limit(clamped_limit(limit)) == clamped_limit(limit),
        1 <= limit <= 100 ==> clamped_limit(limit) == limit,
{
}

/// The parameters of a message listing.
pub struct LinkMessagesQuery {
    /// Link channel identifier, such as `link:orchestrator:nexus`.
    pub channel_id: String,
    /// Most messages to return (held to `1..=100`).
    pub limit: i64,
    /// Only messages of this role.
    pub role: Option<String>,
    /// Only messages whose sender id or name holds this text.
    pub sender: Option<String>,
    /// Only messages before this RFC 3339 time.
    pub before: Option<String>,
    /// Only messages after this RFC 3339 time.
    pub after: Option<String>,
    /// Oldest first instead of newest first.
    pub oldest_first: bool,
}

/// A listing is refused for a malformed channel, sender filter or role filter.
pub open spec fn list_query_refused(
    channel_id: Seq<char>,
    role: Option<Seq<char>>,
    sender: Option<Seq<char>>,
) -> bool {
    ||| !is_link_channel(channel_id)
    ||| (sender matches Some(s) && !is_sender_filter(s))
    ||| (role matches Some(r) && !is_role_name(r))
}

/// Checks a listing's parameters; on success gives the page size to use.
pub fn check_list_query(query: &LinkMessagesQuery) -> (r: Result<i64, ApiError>)
    ensures
        r is Err <==> list_query_refused(
            query.channel_id@,
            query.role.deep_view(),
            query.sender.deep_view(),
        ),
        r matches Err(e) ==> e == ApiError::BadRequest,
        r matches Ok(limit) ==> limit == clamped_limit(query.limit as int),
{
    if !is_valid_link_channel(query.channel_id.as_str()) {
        return Err(ApiError::BadRequest);
    }
    match &query.sender {
        Some(sender) => {
            if !is_valid_sender(sender.as_str()) {
                return Err(ApiError::BadRequest);
            }
        },
        None => {},
    }
    match &query.role {
        Some(role) => {
            if !is_valid_role(role.as_str()) {
                return Err(ApiError::BadRequest);
            }
        },
        None => {},
    }
    Ok(clamp_limit(query.limit))
}

/// The parameters of a message search.
pub struct LinkMessageSearchQuery {
    /// Link channel identifier to search in.
    pub channel_id: String,
    /// Text that the content must hold, compared in lower case.
    pub q: Option<String>,
    /// Only messages of this role.
    pub role: Option<String>,
    /// Only messages of this sender id.
    pub sender_id: Option<String>,
    /// Most messages to read (held to `1..=100`).
    pub limit: i64,
}

/// Checks a search's parameters; on success gives the number of messages to read.
pub fn check_search_query(query: &LinkMessageSearchQuery) -> (r: Result<i64, ApiError>)
    ensures
        r is Err <==> !is_link_channel(query.channel_id@),
        r matches Err(e) ==> e == ApiError::BadRequest,
        r matches Ok(limit) ==> limit == clamped_limit(query.limit as int),
{
    if !is_valid_link_channel(query.channel_id.as_str()) {
        return Err(ApiError::BadRequest);
    }
    Ok(clamp_limit(query.limit))
}

/// Checks a status request's channel, before the channel is read.
pub fn check_status_request(channel_id: &str) -> (r: Result<(), ApiError>)
    ensures
        r is Err <==> !is_link_channel(channel_id@),
        r matches Err(e) ==> e == ApiError::BadRequest,
{
    if !is_valid_link_channel(channel_id) {
        return Err(ApiError::BadRequest);
    }
    Ok(())
}

} // verus!
