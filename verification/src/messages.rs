//! Stored conversation messages, their rendering for link channel clients, and
//! the paging, filtering, search and status answers built from them.

use vstd::prelude::*;
use vstd::string::*;
use crate::text::{contains_str, has_substring, lowercase, occurs_at, str_eq, to_lowercase};
use crate::validation::ApiError;

verus! {

/// A point in time as seconds and nanoseconds since 1970-01-01T00:00:00Z.
#[derive(Clone, Copy, Debug, PartialEq, Eq)]
pub struct MessageTime {
    pub secs: i64,
    pub nanos: u32,
}

impl MessageTime {
    /// The time is one that chrono's `DateTime<Utc>` can hold: between
    /// -262143-01-01T00:00:00Z and +262142-12-31T23:59:59Z, with nanoseconds
    /// below one second, or below two seconds on the last second of a minute
    /// (a leap second).
    pub open spec fn in_range(self) -> bool {
        &&& -8334601228800 <= self.secs <= 8210266876799
        &&& (self.nanos < 1_000_000_000 || (self.nanos < 2_000_000_000 && self.secs % 60 == 59))
    }
}

/// What chrono's `DateTime::<Utc>::to_rfc3339` writes for the time
/// `secs` seconds and `nanos` nanoseconds after 1970-01-01T00:00:00Z.
pub uninterp spec fn rfc3339_text(secs: int, nanos: int) -> Seq<char>;

/// Calls chrono's `DateTime::<Utc>::from_timestamp`, then `to_rfc3339` on the time.
/// Claimed: there is a time exactly when `from_timestamp` accepts the arguments
/// (`MessageTime::in_range`), and its text is `rfc3339_text` of the arguments.
#[verifier::external_body]
fn format_rfc3339(secs: i64, nanos: u32) -> (r: Option<String>)
    ensures
        r matches Some(t) ==> t@ == rfc3339_text(secs as int, nanos as int),
        r is Some <==> (MessageTime { secs, nanos }).in_range(),
{
    match chrono::DateTime::<chrono::Utc>::from_timestamp(secs, nanos) {
        Some(t) => Some(t.to_rfc3339()),
        None => None,
    }
}

/// The RFC 3339 text of a time, such as `2024-05-01T12:00:00+00:00`. Every
/// time taken from a chrono `DateTime<Utc>` is in range.
pub fn time_text(t: MessageTime) -> (r: String)
    requires
        t.in_range(),
    ensures
        r@ == rfc3339_text(t.secs as int, t.nanos as int),
{
    match format_rfc3339(t.secs, t.nanos) {
        Some(s) => s,
        None => String::new(),
    }
}

/// A message as the conversation store holds it.
pub struct ConversationMessage {
    pub id: String,
    pub channel_id: String,
    pub role: String,
    pub sender_name: Option<String>,
    pub sender_id: Option<String>,
    pub content: String,
    pub metadata: Option<String>,
    pub created_at: MessageTime,
}

/// A stored message as text.
pub struct ConversationMessageView {
    pub id: Seq<char>,
    pub channel_id: Seq<char>,
    pub role: Seq<char>,
    pub sender_name: Option<Seq<char>>,
    pub sender_id: Option<Seq<char>>,
    pub content: Seq<char>,
    pub metadata: Option<Seq<char>>,
    pub created_at: MessageTime,
}

impl View for ConversationMessage {
    type V = ConversationMessageView;

    open spec fn view(&self) -> ConversationMessageView {
        ConversationMessageView {
            id: self.id@,
            channel_id: self.channel_id@,
            role: self.role@,
            sender_name: self.sender_name.deep_view(),
            sender_id: self.sender_id.deep_view(),
            content: self.content@,
            metadata: self.metadata.deep_view(),
            created_at: self.created_at,
        }
    }
}

/// A message as link channel clients receive it.
pub struct LinkChannelMessage {
    pub id: String,
    pub channel_id: String,
    pub role: String,
    pub sender_name: Option<String>,
    pub sender_id: Option<String>,
    pub content: String,
    pub metadata: Option<String>,
    pub created_at: String,
}

/// A client message as text.
pub struct LinkChannelMessageView {
    pub id: Seq<char>,
    pub channel_id: Seq<char>,
    pub role: Seq<char>,
    pub sender_name: Option<Seq<char>>,
    pub sender_id: Option<Seq<char>>,
    pub content: Seq<char>,
    pub metadata: Option<Seq<char>>,
    pub created_at: Seq<char>,
}

impl View for LinkChannelMessage {
    type V = LinkChannelMessageView;

    open spec fn view(&self) -> LinkChannelMessageView {
        LinkChannelMessageView {
            id: self.id@,
            channel_id: self.channel_id@,
            role: self.role@,
            sender_name: self.sender_name.deep_view(),
            sender_id: self.sender_id.deep_view(),
            content: self.content@,
            metadata: self.metadata.deep_view(),
            created_at: self.created_at@,
        }
    }
}

/// The client form of a stored message: the same fields, the time as RFC 3339 text.
pub open spec fn client_message(m: ConversationMessageView) -> LinkChannelMessageView {
    LinkChannelMessageView {
        id: m.id,
        channel_id: m.channel_id,
        role: m.role,
        sender_name: m.sender_name,
        sender_id: m.sender_id,
        content: m.content,
        metadata: m.metadata,
        created_at: rfc3339_text(m.created_at.secs as int, m.created_at.nanos as int),
    }
}

/// Every message's time lies in the range that can be written.
pub open spec fn times_in_range(msgs: Seq<ConversationMessage>) -> bool {
    forall|i: int| 0 <= i < msgs.len() ==> (#[trigger] msgs[i]).created_at.in_range()
}

/// The text of each stored message.
pub open spec fn stored_views(msgs: Seq<ConversationMessage>) -> Seq<ConversationMessageView> {
    msgs.map_values(|m: ConversationMessage| m@)
}

/// The text of each client message.
pub open spec fn client_views(msgs: Seq<LinkChannelMessage>) -> Seq<LinkChannelMessageView> {
    msgs.map_values(|m: LinkChannelMessage| m@)
}

fn copy_opt(o: &Option<String>) -> (r: Option<String>)
    ensures
        r.deep_view() == o.deep_view(),
{
    match o {
        Some(s) => Some(s.clone()),
        None => None,
    }
}

impl LinkChannelMessage {
    /// The client form of a stored message.
    pub fn from_conversation(msg: &ConversationMessage) -> (r: LinkChannelMessage)
        requires
            msg.created_at.in_range(),
        ensures
            r@ == client_message(msg@),
    {
        LinkChannelMessage {
            id: msg.id.clone(),
            channel_id: msg.channel_id.clone(),
            role: msg.role.clone(),
            sender_name: copy_opt(&msg.sender_name),
            sender_id: copy_opt(&msg.sender_id),
            content: msg.content.clone(),
            metadata: copy_opt(&msg.metadata),
            created_at: time_text(msg.created_at),
        }
    }
}


/// The answer to a message listing.
pub struct LinkMessagesResponse {
    pub messages: Vec<LinkChannelMessage>,
    pub has_more: bool,
}

/// The page kept of `limit + 1` fetched messages: all of them when there are
/// at most `limit`; otherwise the first `limit` oldest-first, or all but the
/// first newest-first.
pub open spec fn page_of<T>(msgs: Seq<T>, limit: int, oldest_first: bool) -> Seq<T> {
    if msgs.len() > limit {
        if oldest_first {
            msgs.take(limit)
        } else {
            msgs.skip(1)
        }
    } else {
        msgs
    }
}

/// The sender filter `sender` matches: the sender id holds it, or the sender
/// name holds it when both are put in lower case.
pub open spec fn sender_matches(
    sender_id: Option<Seq<char>>,
    sender_name: Option<Seq<char>>,
    sender: Seq<char>,
) -> bool {
    ||| (sender_id matches Some(id) && has_substring(id, sender))
    ||| (sender_name matches Some(name) && has_substring(lowercase(name), lowercase(sender)))
}

/// A client message passes a listing's role and sender filters.
pub open spec fn list_accepts(
    m: LinkChannelMessageView,
    role: Option<Seq<char>>,
    sender: Option<Seq<char>>,
) -> bool {
    &&& (role matches Some(r) ==> m.role == r)
    &&& (sender matches Some(s) ==> sender_matches(m.sender_id, m.sender_name, s))
}

/// The listing filter as a predicate.
pub open spec fn list_filter(role: Option<Seq<char>>, sender: Option<Seq<char>>) -> spec_fn(
    LinkChannelMessageView,
) -> bool {
    |m: LinkChannelMessageView| list_accepts(m, role, sender)
}

/// The client form as a function.
pub open spec fn to_client() -> spec_fn(ConversationMessageView) -> LinkChannelMessageView {
    |m: ConversationMessageView| client_message(m)
}

/// What a listing returns of the fetched messages: the page, in client form,
/// that passes the filters, in the order fetched.
pub open spec fn listed_messages(
    msgs: Seq<ConversationMessageView>,
    limit: int,
    oldest_first: bool,
    role: Option<Seq<char>>,
    sender: Option<Seq<char>>,
) -> Seq<LinkChannelMessageView> {
    page_of(msgs, limit, oldest_first).map_values(to_client()).filter(list_filter(role, sender))
}

/// The sender filter on text already put in lower case: `lowered_name` is the
/// sender name and `lowered_sender` the filter, each in lower case.
pub fn sender_matches_lowered(
    sender_id: &Option<String>,
    sender: &str,
    lowered_name: &Option<String>,
    lowered_sender: &str,
) -> (r: bool)
    ensures
        r == ((sender_id.deep_view() matches Some(id) && has_substring(id, sender@)) || (
        lowered_name.deep_view() matches Some(name) && has_substring(name, lowered_sender@))),
{
    let by_id = match sender_id {
        Some(id) => contains_str(id.as_str(), sender),
        None => false,
    };
    let by_name = match lowered_name {
        Some(name) => contains_str(name.as_str(), lowered_sender),
        None => false,
    };
    by_id || by_name
}

/// Whether the sender filter `sender` matches a sender id and name.
pub fn sender_filter_matches(
    sender_id: &Option<String>,
    sender_name: &Option<String>,
    sender: &str,
) -> (r: bool)
    ensures
        r == sender_matches(sender_id.deep_view(), sender_name.deep_view(), sender@),
        sender_name.deep_view() == Some(sender@) ==> r,
        sender_id.deep_view() == Some(sender@) ==> r,
{
    proof {
        law_sender_name_ignores_case(sender_id.deep_view(), sender@, sender@, sender@, sender@);
    }
    let lowered_name = match sender_name {
        Some(name) => Some(to_lowercase(name.as_str())),
        None => None,
    };
    let lowered_sender = to_lowercase(sender);
    sender_matches_lowered(sender_id, sender, &lowered_name, lowered_sender.as_str())
}

proof fn lemma_holds_itself(s: Seq<char>)
    ensures
        has_substring(s, s),
{
    assert(s.subrange(0, s.len() as int) =~= s);
    assert(occurs_at(s, s, 0));
}

/// Law: the sender filter's name test ignores case: a filter matches the sender
/// whose name or id it is; filters that agree in lower case match the same
/// names; and names that agree in lower case are matched by the same filters.
pub proof fn law_sender_name_ignores_case(
    sender_id: Option<Seq<char>>,
    s: Seq<char>,
    s2: Seq<char>,
    name: Seq<char>,
    name2: Seq<char>,
)
    ensures
        sender_matches(sender_id, Some(s), s),
        sender_matches(Some(s), None, s),
        lowercase(s) == lowercase(s2) ==> sender_matches(None, Some(name), s) == sender_matches(
            None,
            Some(name),
            s2,
        ),
        lowercase(name) == lowercase(name2) ==> sender_matches(None, Some(name), s)
            == sender_matches(None, Some(name2), s),
{
    lemma_holds_itself(lowercase(s));
    lemma_holds_itself(s);
}

/// Whether a client message passes a listing's role and sender filters.
pub fn list_filter_accepts(
    msg: &LinkChannelMessage,
    role: &Option<String>,
    sender: &Option<String>,
) -> (r: bool)
    ensures
        r == list_accepts(msg@, role.deep_view(), sender.deep_view()),
{
    match role {
        Some(role) => {
            if !(msg.role == *role) {
                return false;
            }
        },
        None => {},
    }
    match sender {
        Some(sender) => sender_filter_matches(&msg.sender_id, &msg.sender_name, sender.as_str()),
        None => true,
    }
}

/// Builds a listing's answer from the `limit + 1` messages fetched for it.
pub fn list_messages(
    messages: Vec<ConversationMessage>,
    limit: i64,
    oldest_first: bool,
    role: &Option<String>,
    sender: &Option<String>,
) -> (r: LinkMessagesResponse)
    requires
        0 <= limit,
        times_in_range(messages@),
    ensures
        r.has_more == (messages@.len() > limit),
        client_views(r.messages@) == listed_messages(
            stored_views(messages@),
            limit as int,
            oldest_first,
            role.deep_view(),
            sender.deep_view(),
        ),
{
    let n = messages.len();
    let has_more = n as u64 > limit as u64;
    let (lo, hi): (usize, usize) = if has_more {
        if oldest_first {
            (0, limit as usize)
        } else {
            (1, n)
        }
    } else {
        (0, n)
    };
    let ghost all = stored_views(messages@);
    let ghost pred = list_filter(role.deep_view(), sender.deep_view());
    assert(page_of(all, limit as int, oldest_first) =~= all.subrange(lo as int, hi as int));
    let mut out: Vec<LinkChannelMessage> = Vec::new();
    let mut i = lo;
    while i < hi
        invariant
            lo <= i <= hi <= messages@.len(),
            all == stored_views(messages@),
            pred == list_filter(role.deep_view(), sender.deep_view()),
            times_in_range(messages@),
            client_views(out@) == all.subrange(lo as int, i as int).map_values(to_client()).filter(
                pred,
            ),
        decreases hi - i,
    {
        let m = LinkChannelMessage::from_conversation(&messages[i]);
        let keep = list_filter_accepts(&m, role, sender);
        proof {
            let before = all.subrange(lo as int, i as int).map_values(to_client());
            assert(all.subrange(lo as int, i + 1).map_values(to_client()) =~= before.push(
                client_message(messages@[i as int]@),
            ));
            before.lemma_filter_push(client_message(messages@[i as int]@), pred);
        }
        if keep {
            out.push(m);
        }
        i = i + 1;
        proof {
            assert(client_views(out@) =~= all.subrange(lo as int, i as int).map_values(
                to_client(),
            ).filter(pred));
        }
    }
    LinkMessagesResponse { messages: out, has_more }
}


/// The answer to a message search.
pub struct LinkMessageSearchResponse {
    pub messages: Vec<LinkChannelMessage>,
    pub total: i64,
}

/// A stored message passes a search: its content holds the search text when
/// both are put in lower case, its role is the role asked for, and its sender
/// id is the sender id asked for.
pub open spec fn search_accepts(
    m: ConversationMessageView,
    q: Option<Seq<char>>,
    role: Option<Seq<char>>,
    sender_id: Option<Seq<char>>,
) -> bool {
    &&& (q matches Some(q) ==> has_substring(lowercase(m.content), lowercase(q)))
    &&& (role matches Some(r) ==> m.role == r)
    &&& (sender_id matches Some(s) ==> m.sender_id == Some(s))
}

/// The search filter as a predicate.
pub open spec fn search_filter(
    q: Option<Seq<char>>,
    role: Option<Seq<char>>,
    sender_id: Option<Seq<char>>,
) -> spec_fn(ConversationMessageView) -> bool {
    |m: ConversationMessageView| search_accepts(m, q, role, sender_id)
}

/// The first `n` elements of `s`, or all of them where there are fewer.
pub open spec fn at_most<T>(s: Seq<T>, n: int) -> Seq<T> {
    if s.len() <= n {
        s
    } else {
        s.take(n)
    }
}

/// What a search returns of a channel's messages: the first `limit` of those
/// that pass, in client form, in the order the channel's messages are given.
pub open spec fn searched_messages(
    msgs: Seq<ConversationMessageView>,
    q: Option<Seq<char>>,
    role: Option<Seq<char>>,
    sender_id: Option<Seq<char>>,
    limit: int,
) -> Seq<LinkChannelMessageView> {
    at_most(msgs.filter(search_filter(q, role, sender_id)), limit).map_values(to_client())
}

/// Law: a search's text test ignores case: a message whose content is the
/// search text passes; search texts that agree in lower case pass the same
/// messages; and contents that agree in lower case pass the same searches.
pub proof fn law_search_text_ignores_case(
    m: ConversationMessageView,
    q: Seq<char>,
    q2: Seq<char>,
    content2: Seq<char>,
)
    ensures
        m.content == q ==> search_accepts(m, Some(q), None, None),
        lowercase(q) == lowercase(q2) ==> forall|role: Option<Seq<char>>, sid: Option<Seq<char>>|
            search_accepts(m, Some(q), role, sid) == #[trigger] search_accepts(m, Some(q2), role, sid),
        lowercase(m.content) == lowercase(content2) ==> forall|
            qq: Option<Seq<char>>,
            role: Option<Seq<char>>,
            sid: Option<Seq<char>>,
        |
            search_accepts(m, qq, role, sid) == #[trigger] search_accepts(
                ConversationMessageView { content: content2, ..m },
                qq,
                role,
                sid,
            ),
{
    lemma_holds_itself(lowercase(q));
}

/// Whether a stored message passes a search.
pub fn search_filter_accepts(
    msg: &ConversationMessage,
    q: &Option<String>,
    role: &Option<String>,
    sender_id: &Option<String>,
) -> (r: bool)
    ensures
        r == search_accepts(msg@, q.deep_view(), role.deep_view(), sender_id.deep_view()),
        q.deep_view() == Some(msg.content@) && role.deep_view() is None && sender_id.deep_view() is None
            ==> r,
{
    proof {
        law_search_text_ignores_case(msg@, msg.content@, msg.content@, msg.content@);
    }
    match q {
        Some(q) => {
            let content = to_lowercase(msg.content.as_str());
            let text = to_lowercase(q.as_str());
            if !contains_str(content.as_str(), text.as_str()) {
                return false;
            }
        },
        None => {},
    }
    match role {
        Some(role) => {
            if !(msg.role == *role) {
                return false;
            }
        },
        None => {},
    }
    match sender_id {
        Some(wanted) => match &msg.sender_id {
            Some(id) => *id == *wanted,
            None => false,
        },
        None => true,
    }
}

/// Builds a search's answer from all the messages of the channel searched:
/// at most `limit` of those that pass.
pub fn search_messages(
    messages: Vec<ConversationMessage>,
    q: &Option<String>,
    role: &Option<String>,
    sender_id: &Option<String>,
    limit: i64,
) -> (r: LinkMessageSearchResponse)
    requires
        0 <= limit,
        times_in_range(messages@),
    ensures
        client_views(r.messages@) == searched_messages(
            stored_views(messages@),
            q.deep_view(),
            role.deep_view(),
            sender_id.deep_view(),
            limit as int,
        ),
        r.total == r.messages@.len(),
{
    let ghost all = stored_views(messages@);
    let ghost pred = search_filter(q.deep_view(), role.deep_view(), sender_id.deep_view());
    let mut out: Vec<LinkChannelMessage> = Vec::new();
    let mut i: usize = 0;
    while i < messages.len()
        invariant
            i <= messages@.len(),
            0 <= limit,
            all == stored_views(messages@),
            pred == search_filter(q.deep_view(), role.deep_view(), sender_id.deep_view()),
            times_in_range(messages@),
            out@.len() <= limit,
            client_views(out@) == at_most(all.subrange(0, i as int).filter(pred), limit as int).map_values(
                to_client(),
            ),
        decreases messages@.len() - i,
    {
        let keep = search_filter_accepts(&messages[i], q, role, sender_id);
        let ghost prev = out@;
        let ghost before = all.subrange(0, i as int);
        let ghost x = messages@[i as int]@;
        proof {
            assert(all[i as int] == x);
            assert(all.subrange(0, i + 1) =~= before.push(x));
            before.lemma_filter_push(x, pred);
            assert(pred(x) == keep);
            assert(client_views(prev).len() == prev.len());
        }
        if keep && (out.len() as u64) < (limit as u64) {
            let m = LinkChannelMessage::from_conversation(&messages[i]);
            out.push(m);
            proof {
                let f = before.filter(pred);
                assert(f.len() < limit);
                assert(at_most(f, limit as int) == f);
                assert(at_most(f.push(x), limit as int) == f.push(x));
                assert(f.push(x).map_values(to_client()) =~= f.map_values(to_client()).push(
                    client_message(x),
                ));
                assert(client_views(out@) =~= client_views(prev).push(client_message(x)));
            }
        } else if keep {
            proof {
                let f = before.filter(pred);
                assert(at_most(f, limit as int).len() == limit);
                assert(f.len() >= limit);
                assert(f.push(x).take(limit as int) =~= f.take(limit as int));
            }
        }
        i = i + 1;
    }
    proof {
        assert(all.subrange(0, messages@.len() as int) =~= all);
    }
    let total = out.len() as i64;
    LinkMessageSearchResponse { messages: out, total }
}

/// The text that marks an acknowledgment.
pub open spec fn ack_marker() -> Seq<char> {
    "[Acknowledgment]"@
}

/// The record `[Acknowledgment] Message <id> marked as <status>`.
pub open spec fn ack_content(message_id: Seq<char>, status: Seq<char>) -> Seq<char> {
    ack_marker() + " Message "@ + message_id + " marked as "@ + status
}

/// `content` is the record of an acknowledgment of the message `id`, with one
/// of the statuses an acknowledgment may report.
pub open spec fn is_ack_record_for(content: Seq<char>, id: Seq<char>) -> bool {
    ||| content == ack_content(id, "delivered"@)
    ||| content == ack_content(id, "read"@)
    ||| content == ack_content(id, "processed"@)
}

/// Builds the record of an acknowledgment.
pub fn format_ack_content(message_id: &str, status: &str) -> (r: String)
    ensures
        r@ == ack_content(message_id@, status@),
{
    let mut r = String::new();
    r.append("[Acknowledgment]");
    r.append(" Message ");
    r.append(message_id);
    r.append(" marked as ");
    r.append(status);
    assert(r@ =~= ack_content(message_id@, status@));
    r
}

/// Whether `content` records an acknowledgment of the message `id`.
pub fn is_ack_record(content: &str, id: &str) -> (r: bool)
    ensures
        r == is_ack_record_for(content@, id@),
{
    let delivered = format_ack_content(id, "delivered");
    if str_eq(content, delivered.as_str()) {
        return true;
    }
    let read = format_ack_content(id, "read");
    if str_eq(content, read.as_str()) {
        return true;
    }
    let processed = format_ack_content(id, "processed");
    str_eq(content, processed.as_str())
}

/// `j` is the first of `msgs` that records an acknowledgment of `id`.
pub open spec fn first_ack_record(msgs: Seq<ConversationMessageView>, id: Seq<char>, j: int) -> bool {
    &&& 0 <= j < msgs.len()
    &&& is_ack_record_for(msgs[j].content, id)
    &&& forall|k: int| 0 <= k < j ==> !is_ack_record_for(#[trigger] msgs[k].content, id)
}

/// Some of `msgs` records an acknowledgment of the message `id`.
pub open spec fn is_acknowledged(msgs: Seq<ConversationMessageView>, id: Seq<char>) -> bool {
    exists|j: int| 0 <= j < msgs.len() && is_ack_record_for(#[trigger] msgs[j].content, id)
}

/// The first place among `messages` that records an acknowledgment of `id`.
pub fn find_ack_record(messages: &Vec<ConversationMessage>, id: &str) -> (r: Option<usize>)
    ensures
        r is None <==> !is_acknowledged(stored_views(messages@), id@),
        r matches Some(j) ==> first_ack_record(stored_views(messages@), id@, j as int),
{
    let ghost all = stored_views(messages@);
    let mut j: usize = 0;
    while j < messages.len()
        invariant
            j <= messages@.len(),
            all == stored_views(messages@),
            forall|k: int| 0 <= k < j ==> !is_ack_record_for(#[trigger] all[k].content, id@),
        decreases messages@.len() - j,
    {
        assert(all[j as int] == messages@[j as int]@);
        if is_ack_record(messages[j].content.as_str(), id) {
            assert(is_ack_record_for(all[j as int].content, id@));
            return Some(j);
        }
        j = j + 1;
    }
    None
}

/// Some of `msgs` has the id `id`.
pub open spec fn has_message(msgs: Seq<ConversationMessageView>, id: Seq<char>) -> bool {
    exists|i: int| 0 <= i < msgs.len() && (#[trigger] msgs[i]).id == id
}

/// Whether some of `messages` has the id `id`.
pub fn contains_message(messages: &Vec<ConversationMessage>, id: &str) -> (r: bool)
    ensures
        r == has_message(stored_views(messages@), id@),
{
    let ghost all = stored_views(messages@);
    let mut i: usize = 0;
    while i < messages.len()
        invariant
            i <= messages@.len(),
            all == stored_views(messages@),
            forall|k: int| 0 <= k < i ==> (#[trigger] all[k]).id != id@,
        decreases messages@.len() - i,
    {
        assert(all[i as int] == messages@[i as int]@);
        if str_eq(messages[i].id.as_str(), id) {
            return true;
        }
        i = i + 1;
    }
    false
}

/// The delivery status of a message.
pub struct LinkMessageStatus {
    pub message_id: String,
    pub channel_id: String,
    pub delivered: bool,
    pub acknowledged: bool,
    pub acknowledged_at: Option<String>,
}

/// A delivery status as text.
pub struct LinkMessageStatusView {
    pub message_id: Seq<char>,
    pub channel_id: Seq<char>,
    pub delivered: bool,
    pub acknowledged: bool,
    pub acknowledged_at: Option<Seq<char>>,
}

impl View for LinkMessageStatus {
    type V = LinkMessageStatusView;

    open spec fn view(&self) -> LinkMessageStatusView {
        LinkMessageStatusView {
            message_id: self.message_id@,
            channel_id: self.channel_id@,
            delivered: self.delivered,
            acknowledged: self.acknowledged,
            acknowledged_at: self.acknowledged_at.deep_view(),
        }
    }
}

/// The answer to a status request.
pub struct LinkMessageStatusResponse {
    pub status: LinkMessageStatus,
}

/// The status reported for the message `message_id` of `channel_id`, whose
/// messages are `msgs`: delivered; acknowledged when some message records an
/// acknowledgment of it, at the time of the first such record.
pub open spec fn status_of(
    message_id: Seq<char>,
    channel_id: Seq<char>,
    msgs: Seq<ConversationMessageView>,
) -> LinkMessageStatusView {
    LinkMessageStatusView {
        message_id,
        channel_id,
        delivered: true,
        acknowledged: is_acknowledged(msgs, message_id),
        acknowledged_at: if is_acknowledged(msgs, message_id) {
            let j = choose|j: int| first_ack_record(msgs, message_id, j);
            Some(rfc3339_text(msgs[j].created_at.secs as int, msgs[j].created_at.nanos as int))
        } else {
            None
        },
    }
}

/// The delivery status of the message `message_id` among a channel's
/// `messages`, or `NotFound` where none has that id.
pub fn message_status(messages: &Vec<ConversationMessage>, message_id: &str, channel_id: &str) -> (r:
    Result<LinkMessageStatusResponse, ApiError>)
    requires
        times_in_range(messages@),
    ensures
        r is Err <==> !has_message(stored_views(messages@), message_id@),
        r matches Err(e) ==> e == ApiError::NotFound,
        r matches Ok(resp) ==> resp.status@ == status_of(
            message_id@,
            channel_id@,
            stored_views(messages@),
        ),
{
    let ghost all = stored_views(messages@);
    if !contains_message(messages, message_id) {
        return Err(ApiError::NotFound);
    }
    let found = find_ack_record(messages, message_id);
    let (acknowledged, acknowledged_at) = match found {
        Some(j) => {
            assert(messages@[j as int].created_at.in_range());
            proof {
                let k = choose|k: int| first_ack_record(all, message_id@, k);
                if k < j {
                    assert(!is_ack_record_for(all[k].content, message_id@));
                } else if k > j {
                    assert(!is_ack_record_for(all[j as int].content, message_id@));
                }
            }
            (true, Some(time_text(messages[j].created_at)))
        },
        None => (false, None),
    };
    let status = LinkMessageStatus {
        message_id: crate::text::owned(message_id),
        channel_id: crate::text::owned(channel_id),
        delivered: true,
        acknowledged,
        acknowledged_at,
    };
    Ok(LinkMessageStatusResponse { status })
}

/// Law: a listing made from at most `limit + 1` fetched messages returns at most
/// `limit` of them, and says there are more exactly when `limit + 1` came back.
pub proof fn law_listing_within_limit(
    msgs: Seq<ConversationMessageView>,
    limit: int,
    oldest_first: bool,
    role: Option<Seq<char>>,
    sender: Option<Seq<char>>,
)
    requires
        0 <= limit,
        msgs.len() <= limit + 1,
    ensures
        listed_messages(msgs, limit, oldest_first, role, sender).len() <= limit,
        (msgs.len() > limit) == (msgs.len() == limit + 1),
{
    let page = page_of(msgs, limit, oldest_first);
    page.map_values(to_client()).lemma_filter_len(list_filter(role, sender));
}

/// The listing filter read on stored messages: the filters read the role, the
/// sender id and the sender name, which the client form copies.
pub open spec fn stored_list_filter(role: Option<Seq<char>>, sender: Option<Seq<char>>) -> spec_fn(
    ConversationMessageView,
) -> bool {
    |m: ConversationMessageView| list_accepts(client_message(m), role, sender)
}

proof fn lemma_convert_then_filter(
    s: Seq<ConversationMessageView>,
    role: Option<Seq<char>>,
    sender: Option<Seq<char>>,
)
    ensures
        s.map_values(to_client()).filter(list_filter(role, sender)) == s.filter(
            stored_list_filter(role, sender),
        ).map_values(to_client()),
    decreases s.len(),
{
    let p = list_filter(role, sender);
    let q = stored_list_filter(role, sender);
    if s.len() == 0 {
        assert(s.map_values(to_client()) =~= Seq::<LinkChannelMessageView>::empty());
        assert(s.filter(q) =~= Seq::<ConversationMessageView>::empty());
        assert(s.filter(q).map_values(to_client()) =~= Seq::<LinkChannelMessageView>::empty());
    } else {
        let init = s.drop_last();
        let x = s.last();
        lemma_convert_then_filter(init, role, sender);
        assert(s =~= init.push(x));
        assert(s.map_values(to_client()) =~= init.map_values(to_client()).push(client_message(x)));
        init.map_values(to_client()).lemma_filter_push(client_message(x), p);
        init.lemma_filter_push(x, q);
        assert(p(client_message(x)) == q(x));
        if q(x) {
            assert(init.filter(q).push(x).map_values(to_client()) =~= init.filter(q).map_values(
                to_client(),
            ).push(client_message(x)));
        }
    }
}

/// Law: filtering a listing's page and then converting the kept messages to
/// client form gives what the listing returns.
pub proof fn law_listing_filters_stored_messages(
    msgs: Seq<ConversationMessageView>,
    limit: int,
    oldest_first: bool,
    role: Option<Seq<char>>,
    sender: Option<Seq<char>>,
)
    ensures
        listed_messages(msgs, limit, oldest_first, role, sender) == page_of(
            msgs,
            limit,
            oldest_first,
        ).filter(stored_list_filter(role, sender)).map_values(to_client()),
{
    lemma_convert_then_filter(page_of(msgs, limit, oldest_first), role, sender);
}

/// Law: a search returns no more than `limit` messages, and no more than the
/// channel holds.
pub proof fn law_search_within_limit(
    msgs: Seq<ConversationMessageView>,
    q: Option<Seq<char>>,
    role: Option<Seq<char>>,
    sender_id: Option<Seq<char>>,
    limit: int,
)
    requires
        0 <= limit,
    ensures
        searched_messages(msgs, q, role, sender_id, limit).len() <= limit,
        searched_messages(msgs, q, role, sender_id, limit).len() <= msgs.len(),
{
    msgs.lemma_filter_len(search_filter(q, role, sender_id));
}

/// Where link channel messages are kept.
pub struct RetentionInfo {
    pub persistence: String,
    pub storage_table: String,
    pub note: String,
}

/// The description of how link channel messages are kept.
pub fn retention_info() -> (r: RetentionInfo)
    ensures
        r.persistence@ == "automatic"@,
        r.storage_table@ == "conversation_messages"@,
        r.note@ == "Link channel messages are persisted via ConversationLogger and share the same table as channel messages"@,
{
    RetentionInfo {
        persistence: crate::text::owned("automatic"),
        storage_table: crate::text::owned("conversation_messages"),
        note: crate::text::owned(
            "Link channel messages are persisted via ConversationLogger and share the same table as channel messages",
        ),
    }
}

} // verus!
