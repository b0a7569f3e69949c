//! Links between agents, the channels each link opens, and the agents' display names.

use vstd::prelude::*;
use crate::channel::{
    channel_from, channel_to, format_link_channel, is_agent_part, is_link_channel,
    lemma_channel_agents, link_channel_id, reversed_channel,
};
use crate::text::{owned, str_eq};

verus! {

/// Which way messages may travel on a link.
#[derive(Clone, Copy, Debug, PartialEq, Eq, Structural)]
pub enum LinkDirection {
    /// Only the link's `from` agent may send.
    OneWay,
    /// Either agent may send.
    TwoWay,
}

/// The name of a direction as clients see it.
pub open spec fn direction_name(d: LinkDirection) -> Seq<char> {
    match d {
        LinkDirection::OneWay => "one_way"@,
        LinkDirection::TwoWay => "two_way"@,
    }
}

impl LinkDirection {
    /// `one_way` or `two_way`.
    pub fn as_str(&self) -> (r: &'static str)
        ensures
            r@ == direction_name(*self),
    {
        match self {
            LinkDirection::OneWay => "one_way",
            LinkDirection::TwoWay => "two_way",
        }
    }
}

/// A link between two agents.
pub struct AgentLink {
    pub from_agent_id: String,
    pub to_agent_id: String,
    /// The kind of link, by name.
    pub kind: String,
    pub direction: LinkDirection,
}

/// A link as text.
pub struct AgentLinkView {
    pub from: Seq<char>,
    pub to: Seq<char>,
    pub kind: Seq<char>,
    pub direction: LinkDirection,
}

impl View for AgentLink {
    type V = AgentLinkView;

    open spec fn view(&self) -> AgentLinkView {
        AgentLinkView {
            from: self.from_agent_id@,
            to: self.to_agent_id@,
            kind: self.kind@,
            direction: self.direction,
        }
    }
}

/// The channel in which `agent` writes to the other agent of the link:
/// `link:<agent>:<other>`, where the other agent is `to` when `agent` is `from`,
/// and `from` otherwise.
pub open spec fn channel_for(link: AgentLinkView, agent: Seq<char>) -> Seq<char> {
    if agent == link.from {
        link_channel_id(agent, link.to)
    } else {
        link_channel_id(agent, link.from)
    }
}

impl AgentLink {
    /// The channel in which `agent_id` writes on this link.
    pub fn channel_id_for(&self, agent_id: &str) -> (r: String)
        ensures
            r@ == channel_for(self@, agent_id@),
    {
        if str_eq(agent_id, self.from_agent_id.as_str()) {
            format_link_channel(agent_id, self.to_agent_id.as_str())
        } else {
            format_link_channel(agent_id, self.from_agent_id.as_str())
        }
    }
}

/// One channel of a link, as the channel listing shows it.
pub struct LinkChannelInfo {
    pub channel_id: String,
    pub from_agent: String,
    pub to_agent: String,
    pub link_kind: String,
    pub direction: String,
}

/// A listed channel as text.
pub struct LinkChannelInfoView {
    pub channel_id: Seq<char>,
    pub from_agent: Seq<char>,
    pub to_agent: Seq<char>,
    pub link_kind: Seq<char>,
    pub direction: Seq<char>,
}

impl View for LinkChannelInfo {
    type V = LinkChannelInfoView;

    open spec fn view(&self) -> LinkChannelInfoView {
        LinkChannelInfoView {
            channel_id: self.channel_id@,
            from_agent: self.from_agent@,
            to_agent: self.to_agent@,
            link_kind: self.link_kind@,
            direction: self.direction@,
        }
    }
}

/// The channel of a link in which its `from` agent writes.
pub open spec fn forward_info(l: AgentLinkView) -> LinkChannelInfoView {
    LinkChannelInfoView {
        channel_id: channel_for(l, l.from),
        from_agent: l.from,
        to_agent: l.to,
        link_kind: l.kind,
        direction: direction_name(l.direction),
    }
}

/// The channel of a link in which its `to` agent writes.
pub open spec fn backward_info(l: AgentLinkView) -> LinkChannelInfoView {
    LinkChannelInfoView {
        channel_id: channel_for(l, l.to),
        from_agent: l.to,
        to_agent: l.from,
        link_kind: l.kind,
        direction: direction_name(l.direction),
    }
}

fn info_of(link: &AgentLink, forward: bool) -> (r: LinkChannelInfo)
    ensures
        r@ == if forward {
            forward_info(link@)
        } else {
            backward_info(link@)
        },
{
    let (me, other) = if forward {
        (&link.from_agent_id, &link.to_agent_id)
    } else {
        (&link.to_agent_id, &link.from_agent_id)
    };
    LinkChannelInfo {
        channel_id: link.channel_id_for(me.as_str()),
        from_agent: me.clone(),
        to_agent: other.clone(),
        link_kind: link.kind.clone(),
        direction: owned(link.direction.as_str()),
    }
}

/// Every channel of the given links: for each link, in order, first the channel
/// in which its `from` agent writes, then the one in which its `to` agent writes.
pub fn link_channel_infos(links: &Vec<AgentLink>) -> (r: Vec<LinkChannelInfo>)
    ensures
        r@.len() == 2 * links@.len(),
        forall|i: int|
            0 <= i < links@.len() ==> r@[2 * i]@ == forward_info((#[trigger] links@[i])@) && r@[2
                * i + 1]@ == backward_info(links@[i]@),
{
    let mut out: Vec<LinkChannelInfo> = Vec::new();
    let mut i: usize = 0;
    while i < links.len()
        invariant
            i <= links@.len(),
            out@.len() == 2 * i,
            forall|k: int|
                0 <= k < i ==> out@[2 * k]@ == forward_info((#[trigger] links@[k])@) && out@[2 * k
                    + 1]@ == backward_info(links@[k]@),
        decreases links@.len() - i,
    {
        out.push(info_of(&links[i], true));
        out.push(info_of(&links[i], false));
        i = i + 1;
    }
    out
}

/// Law: the two channels listed for a link whose agents are well-formed channel
/// parts are link channels, each the other seen from the opposite side.
pub proof fn law_listed_channels_are_reversed(l: AgentLinkView)
    requires
        is_agent_part(l.from),
        is_agent_part(l.to),
    ensures
        is_link_channel(forward_info(l).channel_id),
        is_link_channel(backward_info(l).channel_id),
        backward_info(l).channel_id == reversed_channel(forward_info(l).channel_id),
        channel_from(forward_info(l).channel_id) == l.from,
        channel_to(forward_info(l).channel_id) == l.to,
{
    lemma_channel_agents(l.from, l.to);
    lemma_channel_agents(l.to, l.from);
}

/// The link joins agents `a` and `b`, either way round.
pub open spec fn connects(l: AgentLinkView, a: Seq<char>, b: Seq<char>) -> bool {
    (l.from == a && l.to == b) || (l.from == b && l.to == a)
}

/// `i` is the first link that joins `a` and `b`.
pub open spec fn first_connecting(links: Seq<AgentLinkView>, a: Seq<char>, b: Seq<char>, i: int) -> bool {
    &&& 0 <= i < links.len()
    &&& connects(links[i], a, b)
    &&& forall|j: int| 0 <= j < i ==> !connects(links[j], a, b)
}

/// The text of each link.
pub open spec fn link_views(links: Seq<AgentLink>) -> Seq<AgentLinkView> {
    links.map_values(|l: AgentLink| l@)
}

/// The first link that joins `a` and `b`, either way round.
pub fn find_link(links: &Vec<AgentLink>, a: &str, b: &str) -> (r: Option<usize>)
    ensures
        r is None <==> forall|i: int|
            0 <= i < links@.len() ==> !connects(#[trigger] link_views(links@)[i], a@, b@),
        r matches Some(i) ==> first_connecting(link_views(links@), a@, b@, i as int),
{
    let ghost lv = link_views(links@);
    let mut i: usize = 0;
    while i < links.len()
        invariant
            i <= links@.len(),
            lv == link_views(links@),
            forall|j: int| 0 <= j < i ==> !connects(#[trigger] lv[j], a@, b@),
        decreases links@.len() - i,
    {
        let l = &links[i];
        let f = l.from_agent_id.as_str();
        let t = l.to_agent_id.as_str();
        if (str_eq(f, a) && str_eq(t, b)) || (str_eq(f, b) && str_eq(t, a)) {
            assert(lv[i as int] == links@[i as int]@);
            return Some(i);
        }
        assert(lv[i as int] == links@[i as int]@);
        i = i + 1;
    }
    None
}

/// `agent` may send on the link: it is the link's `from` agent, or the link is two-way.
pub open spec fn may_send(l: AgentLinkView, agent: Seq<char>) -> bool {
    l.from == agent || l.direction == LinkDirection::TwoWay
}

/// Whether `agent_id` may send on `link`.
pub fn sending_allowed(link: &AgentLink, agent_id: &str) -> (r: bool)
    ensures
        r == may_send(link@, agent_id@),
{
    str_eq(link.from_agent_id.as_str(), agent_id) || link.direction == LinkDirection::TwoWay
}

/// An agent's configuration, as far as link channels read it.
pub struct AgentConfig {
    pub id: String,
    pub display_name: Option<String>,
}

/// An agent configuration as text.
pub struct AgentConfigView {
    pub id: Seq<char>,
    pub display_name: Option<Seq<char>>,
}

impl View for AgentConfig {
    type V = AgentConfigView;

    open spec fn view(&self) -> AgentConfigView {
        AgentConfigView { id: self.id@, display_name: self.display_name.deep_view() }
    }
}

/// The text of each configuration.
pub open spec fn config_views(configs: Seq<AgentConfig>) -> Seq<AgentConfigView> {
    configs.map_values(|c: AgentConfig| c@)
}

/// The name shown for `agent`: the display name of the first configuration with
/// its id, where that configuration has one; the id itself otherwise.
pub open spec fn display_name_of(configs: Seq<AgentConfigView>, agent: Seq<char>) -> Seq<char> {
    if exists|i: int| 0 <= i < configs.len() && configs[i].id == agent {
        let i = choose|i: int|
            0 <= i < configs.len() && configs[i].id == agent && forall|j: int|
                0 <= j < i ==> configs[j].id != agent;
        match configs[i].display_name {
            Some(name) => name,
            None => agent,
        }
    } else {
        agent
    }
}

/// The name shown for `agent_id`.
pub fn display_name_for(configs: &Vec<AgentConfig>, agent_id: &str) -> (r: String)
    ensures
        r@ == display_name_of(config_views(configs@), agent_id@),
{
    let ghost cv = config_views(configs@);
    let mut i: usize = 0;
    while i < configs.len()
        invariant
            i <= configs@.len(),
            cv == config_views(configs@),
            forall|j: int| 0 <= j < i ==> (#[trigger] cv[j]).id != agent_id@,
        decreases configs@.len() - i,
    {
        let c = &configs[i];
        assert(cv[i as int] == configs@[i as int]@);
        if str_eq(c.id.as_str(), agent_id) {
            proof {
                let k = choose|k: int|
                    0 <= k < cv.len() && cv[k].id == agent_id@ && forall|j: int|
                        0 <= j < k ==> cv[j].id != agent_id@;
                assert(0 <= i < cv.len() && cv[i as int].id == agent_id@ && forall|j: int|
                    0 <= j < i ==> cv[j].id != agent_id@);
                if k < i {
                    assert(cv[k].id != agent_id@);
                } else if k > i {
                    assert(cv[i as int].id != agent_id@);
                }
            }
            return match &c.display_name {
                Some(name) => name.clone(),
                None => owned(agent_id),
            };
        }
        i = i + 1;
    }
    owned(agent_id)
}

} // verus!
