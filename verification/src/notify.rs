//! Unread-message notifications: which channels to look at for each agent,
//! how the unread messages found add up per agent, and the notice text.

use vstd::prelude::*;
use vstd::string::*;
use crate::channel::link_channel_id;
use crate::links::{channel_for, AgentLink, AgentLinkView, LinkDirection};
use crate::messages::{
    ack_marker, find_ack_record, is_acknowledged, stored_views, ConversationMessage,
    ConversationMessageView,
};
use crate::text::{decimal_text, push_decimal, starts_with_ascii_nocase, starts_with_ascii_nocase_str, str_eq};

verus! {

/// One look for unread messages: the channel of `agent_id` to read.
pub struct UnreadCheck {
    pub agent_id: String,
    pub channel_id: String,
}

/// `agents` holds `a`.
pub open spec fn has_agent(agents: Seq<String>, a: Seq<char>) -> bool {
    exists|i: int| 0 <= i < agents.len() && (#[trigger] agents[i])@ == a
}

/// The looks made for one link, in order: the `to` agent's channel, then the
/// `from` agent's, each only where that agent has a store.
pub open spec fn checks_for_link(l: AgentLinkView, pool_agents: Seq<String>) -> Seq<(Seq<char>, Seq<char>)> {
    (if has_agent(pool_agents, l.to) {
        seq![(l.to, channel_for(l, l.to))]
    } else {
        seq![]
    }) + (if has_agent(pool_agents, l.from) {
        seq![(l.from, channel_for(l, l.from))]
    } else {
        seq![]
    })
}

/// The looks made for all links, link by link.
pub open spec fn checks_of(links: Seq<AgentLinkView>, pool_agents: Seq<String>) -> Seq<(Seq<char>, Seq<char>)>
    decreases links.len(),
{
    if links.len() == 0 {
        seq![]
    } else {
        checks_of(links.drop_last(), pool_agents) + checks_for_link(links.last(), pool_agents)
    }
}

/// The text of each look.
pub open spec fn check_views(checks: Seq<UnreadCheck>) -> Seq<(Seq<char>, Seq<char>)> {
    checks.map_values(|c: UnreadCheck| (c.agent_id@, c.channel_id@))
}

proof fn lemma_contains_concat(a: Seq<(Seq<char>, Seq<char>)>, b: Seq<(Seq<char>, Seq<char>)>, x: (Seq<char>, Seq<char>))
    ensures
        (a.contains(x) || b.contains(x)) ==> (a + b).contains(x),
{
    if a.contains(x) {
        let k = choose|k: int| 0 <= k < a.len() && a[k] == x;
        assert((a + b)[k] == x);
    } else if b.contains(x) {
        let k = choose|k: int| 0 <= k < b.len() && b[k] == x;
        assert((a + b)[a.len() + k] == x);
    }
}

/// Law: which channels are checked for a link does not depend on its direction:
/// the `to` agent's channel `link:<to>:<from>` is checked whenever the `to`
/// agent has a store, and the `from` agent's channel `link:<from>:<to>` whenever
/// the `from` agent has one, on one-way and two-way links alike.
pub proof fn law_looks_ignore_direction(l: AgentLinkView, pool_agents: Seq<String>)
    ensures
        checks_for_link(l, pool_agents) == checks_for_link(
            AgentLinkView { direction: LinkDirection::OneWay, ..l },
            pool_agents,
        ),
        checks_for_link(l, pool_agents) == checks_for_link(
            AgentLinkView { direction: LinkDirection::TwoWay, ..l },
            pool_agents,
        ),
        has_agent(pool_agents, l.to) ==> checks_for_link(l, pool_agents).contains(
            (l.to, link_channel_id(l.to, l.from)),
        ),
        has_agent(pool_agents, l.from) ==> checks_for_link(l, pool_agents).contains(
            (l.from, link_channel_id(l.from, l.to)),
        ),
{
    let c = checks_for_link(l, pool_agents);
    if has_agent(pool_agents, l.to) {
        assert(c[0] == (l.to, link_channel_id(l.to, l.from)));
    }
    if has_agent(pool_agents, l.from) {
        assert(c[c.len() - 1] == (l.from, link_channel_id(l.from, l.to)));
    }
}

/// Law: every side of every link whose agent has a store is checked: the looks
/// for all links hold `(to, link:<to>:<from>)` and `(from, link:<from>:<to>)` of
/// each link, whatever its direction.
pub proof fn law_every_link_side_checked(links: Seq<AgentLinkView>, pool_agents: Seq<String>, i: int)
    requires
        0 <= i < links.len(),
    ensures
        has_agent(pool_agents, links[i].to) ==> checks_of(links, pool_agents).contains(
            (links[i].to, link_channel_id(links[i].to, links[i].from)),
        ),
        has_agent(pool_agents, links[i].from) ==> checks_of(links, pool_agents).contains(
            (links[i].from, link_channel_id(links[i].from, links[i].to)),
        ),
    decreases links.len(),
{
    let l = links[i];
    let init = links.drop_last();
    let xt = (l.to, link_channel_id(l.to, l.from));
    let xf = (l.from, link_channel_id(l.from, l.to));
    if i == links.len() - 1 {
        law_looks_ignore_direction(l, pool_agents);
    } else {
        assert(init[i] == l);
        law_every_link_side_checked(init, pool_agents, i);
    }
    lemma_contains_concat(checks_of(init, pool_agents), checks_for_link(links.last(), pool_agents), xt);
    lemma_contains_concat(checks_of(init, pool_agents), checks_for_link(links.last(), pool_agents), xf);
}

fn has_pool(pool_agents: &Vec<String>, agent_id: &str) -> (r: bool)
    ensures
        r == has_agent(pool_agents@, agent_id@),
{
    let mut i: usize = 0;
    while i < pool_agents.len()
        invariant
            i <= pool_agents@.len(),
            forall|j: int| 0 <= j < i ==> (#[trigger] pool_agents@[j])@ != agent_id@,
        decreases pool_agents@.len() - i,
    {
        if str_eq(pool_agents[i].as_str(), agent_id) {
            return true;
        }
        i = i + 1;
    }
    false
}

/// The looks to make for unread messages: for each link, the channel of its
/// `to` agent and then of its `from` agent, where that agent has a store
/// (`pool_agents` lists the agents that have one).
pub fn unread_checks(links: &Vec<AgentLink>, pool_agents: &Vec<String>) -> (r: Vec<UnreadCheck>)
    ensures
        check_views(r@) == checks_of(links@.map_values(|l: AgentLink| l@), pool_agents@),
        forall|i: int|
            0 <= i < links@.len() && has_agent(pool_agents@, (#[trigger] links@[i]).to_agent_id@)
                ==> check_views(r@).contains(
                (links@[i].to_agent_id@, link_channel_id(links@[i].to_agent_id@, links@[i].from_agent_id@)),
            ),
        forall|i: int|
            0 <= i < links@.len() && has_agent(pool_agents@, (#[trigger] links@[i]).from_agent_id@)
                ==> check_views(r@).contains(
                (links@[i].from_agent_id@, link_channel_id(links@[i].from_agent_id@, links@[i].to_agent_id@)),
            ),
{
    let ghost lv = links@.map_values(|l: AgentLink| l@);
    let mut out: Vec<UnreadCheck> = Vec::new();
    let mut i: usize = 0;
    while i < links.len()
        invariant
            i <= links@.len(),
            lv == links@.map_values(|l: AgentLink| l@),
            check_views(out@) == checks_of(lv.take(i as int), pool_agents@),
        decreases links@.len() - i,
    {
        let link = &links[i];
        let ghost before = out@;
        let ghost l = lv[i as int];
        assert(l == link@);
        if has_pool(pool_agents, link.to_agent_id.as_str()) {
            let channel_id = link.channel_id_for(link.to_agent_id.as_str());
            out.push(UnreadCheck { agent_id: link.to_agent_id.clone(), channel_id });
        }
        let ghost middle = out@;
        if has_pool(pool_agents, link.from_agent_id.as_str()) {
            let channel_id = link.channel_id_for(link.from_agent_id.as_str());
            out.push(UnreadCheck { agent_id: link.from_agent_id.clone(), channel_id });
        }
        proof {
            assert(lv.take(i + 1).drop_last() =~= lv.take(i as int));
            assert(lv.take(i + 1).last() == l);
            assert(check_views(out@) =~= check_views(before) + checks_for_link(l, pool_agents@));
        }
        i = i + 1;
    }
    assert(lv.take(links@.len() as int) =~= lv);
    proof {
        assert forall|i: int| 0 <= i < links@.len() implies (has_agent(
            pool_agents@,
            (#[trigger] links@[i]).to_agent_id@,
        ) ==> check_views(out@).contains(
            (links@[i].to_agent_id@, link_channel_id(links@[i].to_agent_id@, links@[i].from_agent_id@)),
        )) && (has_agent(pool_agents@, links@[i].from_agent_id@) ==> check_views(out@).contains(
            (links@[i].from_agent_id@, link_channel_id(links@[i].from_agent_id@, links@[i].to_agent_id@)),
        )) by {
            assert(lv[i] == links@[i]@);
            law_every_link_side_checked(lv, pool_agents@, i);
        }
    }
    out
}

/// How many unread messages one look found for an agent.
pub struct UnreadCount {
    pub agent_id: String,
    pub count: usize,
}

/// The unread messages found for `a` in all the looks.
pub open spec fn total_for(results: Seq<UnreadCount>, a: Seq<char>) -> nat
    decreases results.len(),
{
    if results.len() == 0 {
        0
    } else {
        total_for(results.drop_last(), a) + if results.last().agent_id@ == a {
            results.last().count as nat
        } else {
            0
        }
    }
}

/// The unread messages found in all the looks together.
pub open spec fn sum_counts(results: Seq<UnreadCount>) -> nat
    decreases results.len(),
{
    if results.len() == 0 {
        0
    } else {
        sum_counts(results.drop_last()) + results.last().count as nat
    }
}

/// No agent stands twice.
pub open spec fn agents_distinct(counts: Seq<UnreadCount>) -> bool {
    forall|j: int, k: int|
        0 <= j < counts.len() && 0 <= k < counts.len() && j != k ==> counts[j].agent_id@
            != counts[k].agent_id@
}

proof fn lemma_sum_prefix(s: Seq<UnreadCount>, i: int)
    requires
        0 <= i <= s.len(),
    ensures
        sum_counts(s.take(i)) <= sum_counts(s),
    decreases s.len() - i,
{
    if i < s.len() {
        lemma_sum_prefix(s, i + 1);
        assert(s.take(i + 1).drop_last() =~= s.take(i));
    } else {
        assert(s.take(i) =~= s);
    }
}

proof fn lemma_total_le_sum(s: Seq<UnreadCount>, a: Seq<char>)
    ensures
        total_for(s, a) <= sum_counts(s),
    decreases s.len(),
{
    if s.len() > 0 {
        lemma_total_le_sum(s.drop_last(), a);
    }
}

proof fn lemma_sum_update(s: Seq<UnreadCount>, k: int, x: UnreadCount)
    requires
        0 <= k < s.len(),
    ensures
        sum_counts(s.update(k, x)) + s[k].count == sum_counts(s) + x.count,
    decreases s.len(),
{
    if k < s.len() - 1 {
        lemma_sum_update(s.drop_last(), k, x);
        assert(s.update(k, x).drop_last() =~= s.drop_last().update(k, x));
    } else {
        assert(s.update(k, x).drop_last() =~= s.drop_last());
    }
}

/// Adds up the unread messages per agent. Each agent with any unread message
/// stands once, with all its unread messages; agents with none do not stand;
/// every unread message found is counted exactly once.
pub fn tally_unread(results: &Vec<UnreadCount>) -> (r: Vec<UnreadCount>)
    requires
        sum_counts(results@) <= usize::MAX,
    ensures
        agents_distinct(r@),
        forall|k: int|
            0 <= k < r@.len() ==> (#[trigger] r@[k]).count == total_for(results@, r@[k].agent_id@)
                && r@[k].count > 0,
        forall|a: Seq<char>|
            total_for(results@, a) > 0 ==> exists|k: int|
                0 <= k < r@.len() && (#[trigger] r@[k]).agent_id@ == a,
        sum_counts(r@) == sum_counts(results@),
{
    let mut out: Vec<UnreadCount> = Vec::new();
    let mut i: usize = 0;
    while i < results.len()
        invariant
            i <= results@.len(),
            sum_counts(results@) <= usize::MAX,
            agents_distinct(out@),
            forall|k: int|
                0 <= k < out@.len() ==> (#[trigger] out@[k]).count == total_for(
                    results@.take(i as int),
                    out@[k].agent_id@,
                ) && out@[k].count > 0,
            forall|a: Seq<char>|
                (forall|k: int| 0 <= k < out@.len() ==> (#[trigger] out@[k]).agent_id@ != a)
                    ==> total_for(results@.take(i as int), a) == 0,
            sum_counts(out@) == sum_counts(results@.take(i as int)),
        decreases results@.len() - i,
    {
        let ghost prefix = results@.take(i as int);
        let ghost next = results@.take(i + 1);
        let ghost x = results@[i as int];
        proof {
            assert(next.drop_last() =~= prefix);
            assert(next.last() == x);
            lemma_sum_prefix(results@, i + 1);
            lemma_total_le_sum(next, x.agent_id@);
        }
        let c = results[i].count;
        if c > 0 {
            // find the agent among those counted so far
            let mut k: usize = 0;
            while k < out.len() && !str_eq(out[k].agent_id.as_str(), results[i].agent_id.as_str())
                invariant
                    k <= out@.len(),
                    forall|j: int| 0 <= j < k ==> (#[trigger] out@[j]).agent_id@ != x.agent_id@,
                    i < results@.len(),
                    x == results@[i as int],
                decreases out@.len() - k,
            {
                k = k + 1;
            }
            if k < out.len() {
                let ghost old_out = out@;
                let updated = UnreadCount {
                    agent_id: out[k].agent_id.clone(),
                    count: out[k].count + c,
                };
                out.set(k, updated);
                proof {
                    lemma_sum_update(old_out, k as int, out@[k as int]);
                    assert forall|j: int| 0 <= j < out@.len() implies (#[trigger] out@[j]).count
                        == total_for(next, out@[j].agent_id@) && out@[j].count > 0 by {
                        assert(total_for(next, out@[j].agent_id@) == total_for(
                            prefix,
                            out@[j].agent_id@,
                        ) + if x.agent_id@ == out@[j].agent_id@ {
                            x.count as nat
                        } else {
                            0
                        });
                        if j != k {
                            assert(old_out[j].agent_id@ != old_out[k as int].agent_id@);
                        }
                    }
                    assert forall|a: Seq<char>|
                        (forall|j: int| 0 <= j < out@.len() ==> (#[trigger] out@[j]).agent_id@ != a)
                            implies total_for(next, a) == 0 by {
                        assert(out@[k as int].agent_id@ != a);
                        assert(out@[k as int].agent_id@ == x.agent_id@);
                        assert forall|j: int| 0 <= j < old_out.len() implies (
                        #[trigger] old_out[j]).agent_id@ != a by {
                            assert(out@[j].agent_id@ != a);
                        }
                        assert(total_for(prefix, a) == 0);
                        assert(total_for(next, a) == total_for(prefix, a) + if x.agent_id@ == a {
                            x.count as nat
                        } else {
                            0
                        });
                    }
                    assert(agents_distinct(out@)) by {
                        assert forall|j1: int, j2: int|
                            0 <= j1 < out@.len() && 0 <= j2 < out@.len() && j1 != j2 implies out@[j1].agent_id@
                            != out@[j2].agent_id@ by {
                            assert(old_out[j1].agent_id@ != old_out[j2].agent_id@);
                        }
                    }
                }
            } else {
                let ghost old_out = out@;
                proof {
                    assert(total_for(prefix, x.agent_id@) == 0);
                }
                out.push(UnreadCount { agent_id: results[i].agent_id.clone(), count: c });
                proof {
                    assert(out@.drop_last() =~= old_out);
                    assert forall|j: int| 0 <= j < out@.len() implies (#[trigger] out@[j]).count
                        == total_for(next, out@[j].agent_id@) && out@[j].count > 0 by {
                        if j < old_out.len() {
                            assert(old_out[j] == out@[j]);
                            assert(old_out[j].agent_id@ != x.agent_id@);
                        }
                    }
                    assert forall|a: Seq<char>|
                        (forall|j: int| 0 <= j < out@.len() ==> (#[trigger] out@[j]).agent_id@ != a)
                            implies total_for(next, a) == 0 by {
                        assert(out@[old_out.len() as int].agent_id@ != a);
                        assert forall|j: int| 0 <= j < old_out.len() implies (
                        #[trigger] old_out[j]).agent_id@ != a by {
                            assert(out@[j] == old_out[j]);
                        }
                        assert(total_for(prefix, a) == 0);
                        assert(total_for(next, a) == total_for(prefix, a) + if x.agent_id@ == a {
                            x.count as nat
                        } else {
                            0
                        });
                    }
                    assert(agents_distinct(out@)) by {
                        assert forall|j1: int, j2: int|
                            0 <= j1 < out@.len() && 0 <= j2 < out@.len() && j1 != j2 implies out@[j1].agent_id@
                            != out@[j2].agent_id@ by {
                            if j1 < old_out.len() && j2 < old_out.len() {
                                assert(old_out[j1].agent_id@ != old_out[j2].agent_id@);
                            } else if j1 < old_out.len() {
                                assert(old_out[j1].agent_id@ != x.agent_id@);
                            } else if j2 < old_out.len() {
                                assert(old_out[j2].agent_id@ != x.agent_id@);
                            }
                        }
                    }
                }
            }
        } else {
            proof {
                assert forall|k: int| 0 <= k < out@.len() implies (#[trigger] out@[k]).count
                    == total_for(next, out@[k].agent_id@) && out@[k].count > 0 by {
                    assert(total_for(next, out@[k].agent_id@) == total_for(
                        prefix,
                        out@[k].agent_id@,
                    ));
                }
                assert forall|a: Seq<char>|
                    (forall|k: int| 0 <= k < out@.len() ==> (#[trigger] out@[k]).agent_id@ != a)
                        implies total_for(next, a) == 0 by {
                    assert(total_for(next, a) == total_for(prefix, a));
                }
            }
        }
        i = i + 1;
    }
    proof {
        assert(results@.take(results@.len() as int) =~= results@);
        assert forall|a: Seq<char>| total_for(results@, a) > 0 implies exists|k: int|
            0 <= k < out@.len() && (#[trigger] out@[k]).agent_id@ == a by {
            if forall|k: int| 0 <= k < out@.len() ==> (#[trigger] out@[k]).agent_id@ != a {
                assert(total_for(results@, a) == 0);
            }
        }
    }
    out
}

/// The notice for an agent with `count` unread messages.
pub open spec fn notification_text_of(count: nat) -> Seq<char> {
    "You have "@ + decimal_text(count) + " unread message(s) in your link channels"@
}

/// `You have <count> unread message(s) in your link channels`.
pub fn notification_text(count: usize) -> (r: String)
    ensures
        r@ == notification_text_of(count as nat),
{
    let mut r = String::new();
    r.append("You have ");
    push_decimal(&mut r, count as u64);
    r.append(" unread message(s) in your link channels");
    assert(r@ =~= notification_text_of(count as nat));
    r
}

/// A message of a channel is unread: an agent's (`user`) message that does not
/// begin with the acknowledgment marker (ASCII letters in any case) and that no
/// message of the channel acknowledges.
pub open spec fn is_unread(m: ConversationMessageView, msgs: Seq<ConversationMessageView>) -> bool {
    &&& m.role == "user"@
    &&& !starts_with_ascii_nocase(m.content, ack_marker())
    &&& !is_acknowledged(msgs, m.id)
}

/// Unreadness among the channel's messages `msgs`, as a predicate.
pub open spec fn unread_filter(msgs: Seq<ConversationMessageView>) -> spec_fn(
    ConversationMessageView,
) -> bool {
    |m: ConversationMessageView| is_unread(m, msgs)
}

/// The unread messages of a channel that a look reports: all of them, but at
/// most five.
pub open spec fn unread_count_of(msgs: Seq<ConversationMessageView>) -> nat {
    let n = msgs.filter(unread_filter(msgs)).len();
    if n < 5 {
        n
    } else {
        5
    }
}

/// Counts the unread messages among a channel's `messages`, up to five.
pub fn count_unread(messages: &Vec<ConversationMessage>) -> (r: usize)
    ensures
        r == unread_count_of(stored_views(messages@)),
{
    let ghost all = stored_views(messages@);
    let ghost pred = unread_filter(all);
    let mut count: usize = 0;
    let mut i: usize = 0;
    while i < messages.len()
        invariant
            i <= messages@.len(),
            all == stored_views(messages@),
            pred == unread_filter(all),
            count <= i,
            count == all.subrange(0, i as int).filter(pred).len(),
        decreases messages@.len() - i,
    {
        let m = &messages[i];
        let unread = str_eq(m.role.as_str(), "user") && !starts_with_ascii_nocase_str(
            m.content.as_str(),
            "[Acknowledgment]",
        ) && find_ack_record(messages, m.id.as_str()).is_none();
        proof {
            let before = all.subrange(0, i as int);
            let x = all[i as int];
            assert(x == messages@[i as int]@);
            assert(all.subrange(0, i + 1) =~= before.push(x));
            before.lemma_filter_push(x, pred);
            assert(pred(x) == unread);
        }
        if unread {
            count = count + 1;
        }
        i = i + 1;
    }
    proof {
        assert(all.subrange(0, messages@.len() as int) =~= all);
    }
    if count < 5 {
        count
    } else {
        5
    }
}

/// The notice for one agent: its unread messages, and the text it receives.
pub struct Notice {
    pub agent_id: String,
    pub count: usize,
    pub text: String,
}

/// Each look paired with the unread messages it found.
pub open spec fn look_results(checks: Seq<UnreadCheck>, counts: Seq<usize>) -> Seq<UnreadCount> {
    Seq::new(
        checks.len(),
        |i: int| UnreadCount { agent_id: checks[i].agent_id, count: counts[i] },
    )
}

/// The notices to send after the looks `checks` found `counts` unread messages
/// (one count per look, in the same order): one per agent with any unread
/// message, carrying all of that agent's unread messages, none for the others.
pub fn notices(checks: &Vec<UnreadCheck>, counts: &Vec<usize>) -> (r: Vec<Notice>)
    requires
        checks@.len() == counts@.len(),
        sum_counts(look_results(checks@, counts@)) <= usize::MAX,
    ensures
        forall|j: int, k: int|
            0 <= j < r@.len() && 0 <= k < r@.len() && j != k ==> r@[j].agent_id@ != r@[k].agent_id@,
        forall|k: int|
            0 <= k < r@.len() ==> {
                &&& (#[trigger] r@[k]).count == total_for(look_results(checks@, counts@), r@[k].agent_id@)
                &&& r@[k].count > 0
                &&& r@[k].text@ == notification_text_of(r@[k].count as nat)
            },
        forall|a: Seq<char>|
            total_for(look_results(checks@, counts@), a) > 0 ==> exists|k: int|
                0 <= k < r@.len() && (#[trigger] r@[k]).agent_id@ == a,
{
    let mut results: Vec<UnreadCount> = Vec::new();
    let mut i: usize = 0;
    while i < checks.len()
        invariant
            i <= checks@.len(),
            checks@.len() == counts@.len(),
            results@ == look_results(checks@, counts@).take(i as int),
        decreases checks@.len() - i,
    {
        results.push(UnreadCount { agent_id: checks[i].agent_id.clone(), count: counts[i] });
        i = i + 1;
        assert(results@ =~= look_results(checks@, counts@).take(i as int));
    }
    assert(results@ =~= look_results(checks@, counts@));
    let tally = tally_unread(&results);
    let mut out: Vec<Notice> = Vec::new();
    let mut k: usize = 0;
    while k < tally.len()
        invariant
            k <= tally@.len(),
            out@.len() == k,
            forall|j: int| 0 <= j < k ==> {
                &&& (#[trigger] out@[j]).agent_id@ == tally@[j].agent_id@
                &&& out@[j].count == tally@[j].count
                &&& out@[j].text@ == notification_text_of(out@[j].count as nat)
            },
        decreases tally@.len() - k,
    {
        let text = notification_text(tally[k].count);
        out.push(Notice { agent_id: tally[k].agent_id.clone(), count: tally[k].count, text });
        k = k + 1;
    }
    proof {
        assert forall|a: Seq<char>|
            total_for(look_results(checks@, counts@), a) > 0 implies exists|k: int|
                0 <= k < out@.len() && (#[trigger] out@[k]).agent_id@ == a by {
            let k = choose|k: int| 0 <= k < tally@.len() && (#[trigger] tally@[k]).agent_id@ == a;
            assert(out@[k].agent_id@ == a);
        }
        assert forall|j: int, k: int|
            0 <= j < out@.len() && 0 <= k < out@.len() && j != k implies out@[j].agent_id@
            != out@[k].agent_id@ by {
            assert(tally@[j].agent_id@ != tally@[k].agent_id@);
        }
        assert forall|k: int| 0 <= k < out@.len() implies {
            &&& (#[trigger] out@[k]).count == total_for(look_results(checks@, counts@), out@[k].agent_id@)
            &&& out@[k].count > 0
            &&& out@[k].text@ == notification_text_of(out@[k].count as nat)
        } by {
            assert(tally@[k].count == total_for(results@, tally@[k].agent_id@));
        }
    }
    out
}

} // verus!
