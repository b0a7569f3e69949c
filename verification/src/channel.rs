//! Link channel identifiers: `link:<first agent>:<second agent>`.

use vstd::prelude::*;
use vstd::string::*;
use crate::text::{chars_of, push_char};

verus! {

/// The characters `link:` that open every link channel identifier.
pub open spec fn link_prefix() -> Seq<char> {
    seq!['l', 'i', 'n', 'k', ':']
}

/// An agent part of a channel identifier: not empty, and without `:`.
pub open spec fn is_agent_part(a: Seq<char>) -> bool {
    &&& a.len() > 0
    &&& forall|i: int| 0 <= i < a.len() ==> a[i] != ':'
}

/// The identifier `link:<a>:<b>`.
pub open spec fn link_channel_id(a: Seq<char>, b: Seq<char>) -> Seq<char> {
    link_prefix() + a + seq![':'] + b
}

/// `c` splits at `:` into exactly the three parts `link`, a non-empty agent
/// and a non-empty agent.
pub open spec fn is_link_channel(c: Seq<char>) -> bool {
    exists|a: Seq<char>, b: Seq<char>|
        is_agent_part(a) && is_agent_part(b) && c == #[trigger] link_channel_id(a, b)
}

/// The two agent parts of a link channel identifier, in the order they stand.
pub open spec fn channel_agents(c: Seq<char>) -> (Seq<char>, Seq<char>) {
    choose|a: Seq<char>, b: Seq<char>|
        is_agent_part(a) && is_agent_part(b) && c == #[trigger] link_channel_id(a, b)
}

/// The first agent of a link channel identifier (the side that writes in it).
pub open spec fn channel_from(c: Seq<char>) -> Seq<char> {
    channel_agents(c).0
}

/// The second agent of a link channel identifier.
pub open spec fn channel_to(c: Seq<char>) -> Seq<char> {
    channel_agents(c).1
}

/// The same link channel seen from the other side: `link:<b>:<a>` for `link:<a>:<b>`.
pub open spec fn reversed_channel(c: Seq<char>) -> Seq<char> {
    link_channel_id(channel_to(c), channel_from(c))
}

/// The label `<a>-><b>` that names the direction of a link.
pub open spec fn link_label(a: Seq<char>, b: Seq<char>) -> Seq<char> {
    a + seq!['-', '>'] + b
}

proof fn lemma_link_channel_shape(a: Seq<char>, b: Seq<char>)
    requires
        is_agent_part(a),
        is_agent_part(b),
    ensures
        ({
            let c = link_channel_id(a, b);
            &&& c.len() == 6 + a.len() + b.len()
            &&& c.subrange(0, 5) == link_prefix()
            &&& c[5 + a.len() as int] == ':'
            &&& c.subrange(5, 5 + a.len() as int) == a
            &&& c.subrange(6 + a.len() as int, c.len() as int) == b
            &&& forall|i: int| 5 <= i < 5 + a.len() ==> c[i] != ':'
            &&& forall|i: int| 5 + a.len() < i < c.len() ==> c[i] != ':'
        }),
{
    let c = link_channel_id(a, b);
    assert(c.subrange(0, 5) =~= link_prefix());
    assert(c.subrange(5, 5 + a.len() as int) =~= a);
    assert(c.subrange(6 + a.len() as int, c.len() as int) =~= b);
    assert forall|i: int| 5 <= i < 5 + a.len() implies c[i] != ':' by {
        assert(c[i] == a[i - 5]);
    }
    assert forall|i: int| 5 + a.len() < i < c.len() implies c[i] != ':' by {
        assert(c[i] == b[i - 6 - a.len()]);
    }
}

/// A link channel identifier has only one split into its two agents.
pub proof fn lemma_link_channel_unique(a: Seq<char>, b: Seq<char>, a2: Seq<char>, b2: Seq<char>)
    requires
        is_agent_part(a),
        is_agent_part(b),
        is_agent_part(a2),
        is_agent_part(b2),
        link_channel_id(a, b) == link_channel_id(a2, b2),
    ensures
        a == a2,
        b == b2,
{
    lemma_link_channel_shape(a, b);
    lemma_link_channel_shape(a2, b2);
    let c = link_channel_id(a, b);
    if a.len() < a2.len() {
        assert(c[5 + a.len() as int] == ':');
    } else if a2.len() < a.len() {
        assert(c[5 + a2.len() as int] == ':');
    }
    assert(a.len() == a2.len());
}

/// The agents of `link:<a>:<b>` are `a` and `b`.
pub proof fn lemma_channel_agents(a: Seq<char>, b: Seq<char>)
    requires
        is_agent_part(a),
        is_agent_part(b),
    ensures
        is_link_channel(link_channel_id(a, b)),
        channel_from(link_channel_id(a, b)) == a,
        channel_to(link_channel_id(a, b)) == b,
{
    let c = link_channel_id(a, b);
    assert(is_agent_part(a) && is_agent_part(b) && c == link_channel_id(a, b));
    let (x, y) = channel_agents(c);
    lemma_link_channel_unique(a, b, x, y);
}

/// Law: reversing a link channel gives a link channel, and reversing twice gives
/// back the channel.
pub proof fn law_reversed_channel(c: Seq<char>)
    requires
        is_link_channel(c),
    ensures
        is_link_channel(reversed_channel(c)),
        channel_from(reversed_channel(c)) == channel_to(c),
        channel_to(reversed_channel(c)) == channel_from(c),
        reversed_channel(reversed_channel(c)) == c,
{
    let (a, b) = channel_agents(c);
    lemma_channel_agents(a, b);
    lemma_channel_agents(b, a);
}

/// A new string holding `v[lo..hi]`.
fn string_of_range(v: &Vec<char>, lo: usize, hi: usize) -> (r: String)
    requires
        lo <= hi <= v.len(),
    ensures
        r@ == v@.subrange(lo as int, hi as int),
{
    let mut r = String::new();
    let mut i = lo;
    while i < hi
        invariant
            lo <= i <= hi <= v.len(),
            r@ == v@.subrange(lo as int, i as int),
        decreases hi - i,
    {
        push_char(&mut r, v[i]);
        i = i + 1;
        assert(r@ =~= v@.subrange(lo as int, i as int));
    }
    r
}

/// Splits a link channel identifier into its two agents, or `None` where it is
/// not one.
pub fn parse_link_channel(channel_id: &str) -> (r: Option<(String, String)>)
    ensures
        r is Some <==> is_link_channel(channel_id@),
        r matches Some((a, b)) ==> {
            &&& is_agent_part(a@)
            &&& is_agent_part(b@)
            &&& channel_id@ == link_channel_id(a@, b@)
            &&& a@ == channel_from(channel_id@)
            &&& b@ == channel_to(channel_id@)
        },
{
    let v = chars_of(channel_id);
    let ghost c = channel_id@;
    let n = v.len();
    if n < 5 || v[0] != 'l' || v[1] != 'i' || v[2] != 'n' || v[3] != 'k' || v[4] != ':' {
        proof {
            if is_link_channel(c) {
                let (a, b) = channel_agents(c);
                lemma_link_channel_shape(a, b);
                assert(c.subrange(0, 5)[0] == 'l');
                assert(c.subrange(0, 5)[1] == 'i');
                assert(c.subrange(0, 5)[2] == 'n');
                assert(c.subrange(0, 5)[3] == 'k');
                assert(c.subrange(0, 5)[4] == ':');
            }
        }
        return None;
    }
    // first ':' after the prefix
    let mut q: usize = 5;
    while q < n && v[q] != ':'
        invariant
            v@ == c,
            n == v.len(),
            5 <= q <= n,
            forall|i: int| 5 <= i < q ==> v@[i] != ':',
        decreases n - q,
    {
        q = q + 1;
    }
    if q == n {
        proof {
            if is_link_channel(c) {
                let (a, b) = channel_agents(c);
                lemma_link_channel_shape(a, b);
                assert(c[5 + a.len() as int] == ':');
            }
        }
        return None;
    }
    // no further ':'
    let mut k: usize = q + 1;
    while k < n && v[k] != ':'
        invariant
            v@ == c,
            n == v.len(),
            q < k <= n,
            forall|i: int| q < i < k ==> v@[i] != ':',
        decreases n - k,
    {
        k = k + 1;
    }
    if k < n || q == 5 || q + 1 == n {
        proof {
            if is_link_channel(c) {
                let (a, b) = channel_agents(c);
                lemma_link_channel_shape(a, b);
                // the first ':' after the prefix ends the first agent
                if q < 5 + a.len() {
                    assert(c[q as int] != ':');
                } else if q > 5 + a.len() {
                    assert(v@[5 + a.len() as int] != ':');
                }
                assert(q == 5 + a.len());
            }
        }
        return None;
    }
    let a = string_of_range(&v, 5, q);
    let b = string_of_range(&v, q + 1, n);
    proof {
        assert(c =~= link_channel_id(a@, b@));
        lemma_channel_agents(a@, b@);
    }
    Some((a, b))
}

/// Whether `channel_id` is a link channel identifier: `link:<a>:<b>` with
/// non-empty agents `a` and `b` that hold no `:`.
pub fn is_valid_link_channel(channel_id: &str) -> (r: bool)
    ensures
        r == is_link_channel(channel_id@),
{
    parse_link_channel(channel_id).is_some()
}

/// Builds `link:<a>:<b>`.
pub fn format_link_channel(a: &str, b: &str) -> (r: String)
    ensures
        r@ == link_channel_id(a@, b@),
{
    let mut r = String::new();
    push_char(&mut r, 'l');
    push_char(&mut r, 'i');
    push_char(&mut r, 'n');
    push_char(&mut r, 'k');
    push_char(&mut r, ':');
    r.append(a);
    push_char(&mut r, ':');
    r.append(b);
    assert(r@ =~= link_channel_id(a@, b@));
    r
}

/// Builds `<a>-><b>`.
pub fn format_link_label(a: &str, b: &str) -> (r: String)
    ensures
        r@ == link_label(a@, b@),
{
    let mut r = String::new();
    r.append(a);
    push_char(&mut r, '-');
    push_char(&mut r, '>');
    r.append(b);
    assert(r@ =~= link_label(a@, b@));
    r
}

} // verus!
