//! Channel identity and lifecycle status.

use crate::text::{decimal_text, digits_value, is_digit, lemma_decimal_text_value, push_decimal};
use vstd::prelude::*;
use vstd::string::StringExecFns;

verus! {

/// Lifecycle of a channel. A channel only ever moves forward:
/// `Established`, then `Closing`, then `Closed`.
#[derive(Debug, Clone, Copy, PartialEq, Eq, Structural)]
pub enum ChannelStatus {
    Established,
    Closing,
    Closed,
}

impl ChannelStatus {
    /// Position of the status in the lifecycle.
    pub open spec fn rank(self) -> nat {
        match self {
            ChannelStatus::Established => 0,
            ChannelStatus::Closing => 1,
            ChannelStatus::Closed => 2,
        }
    }

    /// The name of the status.
    pub open spec fn name(self) -> Seq<char> {
        match self {
            ChannelStatus::Established => "Established"@,
            ChannelStatus::Closing => "Closing"@,
            ChannelStatus::Closed => "Closed"@,
        }
    }

    /// The name of the status, as it is shown.
    pub fn as_str(&self) -> (s: &'static str)
        ensures
            s@ == self.name(),
    {
        match self {
            ChannelStatus::Established => "Established",
            ChannelStatus::Closing => "Closing",
            ChannelStatus::Closed => "Closed",
        }
    }

    /// Position of the status in the lifecycle.
    pub fn level(&self) -> (r: u8)
        ensures
            r as nat == self.rank(),
    {
        match self {
            ChannelStatus::Established => 0,
            ChannelStatus::Closing => 1,
            ChannelStatus::Closed => 2,
        }
    }
}

/// The text of the channel id that the node `node` hands out as its
/// `number`-th: the two numerals, joined by a hyphen.
pub open spec fn channel_id_text(node: u64, number: u64) -> Seq<char> {
    decimal_text(node as nat) + seq!['-'] + decimal_text(number as nat)
}

/// Two channel ids are the same text only where the same node handed them
/// out under the same number: no id is handed out twice.
pub proof fn lemma_channel_ids_differ(node_a: u64, a: u64, node_b: u64, b: u64)
    ensures
        channel_id_text(node_a, a) == channel_id_text(node_b, b) ==> node_a == node_b && a == b,
{
    let ta = decimal_text(node_a as nat);
    let tb = decimal_text(node_b as nat);
    let xa = decimal_text(a as nat);
    let xb = decimal_text(b as nat);
    let sa = channel_id_text(node_a, a);
    let sb = channel_id_text(node_b, b);
    lemma_decimal_text_value(node_a as nat);
    lemma_decimal_text_value(node_b as nat);
    lemma_decimal_text_value(a as nat);
    lemma_decimal_text_value(b as nat);
    if sa == sb {
        assert(sa[ta.len() as int] == '-');
        assert(sb[tb.len() as int] == '-');
        if ta.len() < tb.len() {
            assert(sb[ta.len() as int] == tb[ta.len() as int]);
            assert(is_digit(tb[ta.len() as int]));
        }
        if tb.len() < ta.len() {
            assert(sa[tb.len() as int] == ta[tb.len() as int]);
            assert(is_digit(ta[tb.len() as int]));
        }
        assert(ta.len() == tb.len());
        assert(sa.take(ta.len() as int) =~= ta);
        assert(sb.take(tb.len() as int) =~= tb);
        assert(ta == tb);
        assert(digits_value(ta) == digits_value(tb));
        assert(sa.skip(ta.len() as int + 1) =~= xa);
        assert(sb.skip(tb.len() as int + 1) =~= xb);
        assert(xa == xb);
        assert(digits_value(xa) == digits_value(xb));
    }
}

/// The source of the channel ids of one node. It hands out each id once.
#[derive(Debug, PartialEq, Eq)]
pub struct ChannelIds {
    node: u64,
    next: u64,
}

impl ChannelIds {
    /// The node whose ids these are.
    pub closed spec fn node(&self) -> u64 {
        self.node
    }

    /// How many ids the source has handed out.
    pub closed spec fn count(&self) -> u64 {
        self.next
    }

    /// The ids that the source has handed out.
    pub open spec fn handed_out(&self) -> Set<Seq<char>> {
        Set::new(
            |id: Seq<char>|
                exists|m: u64| m < self.count() && id == channel_id_text(self.node(), m),
        )
    }

    /// The source of the ids of the node `node`, which has handed out none.
    pub fn new(node: u64) -> (r: Self)
        ensures
            r.node() == node,
            r.count() == 0,
            r.handed_out() == Set::<Seq<char>>::empty(),
    {
        let r = ChannelIds { node, next: 0 };
        proof {
            assert(r.handed_out() =~= Set::<Seq<char>>::empty());
        }
        r
    }
}

/// Identity of one client connection: stable for the connection's lifetime.
#[derive(Debug, PartialEq, Eq)]
pub struct ChannelId {
    id: String,
}

impl View for ChannelId {
    type V = Seq<char>;

    closed spec fn view(&self) -> Seq<char> {
        self.id@
    }
}

impl Clone for ChannelId {
    fn clone(&self) -> (r: Self)
        ensures
            r == *self,
    {
        ChannelId { id: self.id.clone() }
    }
}

impl ChannelId {
    /// A channel id that this source has not handed out before: the node's
    /// number, a hyphen, and the number of ids that the source handed out so
    /// far. A source that has handed out every number it has gives none.
    pub fn generate(ids: &mut ChannelIds) -> (r: Option<Self>)
        ensures
            final(ids).node() == old(ids).node(),
            match r {
                Some(id) => {
                    &&& old(ids).count() < u64::MAX
                    &&& id@ == channel_id_text(old(ids).node(), old(ids).count())
                    &&& final(ids).count() == old(ids).count() + 1
                    &&& !old(ids).handed_out().contains(id@)
                    &&& final(ids).handed_out() == old(ids).handed_out().insert(id@)
                },
                None => old(ids).count() == u64::MAX && final(ids).count() == old(ids).count(),
            },
    {
        if ids.next == u64::MAX {
            return None;
        }
        let mut text = String::new();
        push_decimal(&mut text, ids.node);
        proof {
            reveal_strlit("-");
            assert("-"@ =~= seq!['-']);
        }
        text.append("-");
        push_decimal(&mut text, ids.next);
        let ghost number = ids.next;
        ids.next = ids.next + 1;
        proof {
            let node = ids.node;
            assert(text@ =~= channel_id_text(node, number));
            assert forall|m: u64| m < number implies channel_id_text(node, m) != text@ by {
                lemma_channel_ids_differ(node, m, node, number);
            }
            assert forall|id: Seq<char>| #[trigger]
                final(ids).handed_out().contains(id) == old(ids).handed_out().insert(
                    text@,
                ).contains(id) by {
                if final(ids).handed_out().contains(id) {
                    let m = choose|m: u64| m < number + 1 && id == channel_id_text(node, m);
                    if m < number {
                        assert(old(ids).handed_out().contains(id));
                    }
                }
                if old(ids).handed_out().contains(id) {
                    let m = choose|m: u64| m < number && id == channel_id_text(node, m);
                    assert(m < number + 1 && id == channel_id_text(node, m));
                }
                if id == text@ {
                    assert(number < number + 1 && id == channel_id_text(node, number));
                }
            }
            assert(final(ids).handed_out() =~= old(ids).handed_out().insert(text@));
        }
        Some(ChannelId { id: text })
    }

    /// The id that is the given text.
    pub fn new(value: String) -> (r: Self)
        ensures
            r@ == value@,
    {
        ChannelId { id: value }
    }

    /// The id as text.
    pub fn as_str(&self) -> (s: &str)
        ensures
            s@ == self@,
    {
        self.id.as_str()
    }

    /// Turns the id into its text.
    pub fn into_string(self) -> (s: String)
        ensures
            s@ == self@,
    {
        self.id
    }

    /// Whether two ids are the same text.
    pub fn same(&self, other: &ChannelId) -> (b: bool)
        ensures
            b == (self@ == other@),
    {
        self.id == other.id
    }
}

impl From<String> for ChannelId {
    fn from(value: String) -> (r: Self) {
        ChannelId { id: value }
    }
}

impl vstd::std_specs::convert::FromSpecImpl<String> for ChannelId {
    open spec fn obeys_from_spec() -> bool {
        true
    }

    closed spec fn from_spec(value: String) -> Self {
        ChannelId { id: value }
    }
}

} // verus!
