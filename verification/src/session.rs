//! The session table of a node: the channels that the node terminates, each
//! with the handle that packets for it are handed to.

use crate::channel::{ChannelId, ChannelStatus};
use vstd::prelude::*;

verus! {

/// A channel that this node terminates. `H` is the handle that packets for
/// the channel are handed to.
#[derive(Debug)]
pub struct Channel<H> {
    channel_id: ChannelId,
    remote_address: String,
    rx: H,
    channel_status: ChannelStatus,
}

/// What a channel holds.
pub struct ChannelView<H> {
    pub channel_id: Seq<char>,
    pub remote_address: Seq<char>,
    pub rx: H,
    pub channel_status: ChannelStatus,
}

impl<H> View for Channel<H> {
    type V = ChannelView<H>;

    closed spec fn view(&self) -> ChannelView<H> {
        ChannelView {
            channel_id: self.channel_id@,
            remote_address: self.remote_address@,
            rx: self.rx,
            channel_status: self.channel_status,
        }
    }
}

impl<H> Channel<H> {
    /// A channel that was just established with the client at
    /// `remote_address`.
    pub fn new(channel_id: ChannelId, remote_address: String, sender: H) -> (r: Self)
        ensures
            r@ == (ChannelView {
                channel_id: channel_id@,
                remote_address: remote_address@,
                rx: sender,
                channel_status: ChannelStatus::Established,
            }),
    {
        Channel { channel_id, remote_address, rx: sender, channel_status: ChannelStatus::Established }
    }

    /// The channel's id.
    pub fn channel_id(&self) -> (id: &ChannelId)
        ensures
            id@ == self@.channel_id,
    {
        &self.channel_id
    }

    /// The address of the client.
    pub fn remote_address(&self) -> (a: &str)
        ensures
            a@ == self@.remote_address,
    {
        self.remote_address.as_str()
    }

    /// The handle that packets for the channel are handed to.
    pub fn sender(&self) -> (h: &H)
        ensures
            *h == self@.rx,
    {
        &self.rx
    }

    /// The channel's status.
    pub fn status(&self) -> (s: ChannelStatus)
        ensures
            s == self@.channel_status,
    {
        self.channel_status
    }
}

/// Where the channel `id` stands among `channels`: the first position that
/// holds it, if any does.
pub open spec fn slot<H>(channels: Seq<ChannelView<H>>, id: Seq<char>) -> Option<int>
    decreases channels.len(),
{
    if channels.len() == 0 {
        None
    } else {
        match slot(channels.drop_last(), id) {
            Some(i) => Some(i),
            None => if channels.last().channel_id == id {
                Some(channels.len() - 1)
            } else {
                None
            },
        }
    }
}

/// The channel `id` among `channels`, if it is there.
pub open spec fn channel_of<H>(channels: Seq<ChannelView<H>>, id: Seq<char>) -> Option<
    ChannelView<H>,
> {
    match slot(channels, id) {
        Some(i) => Some(channels[i]),
        None => None,
    }
}

/// The handle that a packet for the channel `id` is handed to: that of the
/// channel, unless it is not among `channels` or is closed.
pub open spec fn deliverable<H>(channels: Seq<ChannelView<H>>, id: Seq<char>) -> Option<H> {
    match channel_of(channels, id) {
        Some(c) => if c.channel_status == ChannelStatus::Closed {
            None
        } else {
            Some(c.rx)
        },
        None => None,
    }
}

/// The channels after one was added: it stands in place of the channel with
/// its id, or at the end where there was none.
pub open spec fn added<H>(channels: Seq<ChannelView<H>>, c: ChannelView<H>) -> Seq<
    ChannelView<H>,
> {
    match slot(channels, c.channel_id) {
        Some(i) => channels.update(i, c),
        None => channels.push(c),
    }
}

/// The channel `c`, closed.
pub open spec fn closed<H>(c: ChannelView<H>) -> ChannelView<H> {
    ChannelView {
        channel_id: c.channel_id,
        remote_address: c.remote_address,
        rx: c.rx,
        channel_status: ChannelStatus::Closed,
    }
}

/// The channels after the channel `id` was closed.
pub open spec fn closed_at<H>(channels: Seq<ChannelView<H>>, id: Seq<char>) -> Seq<ChannelView<H>> {
    match slot(channels, id) {
        Some(i) => channels.update(i, closed(channels[i])),
        None => channels,
    }
}

/// The channels that are not closed, in their order.
pub open spec fn cleared<H>(channels: Seq<ChannelView<H>>) -> Seq<ChannelView<H>>
    decreases channels.len(),
{
    if channels.len() == 0 {
        channels
    } else if channels.last().channel_status == ChannelStatus::Closed {
        cleared(channels.drop_last())
    } else {
        cleared(channels.drop_last()).push(channels.last())
    }
}

/// What a slot says: the channel there has the id and no earlier one has;
/// and no slot says that no channel has the id.
pub proof fn lemma_slot<H>(channels: Seq<ChannelView<H>>, id: Seq<char>)
    ensures
        match slot(channels, id) {
            Some(i) => 0 <= i < channels.len() && channels[i].channel_id == id && forall|j: int|
                0 <= j < i ==> (#[trigger] channels[j]).channel_id != id,
            None => forall|j: int|
                0 <= j < channels.len() ==> (#[trigger] channels[j]).channel_id != id,
        },
    decreases channels.len(),
{
    if channels.len() > 0 {
        lemma_slot(channels.drop_last(), id);
        match slot(channels.drop_last(), id) {
            Some(i) => {
                assert forall|j: int| 0 <= j < i implies (#[trigger] channels[j]).channel_id
                    != id by {
                    assert(channels.drop_last()[j] == channels[j]);
                }
                assert(channels.drop_last()[i] == channels[i]);
            },
            None => {
                assert forall|j: int| 0 <= j < channels.len() - 1 implies (
                #[trigger] channels[j]).channel_id != id by {
                    assert(channels.drop_last()[j] == channels[j]);
                }
            },
        }
    }
}

/// A slot found in a prefix is the slot in the whole.
pub proof fn lemma_slot_prefix<H>(channels: Seq<ChannelView<H>>, id: Seq<char>, k: int)
    requires
        0 <= k <= channels.len(),
        slot(channels.take(k), id) is Some,
    ensures
        slot(channels, id) == slot(channels.take(k), id),
    decreases channels.len(),
{
    if k == channels.len() {
        assert(channels.take(k) =~= channels);
    } else {
        assert(channels.drop_last().take(k) =~= channels.take(k));
        lemma_slot_prefix(channels.drop_last(), id, k);
    }
}

/// A channel that was added is the one found under its id.
pub proof fn lemma_added_is_found<H>(channels: Seq<ChannelView<H>>, c: ChannelView<H>)
    ensures
        channel_of(added(channels, c), c.channel_id) == Some(c),
{
    let after = added(channels, c);
    lemma_slot(channels, c.channel_id);
    lemma_slot(after, c.channel_id);
    match slot(channels, c.channel_id) {
        Some(i) => {
            assert(after[i] == c);
            assert forall|j: int| 0 <= j < i implies (#[trigger] after[j]).channel_id
                != c.channel_id by {
                assert(after[j] == channels[j]);
            }
        },
        None => {
            assert(after[channels.len() as int] == c);
            assert forall|j: int| 0 <= j < channels.len() implies (
            #[trigger] after[j]).channel_id != c.channel_id by {
                assert(after[j] == channels[j]);
            }
        },
    }
}

/// After the closed channels were cleared, none that is left is closed.
pub proof fn lemma_cleared_has_no_closed<H>(channels: Seq<ChannelView<H>>)
    ensures
        forall|i: int|
            0 <= i < cleared(channels).len() ==> (#[trigger] cleared(channels)[i]).channel_status
                != ChannelStatus::Closed,
    decreases channels.len(),
{
    if channels.len() > 0 {
        lemma_cleared_has_no_closed(channels.drop_last());
        let before = cleared(channels.drop_last());
        if channels.last().channel_status != ChannelStatus::Closed {
            assert forall|i: int| 0 <= i < cleared(channels).len() implies (#[trigger] cleared(
                channels,
            )[i]).channel_status != ChannelStatus::Closed by {
                if i < before.len() {
                    assert(cleared(channels)[i] == before[i]);
                }
            }
        }
    }
}

/// What a vector of channels holds.
pub open spec fn channels_view<H>(channels: Seq<Channel<H>>) -> Seq<ChannelView<H>> {
    Seq::new(channels.len(), |i: int| channels[i]@)
}

/// The channels of a node, found by channel id.
#[derive(Debug)]
pub struct SharedSession<H> {
    channels: Vec<Channel<H>>,
}

impl<H> View for SharedSession<H> {
    type V = Seq<ChannelView<H>>;

    closed spec fn view(&self) -> Seq<ChannelView<H>> {
        channels_view(self.channels@)
    }
}

impl<H> SharedSession<H> {
    /// A session table without a channel.
    pub fn init() -> (r: Self)
        ensures
            r@.len() == 0,
    {
        SharedSession { channels: Vec::new() }
    }

    /// Where the channel `id` stands.
    fn position(&self, id: &ChannelId) -> (r: Option<usize>)
        ensures
            match r {
                Some(i) => slot(self@, id@) == Some(i as int) && i < self.channels.len(),
                None => slot(self@, id@) is None,
            },
    {
        let ghost channels = self@;
        let mut i: usize = 0;
        proof {
            assert(channels.take(0) =~= Seq::<ChannelView<H>>::empty());
        }
        while i < self.channels.len()
            invariant
                i <= self.channels.len(),
                channels == self@,
                channels.len() == self.channels.len(),
                slot(channels.take(i as int), id@) is None,
            decreases self.channels.len() - i,
        {
            proof {
                assert(channels.take(i + 1).drop_last() =~= channels.take(i as int));
                assert(channels.take(i + 1).last() == self.channels@[i as int]@);
            }
            if self.channels[i].channel_id.same(id) {
                proof {
                    lemma_slot_prefix(channels, id@, i + 1);
                }
                return Some(i);
            }
            i = i + 1;
        }
        proof {
            assert(channels.take(channels.len() as int) =~= channels);
        }
        None
    }

    /// Adds a channel, in place of the channel with its id if there is one.
    pub fn add(&mut self, channel: Channel<H>)
        ensures
            final(self)@ == added(old(self)@, channel@),
            channel_of(final(self)@, channel@.channel_id) == Some(channel@),
    {
        proof {
            lemma_added_is_found(self@, channel@);
        }
        match self.position(&channel.channel_id) {
            Some(i) => {
                let _ = self.channels.remove(i);
                self.channels.insert(i, channel);
                proof {
                    assert(final(self)@ =~= old(self)@.update(i as int, channel@));
                }
            },
            None => {
                self.channels.push(channel);
                proof {
                    assert(final(self)@ =~= old(self)@.push(channel@));
                }
            },
        }
    }

    /// The channel `channel_id`, if this node terminates it.
    pub fn find(&self, channel_id: &ChannelId) -> (r: Option<&Channel<H>>)
        ensures
            match r {
                Some(c) => channel_of(self@, channel_id@) == Some(c@),
                None => channel_of(self@, channel_id@) is None,
            },
    {
        match self.position(channel_id) {
            Some(i) => Some(&self.channels[i]),
            None => None,
        }
    }

    /// The handle to hand a packet for `channel_id` to: that of the channel,
    /// unless the node does not terminate it or it is closed.
    pub fn send(&self, channel_id: &ChannelId) -> (r: Option<&H>)
        ensures
            match deliverable(self@, channel_id@) {
                Some(handle) => r == Some(&handle),
                None => r is None,
            },
    {
        match self.find(channel_id) {
            Some(channel) => match channel.status() {
                ChannelStatus::Closed => None,
                _ => Some(channel.sender()),
            },
            None => None,
        }
    }

    /// Closes the channel `channel_id`; says whether the node terminates it.
    pub fn close(&mut self, channel_id: &ChannelId) -> (r: bool)
        ensures
            final(self)@ == closed_at(old(self)@, channel_id@),
            r == (slot(old(self)@, channel_id@) is Some),
    {
        match self.position(channel_id) {
            Some(i) => {
                let channel = self.channels.remove(i);
                let ghost before = channel@;
                let closed = Channel {
                    channel_id: channel.channel_id,
                    remote_address: channel.remote_address,
                    rx: channel.rx,
                    channel_status: ChannelStatus::Closed,
                };
                self.channels.insert(i, closed);
                proof {
                    assert(before == old(self)@[i as int]);
                    assert(final(self)@ =~= closed_at(old(self)@, channel_id@));
                }
                true
            },
            None => false,
        }
    }

    /// Drops the channels that are closed.
    pub fn clear_closed_channel(&mut self)
        ensures
            final(self)@ == cleared(old(self)@),
    {
        let ghost all = self@;
        let mut rest: Vec<Channel<H>> = Vec::new();
        core::mem::swap(&mut self.channels, &mut rest);
        let n = rest.len();
        // Channels are moved, not copied: turn them round, then take them
        // off the end.
        let mut reversed: Vec<Channel<H>> = Vec::new();
        while rest.len() > 0
            invariant
                rest.len() + reversed.len() == n,
                n == all.len(),
                self.channels@.len() == 0,
                forall|k: int| 0 <= k < rest.len() ==> (#[trigger] rest@[k])@ == all[k],
                forall|k: int|
                    0 <= k < reversed.len() ==> (#[trigger] reversed@[k])@ == all[n - 1 - k],
            decreases rest.len(),
        {
            let c = rest.pop().unwrap();
            reversed.push(c);
        }
        let mut done: usize = 0;
        proof {
            assert(all.take(0) =~= Seq::<ChannelView<H>>::empty());
            assert(self@ =~= cleared(all.take(0)));
        }
        while reversed.len() > 0
            invariant
                done + reversed.len() == n,
                n == all.len(),
                forall|k: int|
                    0 <= k < reversed.len() ==> (#[trigger] reversed@[k])@ == all[n - 1 - k],
                self@ == cleared(all.take(done as int)),
            decreases reversed.len(),
        {
            let c = reversed.pop().unwrap();
            let ghost kept = self@;
            proof {
                assert(c@ == all[done as int]);
                assert(all.take(done + 1).drop_last() =~= all.take(done as int));
                assert(all.take(done + 1).last() == all[done as int]);
            }
            match c.channel_status {
                ChannelStatus::Closed => {},
                _ => {
                    self.channels.push(c);
                    proof {
                        assert(self@ =~= kept.push(c@));
                    }
                },
            }
            done = done + 1;
        }
        proof {
            assert(all.take(n as int) =~= all);
        }
    }
}

} // verus!
