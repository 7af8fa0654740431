//! Watched channels and their message buffers.
//!
//! Each channel keeps at most its 200 latest messages, oldest first.

use std::collections::HashMap;
use vstd::prelude::*;
use std::collections::HashSet;
use vstd::std_specs::iter::IteratorSpec;
use crate::ipc::DisplayMessage;

verus! {

broadcast use vstd::std_specs::hash::group_hash_axioms;

/// Maximum messages to keep per channel.
pub const MAX_MESSAGES_PER_CHANNEL: usize = 200;

/// Channel metadata.
#[derive(Debug, Clone)]
pub struct ChannelMetadata {
    pub guild_id: Option<u64>,
    pub name: String,
    pub guild_name: Option<String>,
    pub message_count: u64,
}

impl Default for ChannelMetadata {
    fn default() -> (m: ChannelMetadata)
        ensures
            m.guild_id is None,
            m.name@.len() == 0,
            m.guild_name is None,
            m.message_count == 0,
    {
        ChannelMetadata { guild_id: None, name: String::new(), guild_name: None, message_count: 0 }
    }
}

/// The latest `MAX_MESSAGES_PER_CHANNEL` messages of `s`, in order.
pub open spec fn keep_latest(s: Seq<DisplayMessage>) -> Seq<DisplayMessage> {
    if s.len() > MAX_MESSAGES_PER_CHANNEL {
        s.skip(s.len() - MAX_MESSAGES_PER_CHANNEL)
    } else {
        s
    }
}

/// `s` without the messages whose id is `id`, in order.
pub open spec fn without_message(s: Seq<DisplayMessage>, id: u64) -> Seq<DisplayMessage>
    decreases s.len(),
{
    if s.len() == 0 {
        s
    } else if s.last().id == id {
        without_message(s.drop_last(), id)
    } else {
        without_message(s.drop_last(), id).push(s.last())
    }
}

/// Channel state management.
pub struct ChannelState {
    /// Watched channel ids
    watched: HashSet<u64>,
    /// Message buffers per channel
    messages: HashMap<u64, Vec<DisplayMessage>>,
    /// Channel metadata
    metadata: HashMap<u64, ChannelMetadata>,
    /// Currently selected channel
    selected_channel: Option<u64>,
    /// Scroll position in message list
    scroll_offset: usize,
    /// Whether we're fetching history
    fetching_history: bool,
}

impl ChannelState {
    /// The watched channels.
    pub closed spec fn watched_set(&self) -> Set<u64> {
        self.watched@
    }

    /// The buffer of channel `id`, if it has one.
    pub closed spec fn buffer(&self, id: u64) -> Option<Seq<DisplayMessage>> {
        if self.messages@.contains_key(id) {
            Some(self.messages@[id]@)
        } else {
            None
        }
    }

    /// The metadata of channel `id`, if any was set.
    pub closed spec fn meta(&self, id: u64) -> Option<ChannelMetadata> {
        if self.metadata@.contains_key(id) {
            Some(self.metadata@[id])
        } else {
            None
        }
    }

    /// The selected channel.
    pub closed spec fn selection(&self) -> Option<u64> {
        self.selected_channel
    }

    /// The scroll position.
    pub closed spec fn scroll(&self) -> usize {
        self.scroll_offset
    }

    /// Whether a history fetch is pending.
    pub closed spec fn fetching(&self) -> bool {
        self.fetching_history
    }

    /// Every watched channel has a buffer, and no buffer holds more than the
    /// maximum.
    pub closed spec fn wf(&self) -> bool {
        &&& forall|id: u64| #[trigger] self.watched@.contains(id) ==> self.messages@.contains_key(id)
        &&& forall|id: u64| #[trigger] self.messages@.contains_key(id) ==> self.messages@[id]@.len()
            <= MAX_MESSAGES_PER_CHANNEL
    }

    /// Two states that watch the same channels with the same buffers are
    /// well formed alike.
    proof fn lemma_wf_from_fields(a: ChannelState, b: ChannelState)
        requires
            a.watched@ == b.watched@,
            a.messages@ == b.messages@,
        ensures
            a.wf() == b.wf(),
    {
    }

    /// `self` and `other` watch the same channels and hold the same buffers
    /// and metadata.
    pub open spec fn same_contents(self, other: Self) -> bool {
        &&& self.wf() == other.wf()
        &&& self.watched_set() == other.watched_set()
        &&& forall|id: u64| #[trigger] self.buffer(id) == other.buffer(id)
        &&& forall|id: u64| #[trigger] self.meta(id) == other.meta(id)
    }

    pub fn new() -> (s: Self)
        ensures
            s.wf(),
            s.watched_set() == Set::<u64>::empty(),
            forall|id: u64| #[trigger] s.buffer(id) is None && s.meta(id) is None,
            s.selection() is None,
            s.scroll() == 0,
            !s.fetching(),
    {
        let s = ChannelState {
            watched: HashSet::new(),
            messages: HashMap::new(),
            metadata: HashMap::new(),
            selected_channel: None,
            scroll_offset: 0,
            fetching_history: false,
        };
        s
    }

    /// Watch a channel: it gets an empty buffer unless it has one.
    pub fn watch(&mut self, channel_id: u64)
        requires
            old(self).wf(),
        ensures
            final(self).wf(),
            final(self).watched_set() == old(self).watched_set().insert(channel_id),
            final(self).buffer(channel_id) == Some(match old(self).buffer(channel_id) {
                Some(b) => b,
                None => Seq::<DisplayMessage>::empty(),
            }),
            forall|id: u64| id != channel_id ==> #[trigger] final(self).buffer(id) == old(self).buffer(id),
            forall|id: u64| #[trigger] final(self).meta(id) == old(self).meta(id),
            final(self).selection() == old(self).selection(),
            final(self).scroll() == old(self).scroll(),
            final(self).fetching() == old(self).fetching(),
    {
        self.watched.insert(channel_id);
        if !self.messages.contains_key(&channel_id) {
            self.messages.insert(channel_id, Vec::new());
        }
    }

    /// Stop watching a channel: its buffer and metadata go, and it is no longer
    /// selected.
    pub fn unwatch(&mut self, channel_id: u64)
        requires
            old(self).wf(),
        ensures
            final(self).wf(),
            final(self).watched_set() == old(self).watched_set().remove(channel_id),
            final(self).buffer(channel_id) is None,
            final(self).meta(channel_id) is None,
            forall|id: u64| id != channel_id ==> #[trigger] final(self).buffer(id) == old(self).buffer(id),
            forall|id: u64| id != channel_id ==> #[trigger] final(self).meta(id) == old(self).meta(id),
            final(self).selection() == if old(self).selection() == Some(channel_id) {
                None
            } else {
                old(self).selection()
            },
            final(self).scroll() == old(self).scroll(),
            final(self).fetching() == old(self).fetching(),
    {
        self.watched.remove(&channel_id);
        self.messages.remove(&channel_id);
        self.metadata.remove(&channel_id);
        if self.selected_channel == Some(channel_id) {
            self.selected_channel = None;
        }
    }

    /// Check if a channel is being watched.
    pub fn is_watching(&self, channel_id: u64) -> (b: bool)
        ensures
            b == self.watched_set().contains(channel_id),
    {
        self.watched.contains(&channel_id)
    }

    /// The watched channel ids, each once, in the set's own order.
    pub fn watched_channels(&self) -> (v: Vec<u64>)
        ensures
            v@.to_set() == self.watched_set(),
            v@.no_duplicates(),
    {
        let ghost keys = vstd::std_specs::hash::spec_hash_keys_iter(&self.watched).remaining();
        let mut v: Vec<u64> = Vec::new();
        for x in it: self.watched.iter()
            invariant
                it.seq() == keys,
                v@ == keys.unref().take(it.index()),
        {
            v.push(*x);
            assert(v@ =~= keys.unref().take(it.index() + 1));
        }
        assert(v@ =~= keys.unref());
        v
    }

    /// Add a message to a watched channel's buffer, dropping the oldest beyond
    /// the maximum; a channel that is not watched is left alone.
    pub fn add_message(&mut self, channel_id: u64, message: DisplayMessage)
        requires
            old(self).wf(),
        ensures
            final(self).wf(),
            final(self).buffer(channel_id) == if old(self).watched_set().contains(channel_id) {
                Some(keep_latest(match old(self).buffer(channel_id) {
                    Some(b) => b,
                    None => Seq::<DisplayMessage>::empty(),
                }.push(message)))
            } else {
                old(self).buffer(channel_id)
            },
            forall|id: u64| id != channel_id ==> #[trigger] final(self).buffer(id) == old(self).buffer(id),
            forall|id: u64| #[trigger] final(self).meta(id) == old(self).meta(id),
            final(self).watched_set() == old(self).watched_set(),
            final(self).selection() == old(self).selection(),
            final(self).scroll() == old(self).scroll(),
            final(self).fetching() == old(self).fetching(),
    {
        if !self.is_watching(channel_id) {
            return;
        }
        let mut buffer = match self.messages.remove(&channel_id) {
            Some(b) => b,
            None => Vec::new(),
        };
        let ghost before = buffer@;
        buffer.push(message);
        if buffer.len() > MAX_MESSAGES_PER_CHANNEL {
            buffer.remove(0);
            assert(buffer@ =~= before.push(message).skip(1));
        }
        self.messages.insert(channel_id, buffer);
    }

    /// Remove a message from a channel's buffer.
    pub fn remove_message(&mut self, channel_id: u64, message_id: u64)
        requires
            old(self).wf(),
        ensures
            final(self).wf(),
            final(self).buffer(channel_id) == match old(self).buffer(channel_id) {
                Some(b) => Some(without_message(b, message_id)),
                None => None,
            },
            forall|id: u64| id != channel_id ==> #[trigger] final(self).buffer(id) == old(self).buffer(id),
            forall|id: u64| #[trigger] final(self).meta(id) == old(self).meta(id),
            final(self).watched_set() == old(self).watched_set(),
            final(self).selection() == old(self).selection(),
            final(self).scroll() == old(self).scroll(),
            final(self).fetching() == old(self).fetching(),
    {
        match self.messages.remove(&channel_id) {
            Some(buffer) => {
                let kept = Self::filter_out(buffer, message_id);
                self.messages.insert(channel_id, kept);
            },
            None => {},
        }
    }

    fn filter_out(buffer: Vec<DisplayMessage>, message_id: u64) -> (r: Vec<DisplayMessage>)
        ensures
            r@ == without_message(buffer@, message_id),
            r@.len() <= buffer@.len(),
    {
        let ghost all = buffer@;
        let mut kept: Vec<DisplayMessage> = Vec::new();
        let mut rest = buffer;
        let mut i: usize = 0;
        let n = rest.len();
        while rest.len() > 0
            invariant
                n == all.len(),
                i + rest@.len() == n,
                rest@ =~= all.skip(i as int),
                kept@ == without_message(all.take(i as int), message_id),
                kept@.len() <= i,
            decreases rest@.len(),
        {
            let m = rest.remove(0);
            proof {
                assert(m == all[i as int]);
                assert(all.take(i + 1).drop_last() =~= all.take(i as int));
                assert(all.take(i + 1).last() == all[i as int]);
                assert(rest@ =~= all.skip(i + 1));
            }
            if m.id != message_id {
                kept.push(m);
            }
            i = i + 1;
        }
        assert(all.take(n as int) =~= all);
        kept
    }

    /// The buffer of a channel.
    pub fn get_messages(&self, channel_id: u64) -> (r: Option<&Vec<DisplayMessage>>)
        ensures
            match r {
                Some(b) => self.buffer(channel_id) == Some(b@),
                None => self.buffer(channel_id) is None,
            },
    {
        self.messages.get(&channel_id)
    }

    /// The buffer of the selected channel.
    pub fn get_selected_messages(&self) -> (r: Option<&Vec<DisplayMessage>>)
        ensures
            match r {
                Some(b) => self.selection() is Some && self.buffer(self.selection()->0) == Some(b@),
                None => self.selection() is None || self.buffer(self.selection()->0) is None,
            },
    {
        match self.selected_channel {
            Some(id) => self.messages.get(&id),
            None => None,
        }
    }

    /// Select a channel, scrolled to the top.
    pub fn select(&mut self, channel_id: u64)
        ensures
            final(self).selection() == Some(channel_id),
            final(self).scroll() == 0,
            final(self).same_contents(*old(self)),
            final(self).fetching() == old(self).fetching(),
    {
        self.selected_channel = Some(channel_id);
        self.scroll_offset = 0;
        proof {
            ChannelState::lemma_wf_from_fields(*self, *old(self));
        }
    }

    /// The selected channel id.
    pub fn selected(&self) -> (r: Option<u64>)
        ensures
            r == self.selection(),
    {
        self.selected_channel
    }

    /// Clear selection.
    pub fn clear_selection(&mut self)
        ensures
            final(self).selection() is None,
            final(self).scroll() == old(self).scroll(),
            final(self).same_contents(*old(self)),
            final(self).fetching() == old(self).fetching(),
    {
        self.selected_channel = None;
        proof {
            ChannelState::lemma_wf_from_fields(*self, *old(self));
        }
    }

    /// The scroll position.
    pub fn scroll_offset(&self) -> (r: usize)
        ensures
            r == self.scroll(),
    {
        self.scroll_offset
    }

    /// Scroll up by `amount`, stopping at the top.
    pub fn scroll_up(&mut self, amount: usize)
        ensures
            final(self).scroll() == if old(self).scroll() >= amount {
                old(self).scroll() - amount
            } else {
                0
            },
            final(self).selection() == old(self).selection(),
            final(self).same_contents(*old(self)),
            final(self).fetching() == old(self).fetching(),
    {
        self.scroll_offset = self.scroll_offset.saturating_sub(amount);
        proof {
            ChannelState::lemma_wf_from_fields(*self, *old(self));
        }
    }

    /// Scroll down by `amount`, stopping at `max`.
    pub fn scroll_down(&mut self, amount: usize, max: usize)
        requires
            old(self).scroll() + amount <= usize::MAX,
        ensures
            final(self).scroll() == if old(self).scroll() + amount <= max {
                (old(self).scroll() + amount) as usize
            } else {
                max
            },
            final(self).selection() == old(self).selection(),
            final(self).same_contents(*old(self)),
            final(self).fetching() == old(self).fetching(),
    {
        let s = self.scroll_offset + amount;
        self.scroll_offset = if s <= max {
            s
        } else {
            max
        };
        proof {
            ChannelState::lemma_wf_from_fields(*self, *old(self));
        }
    }

    /// Scroll to the last message of the selected channel, if it has a buffer.
    pub fn scroll_to_bottom(&mut self)
        ensures
            final(self).scroll() == match old(self).selection() {
                Some(id) => match old(self).buffer(id) {
                    Some(b) => if b.len() > 0 {
                        (b.len() - 1) as usize
                    } else {
                        0
                    },
                    None => old(self).scroll(),
                },
                None => old(self).scroll(),
            },
            final(self).selection() == old(self).selection(),
            final(self).same_contents(*old(self)),
            final(self).fetching() == old(self).fetching(),
    {
        let n: Option<usize> = match self.get_selected_messages() {
            Some(m) => Some(m.len()),
            None => None,
        };
        match n {
            Some(len) => {
                self.scroll_offset = len.saturating_sub(1);
            },
            None => {},
        }
        proof {
            ChannelState::lemma_wf_from_fields(*self, *old(self));
        }
    }

    /// Scroll to the top.
    pub fn scroll_to_top(&mut self)
        ensures
            final(self).scroll() == 0,
            final(self).selection() == old(self).selection(),
            final(self).same_contents(*old(self)),
            final(self).fetching() == old(self).fetching(),
    {
        self.scroll_offset = 0;
        proof {
            ChannelState::lemma_wf_from_fields(*self, *old(self));
        }
    }

    /// The number of buffered messages of a channel (0 without a buffer).
    pub fn message_count(&self, channel_id: u64) -> (n: usize)
        ensures
            n == match self.buffer(channel_id) {
                Some(b) => b.len(),
                None => 0,
            },
    {
        match self.messages.get(&channel_id) {
            Some(m) => m.len(),
            None => 0,
        }
    }

    /// Set a channel's metadata.
    pub fn set_channel_info(
        &mut self,
        channel_id: u64,
        name: String,
        guild_id: Option<u64>,
        guild_name: Option<String>,
        message_count: u64,
    )
        requires
            old(self).wf(),
        ensures
            final(self).wf(),
            final(self).meta(channel_id) == Some(ChannelMetadata { guild_id, name, guild_name, message_count }),
            forall|id: u64| id != channel_id ==> #[trigger] final(self).meta(id) == old(self).meta(id),
            forall|id: u64| #[trigger] final(self).buffer(id) == old(self).buffer(id),
            final(self).watched_set() == old(self).watched_set(),
            final(self).selection() == old(self).selection(),
            final(self).scroll() == old(self).scroll(),
            final(self).fetching() == old(self).fetching(),
    {
        self.metadata.insert(channel_id, ChannelMetadata { guild_id, name, guild_name, message_count });
    }

    /// A channel's metadata.
    pub fn get_metadata(&self, channel_id: u64) -> (r: Option<&ChannelMetadata>)
        ensures
            match r {
                Some(m) => self.meta(channel_id) == Some(*m),
                None => self.meta(channel_id) is None,
            },
    {
        self.metadata.get(&channel_id)
    }

    /// The selected channel's metadata.
    pub fn get_selected_metadata(&self) -> (r: Option<&ChannelMetadata>)
        ensures
            match r {
                Some(m) => self.selection() is Some && self.meta(self.selection()->0) == Some(*m),
                None => self.selection() is None || self.meta(self.selection()->0) is None,
            },
    {
        match self.selected_channel {
            Some(id) => self.metadata.get(&id),
            None => None,
        }
    }

    /// Put fetched history before a channel's buffer (the history is older),
    /// keep the latest maximum, and end the pending fetch.
    pub fn set_history(&mut self, channel_id: u64, messages: Vec<DisplayMessage>)
        requires
            old(self).wf(),
            messages@.len() <= usize::MAX - MAX_MESSAGES_PER_CHANNEL,
        ensures
            final(self).wf(),
            final(self).buffer(channel_id) == Some(keep_latest(messages@ + match old(self).buffer(channel_id) {
                Some(b) => b,
                None => Seq::<DisplayMessage>::empty(),
            })),
            forall|id: u64| id != channel_id ==> #[trigger] final(self).buffer(id) == old(self).buffer(id),
            forall|id: u64| #[trigger] final(self).meta(id) == old(self).meta(id),
            final(self).watched_set() == old(self).watched_set(),
            final(self).selection() == old(self).selection(),
            final(self).scroll() == old(self).scroll(),
            !final(self).fetching(),
    {
        let old_buffer = match self.messages.remove(&channel_id) {
            Some(b) => b,
            None => Vec::new(),
        };
        assert(old_buffer@.len() <= MAX_MESSAGES_PER_CHANNEL) by {
            if old(self).messages@.contains_key(channel_id) {
                assert(old(self).messages@[channel_id]@.len() <= MAX_MESSAGES_PER_CHANNEL);
            }
        }
        let ghost all = messages@ + old_buffer@;
        let total = messages.len() + old_buffer.len();
        let skip: usize = if total > MAX_MESSAGES_PER_CHANNEL {
            total - MAX_MESSAGES_PER_CHANNEL
        } else {
            0
        };
        let mut kept: Vec<DisplayMessage> = Vec::new();
        let mut i: usize = 0;
        let mut source = messages;
        let mut tail = old_buffer;
        let ghost first = source@;
        let ghost second = tail@;
        while i < total
            invariant
                total == all.len(),
                all == first + second,
                i <= total,
                skip <= total,
                i < first.len() ==> source@ =~= first.skip(i as int) && tail@ =~= second,
                i >= first.len() ==> source@.len() == 0 && tail@ =~= second.skip(i - first.len()),
                kept@ =~= all.subrange(if i < skip { i as int } else { skip as int }, i as int),
            decreases total - i,
        {
            let m = if source.len() > 0 {
                let m = source.remove(0);
                proof {
                    assert(m == first[i as int]);
                    assert(m == all[i as int]);
                    if i + 1 < first.len() {
                        assert(source@ =~= first.skip(i + 1));
                    }
                }
                m
            } else {
                let m = tail.remove(0);
                proof {
                    assert(m == second[i - first.len()]);
                    assert(m == all[i as int]);
                    assert(tail@ =~= second.skip(i + 1 - first.len()));
                }
                m
            };
            if i >= skip {
                kept.push(m);
            }
            i = i + 1;
        }
        assert(kept@ =~= keep_latest(all));
        self.messages.insert(channel_id, kept);
        self.fetching_history = false;
    }

    /// Whether a history fetch is pending.
    pub fn is_fetching_history(&self) -> (b: bool)
        ensures
            b == self.fetching(),
    {
        self.fetching_history
    }

    /// Mark a history fetch as pending.
    pub fn start_fetching_history(&mut self)
        ensures
            final(self).fetching(),
            final(self).selection() == old(self).selection(),
            final(self).scroll() == old(self).scroll(),
            final(self).same_contents(*old(self)),
    {
        self.fetching_history = true;
        proof {
            ChannelState::lemma_wf_from_fields(*self, *old(self));
        }
    }

    /// A channel needs its history fetched when it has no buffer or an empty one.
    pub fn needs_history(&self, channel_id: u64) -> (b: bool)
        ensures
            b == match self.buffer(channel_id) {
                Some(m) => m.len() == 0,
                None => true,
            },
    {
        match self.messages.get(&channel_id) {
            Some(m) => m.len() == 0,
            None => true,
        }
    }
}

impl Default for ChannelState {
    fn default() -> (s: Self)
        ensures
            s.wf(),
            s.watched_set() == Set::<u64>::empty(),
            forall|id: u64| #[trigger] s.buffer(id) is None && s.meta(id) is None,
            s.selection() is None,
            s.scroll() == 0,
            !s.fetching(),
    {
        Self::new()
    }
}

/// Law: whatever is added or fetched, a channel's buffer never holds more
/// than the maximum number of messages, and a watched channel always has one.
pub proof fn lemma_buffer_bounded(s: &ChannelState, id: u64)
    requires
        s.wf(),
    ensures
        s.buffer(id) matches Some(b) ==> b.len() <= MAX_MESSAGES_PER_CHANNEL,
        s.watched_set().contains(id) ==> s.buffer(id) is Some,
{
}

} // verus!
