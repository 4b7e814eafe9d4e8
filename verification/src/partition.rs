//! A partition: an ordered log of messages with contiguous offsets
//! starting at zero, a ring of size-bounded segments over that log, and
//! the stored consumer offsets.  Appends assign offsets at the tail; polls
//! deliver a contiguous window of the log and may auto-commit the last
//! delivered offset.

use vstd::prelude::*;
use vstd::slice::slice_to_vec;
use crate::error::IggyError;
use crate::checksum::fnv1a;

verus! {

/// Whose offset a stored entry tracks: a single client or a consumer
/// group.
#[derive(Clone, Copy, Debug, PartialEq, Eq, Structural)]
pub enum ConsumerKey {
    Consumer(u32),
    Group(u32),
}

/// Where a poll starts reading.
#[derive(Clone, Copy, Debug, PartialEq, Eq, Structural)]
pub enum PollingStrategy {
    Offset(u64),
    Timestamp(u64),
    First,
    Last,
    Next,
}

/// One header carried by a message: a key, a type kind, and raw bytes.
#[derive(Debug)]
pub struct Header {
    pub key: Vec<u8>,
    pub kind: u8,
    pub value: Vec<u8>,
}

/// The mathematical value of a header.
pub struct HeaderView {
    pub key: Seq<u8>,
    pub kind: u8,
    pub value: Seq<u8>,
}

impl View for Header {
    type V = HeaderView;

    open spec fn view(&self) -> HeaderView {
        HeaderView { key: self.key@, kind: self.kind, value: self.value@ }
    }
}

/// A stored message: its assigned offset, producer or broker id,
/// timestamp, optional headers, opaque payload, and payload checksum.
#[derive(Debug)]
pub struct Message {
    pub offset: u64,
    pub id: u128,
    pub timestamp: u64,
    pub headers: Option<Vec<Header>>,
    pub payload: Vec<u8>,
    pub checksum: u32,
}

/// The mathematical value of a message.
pub struct MessageView {
    pub offset: u64,
    pub id: u128,
    pub timestamp: u64,
    pub headers: Option<Seq<HeaderView>>,
    pub payload: Seq<u8>,
    pub checksum: u32,
}

impl View for Message {
    type V = MessageView;

    open spec fn view(&self) -> MessageView {
        MessageView {
            offset: self.offset,
            id: self.id,
            timestamp: self.timestamp,
            headers: match self.headers {
                Some(hs) => Some(hs@.map_values(|h: Header| h@)),
                None => None,
            },
            payload: self.payload@,
            checksum: self.checksum,
        }
    }
}

/// A message handed in by a producer, before the partition assigns its
/// offset, fills zero ids and timestamps, and computes the checksum.
#[derive(Debug)]
pub struct NewMessage {
    pub id: u128,
    pub timestamp: u64,
    pub headers: Option<Vec<Header>>,
    pub payload: Vec<u8>,
}

/// The mathematical value of an incoming message.
pub struct NewMessageView {
    pub id: u128,
    pub timestamp: u64,
    pub headers: Option<Seq<HeaderView>>,
    pub payload: Seq<u8>,
}

impl View for NewMessage {
    type V = NewMessageView;

    open spec fn view(&self) -> NewMessageView {
        NewMessageView {
            id: self.id,
            timestamp: self.timestamp,
            headers: match self.headers {
                Some(hs) => Some(hs@.map_values(|h: Header| h@)),
                None => None,
            },
            payload: self.payload@,
        }
    }
}

impl Header {
    /// An identical copy of this header.
    pub fn duplicate(&self) -> (r: Header)
        ensures
            r@ == self@,
    {
        Header {
            key: slice_to_vec(self.key.as_slice()),
            kind: self.kind,
            value: slice_to_vec(self.value.as_slice()),
        }
    }
}

/// An identical copy of an optional header list.
fn duplicate_headers(headers: &Option<Vec<Header>>) -> (r: Option<Vec<Header>>)
    ensures
        match r {
            Some(hs) => headers matches Some(old_hs) && hs@.map_values(|h: Header| h@)
                =~= old_hs@.map_values(|h: Header| h@),
            None => headers is None,
        },
{
    match headers {
        None => None,
        Some(hs) => {
            let mut out: Vec<Header> = Vec::new();
            let n = hs.len();
            let mut i: usize = 0;
            while i < n
                invariant
                    i <= n,
                    n == hs@.len(),
                    out@.len() == i,
                    forall|j: int| 0 <= j < i ==> out@[j]@ == #[trigger] hs@[j]@,
                decreases n - i,
            {
                out.push(hs[i].duplicate());
                i = i + 1;
            }
            proof {
                assert(out@.map_values(|h: Header| h@) =~= hs@.map_values(|h: Header| h@));
            }
            Some(out)
        },
    }
}

impl Message {
    /// An identical copy of this message.
    pub fn duplicate(&self) -> (r: Message)
        ensures
            r@ == self@,
    {
        let r = Message {
            offset: self.offset,
            id: self.id,
            timestamp: self.timestamp,
            headers: duplicate_headers(&self.headers),
            payload: slice_to_vec(self.payload.as_slice()),
            checksum: self.checksum,
        };
        proof {
            if r.headers is Some {
                assert(r@.headers == self@.headers);
            }
        }
        r
    }
}

/// One size-bounded slice of the log: its first offset, how many bytes it
/// holds, and whether it has been closed by rollover.
#[derive(Clone, Copy, Debug, PartialEq, Eq, Structural)]
pub struct Segment {
    pub base_offset: u64,
    pub size_bytes: u64,
    pub closed: bool,
}

/// How many bytes a message contributes to its segment: the fixed scalar
/// fields plus the payload.
pub open spec fn message_size(m: NewMessageView) -> int {
    40 + m.payload.len() as int
}

/// The bytes a whole batch contributes.
pub open spec fn batch_size(batch: Seq<NewMessageView>) -> int
    decreases batch.len(),
{
    if batch.len() == 0 {
        0
    } else {
        batch_size(batch.drop_last()) + message_size(batch.last())
    }
}

/// The first value stored under `key` in the offset table, if any.
pub open spec fn assoc_offset(entries: Seq<(ConsumerKey, u64)>, key: ConsumerKey) -> Option<u64>
    decreases entries.len(),
{
    if entries.len() == 0 {
        None
    } else if entries[0].0 == key {
        Some(entries[0].1)
    } else {
        assoc_offset(entries.drop_first(), key)
    }
}

/// What a stored incoming message becomes: the assigned offset, zero ids
/// and timestamps filled in, and the checksum over the payload.
pub open spec fn assigned_message(
    m: NewMessageView,
    offset: u64,
    now: u64,
    fresh_id: u128,
) -> MessageView {
    MessageView {
        offset,
        id: if m.id == 0 {
            fresh_id
        } else {
            m.id
        },
        timestamp: if m.timestamp == 0 {
            now
        } else {
            m.timestamp
        },
        headers: m.headers,
        payload: m.payload,
        checksum: fnv1a(m.payload),
    }
}

/// What a whole batch becomes when appended from `start`: message `i`
/// gets offset `start + i` and, if needed, the fresh id `id_seed + i`.
pub open spec fn assigned_batch(
    batch: Seq<NewMessageView>,
    start: u64,
    now: u64,
    id_seed: u128,
) -> Seq<MessageView> {
    Seq::new(
        batch.len(),
        |i: int| assigned_message(batch[i], (start + i) as u64, now, (id_seed + i) as u128),
    )
}

/// An ordered log of messages with its segments and consumer offsets.
#[derive(Debug)]
pub struct Partition {
    pub partition_id: u32,
    pub topic_id: u32,
    pub stream_id: u32,
    pub segment_size_limit: u64,
    pub current_offset: u64,
    pub messages: Vec<Message>,
    pub segments: Vec<Segment>,
    pub consumer_offsets: Vec<(ConsumerKey, u64)>,
}

impl Partition {
    /// The mathematical value of the log.
    pub open spec fn msgs(self) -> Seq<MessageView> {
        self.messages@.map_values(|m: Message| m@)
    }

    /// The offset stored for `key`, if any.
    pub open spec fn stored_offset(self, key: ConsumerKey) -> Option<u64> {
        assoc_offset(self.consumer_offsets@, key)
    }

    /// The partition invariant: `current_offset` is the next offset to
    /// assign, message `i` sits at offset `i` with a correct checksum,
    /// exactly the last segment is open with segment bases increasing,
    /// and the consumer-offset table keys each consumer at most once.
    pub open spec fn wf(self) -> bool {
        &&& forall|i: int, j: int| 0 <= i < j < self.consumer_offsets@.len()
            ==> (#[trigger] self.consumer_offsets@[i]).0
            != (#[trigger] self.consumer_offsets@[j]).0
        &&& self.current_offset == self.msgs().len()
        &&& forall|i: int| 0 <= i < self.msgs().len() ==> #[trigger] self.msgs()[i].offset == i
        &&& forall|i: int| 0 <= i < self.msgs().len() ==> #[trigger] self.msgs()[i].checksum
            == fnv1a(self.msgs()[i].payload)
        &&& self.segments@.len() >= 1
        &&& forall|i: int| 0 <= i < self.segments@.len() ==> (#[trigger] self.segments@[i].closed
            <==> i < self.segments@.len() - 1)
        &&& forall|i: int, j: int| 0 <= i < j < self.segments@.len()
            ==> #[trigger] self.segments@[i].base_offset < #[trigger] self.segments@[j].base_offset
        &&& self.segments@.last().base_offset <= self.current_offset
    }

    /// A fresh, empty partition with one open segment.
    pub fn new(stream_id: u32, topic_id: u32, partition_id: u32, segment_size_limit: u64) -> (r:
        Partition)
        ensures
            r.wf(),
            r.stream_id == stream_id,
            r.topic_id == topic_id,
            r.partition_id == partition_id,
            r.segment_size_limit == segment_size_limit,
            r.current_offset == 0,
            r.msgs() =~= Seq::<MessageView>::empty(),
            r.consumer_offsets@ =~= Seq::<(ConsumerKey, u64)>::empty(),
    {
        let mut segments: Vec<Segment> = Vec::new();
        segments.push(Segment { base_offset: 0, size_bytes: 0, closed: false });
        Partition {
            partition_id,
            topic_id,
            stream_id,
            segment_size_limit,
            current_offset: 0,
            messages: Vec::new(),
            segments,
            consumer_offsets: Vec::new(),
        }
    }

    /// Appends a batch at the tail of the log, atomically: message `i`
    /// gets offset `current_offset + i`, zero timestamps become `now`,
    /// zero ids become `id_seed + i`, checksums are computed, and the
    /// active segment grows or rolls over when the batch would push it
    /// past the size limit.
    pub fn append_messages(&mut self, batch: Vec<NewMessage>, now: u64, id_seed: u128)
        requires
            old(self).wf(),
            old(self).current_offset + batch@.len() <= u64::MAX,
            id_seed + batch@.len() <= u128::MAX,
        ensures
            final(self).wf(),
            final(self).msgs() =~= old(self).msgs() + assigned_batch(
                batch@.map_values(|m: NewMessage| m@),
                old(self).current_offset,
                now,
                id_seed,
            ),
            final(self).current_offset == old(self).current_offset + batch@.len(),
            final(self).consumer_offsets@ == old(self).consumer_offsets@,
            final(self).partition_id == old(self).partition_id,
            final(self).topic_id == old(self).topic_id,
            final(self).stream_id == old(self).stream_id,
            final(self).segment_size_limit == old(self).segment_size_limit,
    {
        let ghost original = batch@.map_values(|m: NewMessage| m@);
        let ghost start = self.current_offset;
        let ghost seed = id_seed;
        let ghost now_g = now;
        let mut batch = batch;
        // Measure the batch and roll the active segment over if it would
        // grow past the limit.
        let mut bytes_needed: u64 = 0;
        let n = batch.len();
        let mut i: usize = 0;
        while i < n
            invariant
                i <= n,
                n == batch@.len(),
                batch@.map_values(|m: NewMessage| m@) == original,
                bytes_needed == spec_sat_u64(batch_size(original.take(i as int))),
            decreases n - i,
        {
            proof {
                assert(original.take(i + 1).drop_last() =~= original.take(i as int));
                assert(original.take(i + 1).last() == original[i as int]);
            }
            let payload_len = batch[i].payload.len();
            bytes_needed = sat_add_u64(bytes_needed, sat_add_u64(40, sat_cast_u64(payload_len)));
            proof {
                lemma_batch_size_nonneg(original.take(i as int));
                assert(spec_sat_u64(batch_size(original.take(i + 1))) == spec_sat_u64(
                    spec_sat_u64(batch_size(original.take(i as int))) + spec_sat_u64(
                        40 + original[i as int].payload.len() as int,
                    ),
                )) by {
                    lemma_sat_add_collapse(
                        batch_size(original.take(i as int)),
                        40 + original[i as int].payload.len() as int,
                    );
                }
            }
            i = i + 1;
        }
        proof {
            assert(original.take(n as int) =~= original);
        }
        let last = self.segments.len() - 1;
        let active_size = self.segments[last].size_bytes;
        if active_size > 0 && sat_add_u64(active_size, bytes_needed) > self.segment_size_limit
            && self.current_offset > self.segments[last].base_offset {
            let base = self.segments[last].base_offset;
            let old_size = self.segments[last].size_bytes;
            self.segments[last] = Segment { base_offset: base, size_bytes: old_size, closed: true };
            self.segments.push(
                Segment { base_offset: self.current_offset, size_bytes: bytes_needed, closed: false },
            );
        } else {
            let base = self.segments[last].base_offset;
            self.segments[last] = Segment {
                base_offset: base,
                size_bytes: sat_add_u64(active_size, bytes_needed),
                closed: false,
            };
        }
        // Assign offsets and store the batch.
        let mut k: usize = 0;
        while batch.len() > 0
            invariant
                seed == id_seed,
                now_g == now,
                original.len() <= usize::MAX,
                k + batch@.len() == original.len(),
                batch@.map_values(|m: NewMessage| m@) =~= original.skip(k as int),
                self.msgs() =~= old(self).msgs() + assigned_batch(original, start, now_g, seed).take(
                    k as int,
                ),
                self.current_offset == start + k,
                start + original.len() <= u64::MAX,
                seed + original.len() <= u128::MAX,
                self.consumer_offsets@ == old(self).consumer_offsets@,
                self.partition_id == old(self).partition_id,
                self.topic_id == old(self).topic_id,
                self.stream_id == old(self).stream_id,
                self.segment_size_limit == old(self).segment_size_limit,
                forall|i2: int| 0 <= i2 < self.msgs().len() ==> #[trigger] self.msgs()[i2].offset
                    == i2,
                forall|i2: int| 0 <= i2 < self.msgs().len() ==> #[trigger] self.msgs()[i2].checksum
                    == fnv1a(self.msgs()[i2].payload),
                self.msgs().len() == start + k,
                self.segments@.len() >= 1,
                forall|i2: int| 0 <= i2 < self.segments@.len()
                    ==> (#[trigger] self.segments@[i2].closed <==> i2 < self.segments@.len() - 1),
                forall|i2: int, j2: int| 0 <= i2 < j2 < self.segments@.len()
                    ==> #[trigger] self.segments@[i2].base_offset
                    < #[trigger] self.segments@[j2].base_offset,
                self.segments@.last().base_offset <= start,
            decreases batch@.len(),
        {
            let m = batch.remove(0);
            proof {
                assert(original.skip(k as int)[0] == original[k as int]);
                assert(original.skip(k as int).drop_first() =~= original.skip(k as int + 1));
                assert(m@ == original[k as int]);
            }
            let offset = self.current_offset;
            let id = if m.id == 0 {
                id_seed_at(id_seed, k)
            } else {
                m.id
            };
            let timestamp = if m.timestamp == 0 {
                now
            } else {
                m.timestamp
            };
            let checksum = crate::checksum::hash32(m.payload.as_slice());
            let stored = Message {
                offset,
                id,
                timestamp,
                headers: m.headers,
                payload: m.payload,
                checksum,
            };
            proof {
                assert(stored@ == assigned_message(
                    original[k as int],
                    (start + k) as u64,
                    now_g,
                    (seed + k) as u128,
                ));
            }
            let ghost prev_msgs = self.msgs();
            self.messages.push(stored);
            self.current_offset = self.current_offset + 1;
            k = k + 1;
            proof {
                let ghost ab = assigned_batch(original, start, now_g, seed);
                assert(self.msgs() =~= prev_msgs.push(stored@));
                assert(ab.take(k as int) =~= ab.take(k as int - 1).push(ab[k as int - 1]));
                assert(stored@ == ab[k as int - 1]);
                assert(self.msgs() =~= old(self).msgs() + ab.take(k as int));
            }
        }
        proof {
            assert(assigned_batch(original, start, now_g, seed).take(original.len() as int)
                =~= assigned_batch(original, start, now_g, seed));
            assert(self.msgs() =~= old(self).msgs() + assigned_batch(original, start, now_g, seed));
        }
    }
}

/// The first index whose message timestamp is at least `t`, or the length
/// of the log when none is.
pub open spec fn first_ts_index(msgs: Seq<MessageView>, t: u64) -> int
    decreases msgs.len(),
{
    if msgs.len() == 0 {
        0
    } else if msgs[0].timestamp >= t {
        0
    } else {
        1 + first_ts_index(msgs.drop_first(), t)
    }
}

/// [`first_ts_index`] finds exactly the position characterized by "every
/// earlier timestamp is below `t`, and position `p` is the end or at
/// least `t`".
pub proof fn lemma_first_ts_char(msgs: Seq<MessageView>, t: u64, p: int)
    requires
        0 <= p <= msgs.len(),
        forall|j: int| 0 <= j < p ==> #[trigger] msgs[j].timestamp < t,
        p == msgs.len() || msgs[p].timestamp >= t,
    ensures
        first_ts_index(msgs, t) == p,
    decreases msgs.len(),
{
    if msgs.len() > 0 && p > 0 {
        assert(msgs[0].timestamp < t);
        assert forall|j: int| 0 <= j < p - 1 implies #[trigger] msgs.drop_first()[j].timestamp
            < t by {
            assert(msgs.drop_first()[j] == msgs[j + 1]);
        }
        lemma_first_ts_char(msgs.drop_first(), t, p - 1);
    }
}

impl Partition {
    /// Where a poll starts reading, as an unbounded position: `None`
    /// means the requested offset lies beyond the log.
    pub open spec fn start_of(self, key: ConsumerKey, strategy: PollingStrategy, count: u32) -> Option<
        int,
    > {
        match strategy {
            PollingStrategy::First => Some(0),
            PollingStrategy::Offset(o) => if o <= self.msgs().len() {
                Some(o as int)
            } else {
                None
            },
            PollingStrategy::Last => Some(
                if self.msgs().len() >= count {
                    self.msgs().len() - count
                } else {
                    0
                },
            ),
            PollingStrategy::Next => Some(
                match self.stored_offset(key) {
                    None => 0,
                    Some(s) => s + 1,
                },
            ),
            PollingStrategy::Timestamp(t) => Some(first_ts_index(self.msgs(), t)),
        }
    }

    /// The window a poll delivers: up to `count` consecutive messages
    /// from `start`, clipped to the log.
    pub open spec fn poll_window(self, start: int, count: int) -> Seq<MessageView> {
        let len = self.msgs().len() as int;
        let lo = if start < 0 {
            0
        } else if start > len {
            len
        } else {
            start
        };
        let hi = if start + count > len {
            len
        } else {
            start + count
        };
        if lo <= hi {
            self.msgs().subrange(lo, hi)
        } else {
            Seq::<MessageView>::empty()
        }
    }

    /// Polls up to `count` messages.  The start position follows the
    /// strategy: `First` at zero; `Offset` exactly there, rejected as out
    /// of range beyond the log; `Last` so the window ends at the tail;
    /// `Next` right after the consumer's stored offset; `Timestamp` at
    /// the first message at or past the timestamp.  With `auto_commit`,
    /// a non-empty delivery stores its last offset for `key`.
    pub fn poll_messages(
        &mut self,
        key: ConsumerKey,
        strategy: PollingStrategy,
        count: u32,
        auto_commit: bool,
    ) -> (r: Result<Vec<Message>, IggyError>)
        requires
            old(self).wf(),
        ensures
            final(self).wf(),
            final(self).messages@ == old(self).messages@,
            final(self).msgs() == old(self).msgs(),
            final(self).segments@ == old(self).segments@,
            final(self).current_offset == old(self).current_offset,
            final(self).partition_id == old(self).partition_id,
            final(self).topic_id == old(self).topic_id,
            final(self).stream_id == old(self).stream_id,
            final(self).segment_size_limit == old(self).segment_size_limit,
            match r {
                Ok(out) => {
                    &&& old(self).start_of(key, strategy, count) matches Some(st)
                    &&& out@.map_values(|m: Message| m@) == old(self).poll_window(
                        old(self).start_of(key, strategy, count).unwrap(),
                        count as int,
                    )
                    &&& if auto_commit && out@.len() > 0 {
                        final(self).stored_offset(key) == Some(out@.last()@.offset)
                            && forall|other: ConsumerKey| other != key
                            ==> #[trigger] final(self).stored_offset(other) == old(
                            self,
                        ).stored_offset(other)
                    } else {
                        final(self).consumer_offsets@ == old(self).consumer_offsets@
                    }
                },
                Err(e) => {
                    &&& e == IggyError::OffsetOutOfRange
                    &&& old(self).start_of(key, strategy, count) is None
                    &&& *final(self) == *old(self)
                },
            },
    {
        let len = self.messages.len();
        let start: usize = match strategy {
            PollingStrategy::First => 0,
            PollingStrategy::Offset(o) => {
                if o > len as u64 {
                    return Err(IggyError::OffsetOutOfRange);
                }
                o as usize
            },
            PollingStrategy::Last => {
                if len >= count as usize {
                    len - count as usize
                } else {
                    0
                }
            },
            PollingStrategy::Next => {
                let stored = self.get_consumer_offset(key);
                let present = self.has_consumer_offset(key);
                if !present {
                    0
                } else if stored >= len as u64 {
                    // The stored offset already covers the whole log: the
                    // window past it is empty either way.
                    proof {
                        assert(self.poll_window(
                            self.stored_offset(key).unwrap() + 1,
                            count as int,
                        ) =~= Seq::<MessageView>::empty());
                        assert(self.poll_window(len as int, count as int)
                            =~= Seq::<MessageView>::empty());
                    }
                    len
                } else {
                    stored as usize + 1
                }
            },
            PollingStrategy::Timestamp(t) => {
                let mut i: usize = 0;
                loop
                    invariant
                        i <= len,
                        len == self.msgs().len(),
                        self.wf(),
                        forall|j: int| 0 <= j < i ==> #[trigger] self.msgs()[j].timestamp < t,
                    ensures
                        i <= len,
                        i == first_ts_index(self.msgs(), t),
                    decreases len - i,
                {
                    if i == len {
                        proof {
                            lemma_first_ts_char(self.msgs(), t, i as int);
                        }
                        break;
                    }
                    if self.messages[i].timestamp >= t {
                        proof {
                            lemma_first_ts_char(self.msgs(), t, i as int);
                        }
                        break;
                    }
                    i = i + 1;
                }
                i
            },
        };
        let ghost st = self.start_of(key, strategy, count).unwrap();
        let lo: usize = if start > len {
            len
        } else {
            start
        };
        let hi: usize = if count as usize > len - lo {
            len
        } else {
            lo + count as usize
        };
        let mut out: Vec<Message> = Vec::new();
        let mut i: usize = lo;
        while i < hi
            invariant
                lo <= i <= hi <= len,
                len == self.msgs().len(),
                self.wf(),
                out@.len() == i - lo,
                forall|j: int| 0 <= j < out@.len() ==> #[trigger] out@[j]@ == self.msgs()[lo + j],
            decreases hi - i,
        {
            out.push(self.messages[i].duplicate());
            i = i + 1;
        }
        proof {
            assert(out@.map_values(|m: Message| m@) =~= self.poll_window(st, count as int));
        }
        if auto_commit && out.len() > 0 {
            let last_offset = out[out.len() - 1].offset;
            proof {
                assert(out@.last()@.offset == last_offset);
            }
            self.store_consumer_offset(key, last_offset);
        }
        Ok(out)
    }

    /// Stores `offset` for `key`, last writer wins; every other key keeps
    /// its entry.
    pub fn store_consumer_offset(&mut self, key: ConsumerKey, offset: u64)
        ensures
            final(self).stored_offset(key) == Some(offset),
            forall|other: ConsumerKey| other != key ==> #[trigger] final(self).stored_offset(other)
                == old(self).stored_offset(other),
            final(self).messages@ == old(self).messages@,
            final(self).segments@ == old(self).segments@,
            final(self).current_offset == old(self).current_offset,
            final(self).partition_id == old(self).partition_id,
            final(self).topic_id == old(self).topic_id,
            final(self).stream_id == old(self).stream_id,
            final(self).segment_size_limit == old(self).segment_size_limit,
            old(self).wf() ==> final(self).wf(),
    {
        let n = self.consumer_offsets.len();
        proof {
            assert(self.consumer_offsets@.skip(0) =~= self.consumer_offsets@);
        }
        let mut i: usize = 0;
        while i < n
            invariant
                i <= n,
                n == self.consumer_offsets@.len(),
                self == old(self),
                forall|j: int| 0 <= j < i ==> (#[trigger] self.consumer_offsets@[j]).0 != key,
            decreases n - i,
        {
            if self.consumer_offsets[i].0 == key {
                let ghost before = self.consumer_offsets@;
                self.consumer_offsets[i] = (key, offset);
                proof {
                    lemma_assoc_offset_update(before, i as int, key, offset);
                    assert(forall|j: int| 0 <= j < self.consumer_offsets@.len() ==> (
                    #[trigger] self.consumer_offsets@[j]).0 == before[j].0);
                }
                return;
            }
            i = i + 1;
        }
        let ghost before = self.consumer_offsets@;
        self.consumer_offsets.push((key, offset));
        proof {
            lemma_assoc_offset_append(before, key, offset);
            if old(self).wf() {
                assert forall|a: int, b: int| 0 <= a < b < self.consumer_offsets@.len() implies (
                #[trigger] self.consumer_offsets@[a]).0 != (
                #[trigger] self.consumer_offsets@[b]).0 by {
                    if b == before.len() {
                        assert(self.consumer_offsets@[a].0 == before[a].0);
                        assert(self.consumer_offsets@[b].0 == key);
                    } else {
                        assert(self.consumer_offsets@[a].0 == before[a].0);
                        assert(self.consumer_offsets@[b].0 == before[b].0);
                    }
                }
            }
        }
    }

    /// The offset stored for `key`, or zero when none is; absence is
    /// never an error.
    pub fn get_consumer_offset(&self, key: ConsumerKey) -> (r: u64)
        ensures
            r == match self.stored_offset(key) {
                Some(s) => s,
                None => 0u64,
            },
    {
        let n = self.consumer_offsets.len();
        proof {
            assert(self.consumer_offsets@.skip(0) =~= self.consumer_offsets@);
        }
        let mut i: usize = 0;
        while i < n
            invariant
                i <= n,
                n == self.consumer_offsets@.len(),
                assoc_offset(self.consumer_offsets@, key) == assoc_offset(
                    self.consumer_offsets@.skip(i as int),
                    key,
                ),
            decreases n - i,
        {
            proof {
                assert(self.consumer_offsets@.skip(i as int)[0]
                    == self.consumer_offsets@[i as int]);
                assert(self.consumer_offsets@.skip(i as int).drop_first()
                    =~= self.consumer_offsets@.skip(i as int + 1));
            }
            if self.consumer_offsets[i].0 == key {
                return self.consumer_offsets[i].1;
            }
            i = i + 1;
        }
        proof {
            assert(self.consumer_offsets@.skip(n as int) =~= Seq::<(ConsumerKey, u64)>::empty());
        }
        0
    }

    /// Whether any offset is stored for `key`.
    pub fn has_consumer_offset(&self, key: ConsumerKey) -> (r: bool)
        ensures
            r == (self.stored_offset(key) is Some),
    {
        let n = self.consumer_offsets.len();
        proof {
            assert(self.consumer_offsets@.skip(0) =~= self.consumer_offsets@);
        }
        let mut i: usize = 0;
        while i < n
            invariant
                i <= n,
                n == self.consumer_offsets@.len(),
                assoc_offset(self.consumer_offsets@, key) == assoc_offset(
                    self.consumer_offsets@.skip(i as int),
                    key,
                ),
            decreases n - i,
        {
            proof {
                assert(self.consumer_offsets@.skip(i as int)[0]
                    == self.consumer_offsets@[i as int]);
                assert(self.consumer_offsets@.skip(i as int).drop_first()
                    =~= self.consumer_offsets@.skip(i as int + 1));
            }
            if self.consumer_offsets[i].0 == key {
                return true;
            }
            i = i + 1;
        }
        proof {
            assert(self.consumer_offsets@.skip(n as int) =~= Seq::<(ConsumerKey, u64)>::empty());
        }
        false
    }
}

/// Updating the entry at the key's own position rewrites its stored value
/// and no other key's.
proof fn lemma_assoc_offset_update(
    entries: Seq<(ConsumerKey, u64)>,
    i: int,
    key: ConsumerKey,
    offset: u64,
)
    requires
        0 <= i < entries.len(),
        entries[i].0 == key,
        forall|j: int| 0 <= j < i ==> (#[trigger] entries[j]).0 != key,
    ensures
        assoc_offset(entries.update(i, (key, offset)), key) == Some(offset),
        forall|other: ConsumerKey| other != key ==> #[trigger] assoc_offset(
            entries.update(i, (key, offset)),
            other,
        ) == assoc_offset(entries, other),
    decreases entries.len(),
{
    let updated = entries.update(i, (key, offset));
    if i == 0 {
        assert(updated[0] == (key, offset));
        assert(assoc_offset(updated, key) == Some(offset));
        assert forall|other: ConsumerKey| other != key implies #[trigger] assoc_offset(
            updated,
            other,
        ) == assoc_offset(entries, other) by {
            assert(updated.drop_first() =~= entries.drop_first());
            assert(assoc_offset(updated, other) == assoc_offset(updated.drop_first(), other));
            assert(assoc_offset(entries, other) == assoc_offset(entries.drop_first(), other));
        }
    } else {
        assert(updated[0] == entries[0]);
        assert(updated.drop_first() =~= entries.drop_first().update(i - 1, (key, offset)));
        assert forall|j: int| 0 <= j < i - 1 implies (#[trigger] entries.drop_first()[j]).0
            != key by {
            assert(entries.drop_first()[j] == entries[j + 1]);
        }
        assert(entries.drop_first()[i - 1] == entries[i]);
        lemma_assoc_offset_update(entries.drop_first(), i - 1, key, offset);
        assert(entries[0].0 != key);
        assert(assoc_offset(updated, key) == assoc_offset(updated.drop_first(), key));
        assert(assoc_offset(updated.drop_first(), key) == Some(offset));
        assert forall|other: ConsumerKey| other != key implies #[trigger] assoc_offset(
            updated,
            other,
        ) == assoc_offset(entries, other) by {
            if entries[0].0 == other {
                assert(assoc_offset(updated, other) == Some(updated[0].1));
                assert(assoc_offset(entries, other) == Some(entries[0].1));
            } else {
                assert(assoc_offset(updated, other) == assoc_offset(updated.drop_first(), other));
                assert(assoc_offset(entries, other) == assoc_offset(entries.drop_first(), other));
            }
        }
    }
}

/// Appending a fresh entry binds its key and no other.
proof fn lemma_assoc_offset_append(entries: Seq<(ConsumerKey, u64)>, key: ConsumerKey, offset: u64)
    requires
        forall|j: int| 0 <= j < entries.len() ==> (#[trigger] entries[j]).0 != key,
    ensures
        assoc_offset(entries.push((key, offset)), key) == Some(offset),
        forall|other: ConsumerKey| other != key ==> #[trigger] assoc_offset(
            entries.push((key, offset)),
            other,
        ) == assoc_offset(entries, other),
    decreases entries.len(),
{
    let appended = entries.push((key, offset));
    if entries.len() == 0 {
        assert(appended[0] == (key, offset));
        assert(assoc_offset(appended, key) == Some(offset));
        assert forall|other: ConsumerKey| other != key implies #[trigger] assoc_offset(
            appended,
            other,
        ) == assoc_offset(entries, other) by {
            assert(appended.drop_first() =~= Seq::<(ConsumerKey, u64)>::empty());
            assert(assoc_offset(appended, other) == assoc_offset(appended.drop_first(), other));
            assert(assoc_offset(appended.drop_first(), other)
                == Option::<u64>::None);
            assert(assoc_offset(entries, other) == Option::<u64>::None);
        }
    } else {
        assert(appended[0] == entries[0]);
        assert(appended.drop_first() =~= entries.drop_first().push((key, offset)));
        assert forall|j: int| 0 <= j < entries.drop_first().len() implies (
        #[trigger] entries.drop_first()[j]).0 != key by {
            assert(entries.drop_first()[j] == entries[j + 1]);
        }
        lemma_assoc_offset_append(entries.drop_first(), key, offset);
        assert(entries[0].0 != key);
        assert(assoc_offset(appended, key) == assoc_offset(appended.drop_first(), key));
        assert(assoc_offset(appended.drop_first(), key) == Some(offset));
        assert forall|other: ConsumerKey| other != key implies #[trigger] assoc_offset(
            appended,
            other,
        ) == assoc_offset(entries, other) by {
            if entries[0].0 == other {
                assert(assoc_offset(appended, other) == Some(appended[0].1));
                assert(assoc_offset(entries, other) == Some(entries[0].1));
            } else {
                assert(assoc_offset(appended, other) == assoc_offset(appended.drop_first(), other));
                assert(assoc_offset(entries, other) == assoc_offset(entries.drop_first(), other));
            }
        }
    }
}

/// Offset monotonicity: an append assigns the batch a contiguous,
/// increasing run of offsets that starts exactly at the partition's
/// `current_offset`, so successive appends extend the log without gaps
/// or reuse.
pub proof fn lemma_offset_monotonicity(
    batch: Seq<NewMessageView>,
    start: u64,
    now: u64,
    id_seed: u128,
)
    requires
        start + batch.len() <= u64::MAX,
    ensures
        assigned_batch(batch, start, now, id_seed).len() == batch.len(),
        forall|i: int| 0 <= i < batch.len() ==> #[trigger] assigned_batch(
            batch,
            start,
            now,
            id_seed,
        )[i].offset == start + i,
{
}

/// Poll–append consistency: every poll window is a contiguous infix of
/// the log, so a response never duplicates a message, never skips one
/// inside itself, and delivers offsets in increasing order from its
/// start.
pub proof fn lemma_poll_append_consistency(p: Partition, start: int, count: int)
    requires
        p.wf(),
        0 <= start,
        0 <= count,
    ensures
        forall|i: int| 0 <= i < p.poll_window(start, count).len()
            ==> #[trigger] p.poll_window(start, count)[i] == p.msgs()[
            (if start <= p.msgs().len() { start } else { p.msgs().len() as int }) + i
        ],
        forall|i: int| 0 <= i < p.poll_window(start, count).len() && start <= p.msgs().len()
            ==> #[trigger] p.poll_window(start, count)[i].offset == start + i,
        p.poll_window(start, count).len() <= count,
{
}

/// Auto-commit idempotence, empty half: once a `Next` poll has delivered
/// through the end of the log and committed its last offset, a second
/// `Next` poll with no intervening append has an empty window.
pub proof fn lemma_auto_commit_idempotence_empty(p: Partition, key: ConsumerKey, count: u32)
    requires
        p.wf(),
        p.msgs().len() >= 1,
        p.stored_offset(key) == Some((p.msgs().len() - 1) as u64),
    ensures
        p.start_of(key, PollingStrategy::Next, count) == Some(p.msgs().len() as int),
        p.poll_window(p.msgs().len() as int, count as int) =~= Seq::<MessageView>::empty(),
{
}

/// Auto-commit idempotence, append half: with the same committed offset
/// and exactly the messages of `p` plus `k` appended ones, a `Next` poll
/// on the grown log delivers exactly the appended messages (for a count
/// that covers them).
pub proof fn lemma_auto_commit_idempotence_append(
    p: Partition,
    q: Partition,
    key: ConsumerKey,
    count: u32,
)
    requires
        p.wf(),
        q.wf(),
        p.msgs().len() >= 1,
        q.msgs().len() >= p.msgs().len(),
        q.msgs().take(p.msgs().len() as int) == p.msgs(),
        q.stored_offset(key) == Some((p.msgs().len() - 1) as u64),
        count >= q.msgs().len() - p.msgs().len(),
    ensures
        q.start_of(key, PollingStrategy::Next, count) == Some(p.msgs().len() as int),
        q.poll_window(p.msgs().len() as int, count as int) =~= q.msgs().skip(
            p.msgs().len() as int,
        ),
{
    let n = p.msgs().len() as int;
    assert(q.poll_window(n, count as int) =~= q.msgs().skip(n));
}

/// `id_seed + k`, available to executable code.
fn id_seed_at(id_seed: u128, k: usize) -> (r: u128)
    requires
        id_seed + k <= u128::MAX,
    ensures
        r == id_seed + k,
{
    id_seed + k as u128
}

/// Saturating conversion of a length to `u64`.
fn sat_cast_u64(x: usize) -> (r: u64)
    ensures
        r == spec_sat_u64(x as int),
{
    if x as u64 > u64::MAX {
        u64::MAX
    } else {
        x as u64
    }
}

/// Saturating `u64` addition.
fn sat_add_u64(a: u64, b: u64) -> (r: u64)
    ensures
        r == spec_sat_u64(a + b),
{
    if a > u64::MAX - b {
        u64::MAX
    } else {
        a + b
    }
}

/// Clamp an integer into `u64`.
pub open spec fn spec_sat_u64(x: int) -> u64 {
    if x > u64::MAX {
        u64::MAX
    } else if x < 0 {
        0u64
    } else {
        x as u64
    }
}

/// Saturation collapses nested sums.
proof fn lemma_sat_add_collapse(a: int, b: int)
    requires
        a >= 0,
        b >= 0,
    ensures
        spec_sat_u64(spec_sat_u64(a) + spec_sat_u64(b)) == spec_sat_u64(a + b),
{
}

/// A batch never contributes negative bytes.
proof fn lemma_batch_size_nonneg(batch: Seq<NewMessageView>)
    ensures
        batch_size(batch) >= 0,
    decreases batch.len(),
{
    if batch.len() > 0 {
        lemma_batch_size_nonneg(batch.drop_last());
    }
}

} // verus!
