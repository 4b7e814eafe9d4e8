//! A topic: a set of 1-indexed partitions, the partitioning policy that
//! picks one for each batch, and the topic's consumer groups.

use vstd::prelude::*;
use crate::error::IggyError;
use crate::checksum::fnv1a;
use crate::partition::{Partition, NewMessage, NewMessageView, Message, MessageView, ConsumerKey,
    PollingStrategy, assigned_batch};
use crate::consumer_group::{ConsumerGroup, sorted_strict, assign_from};

verus! {

/// How a batch picks its partition.
#[derive(Debug)]
pub enum Partitioning {
    Balanced,
    KeyHash(Vec<u8>),
    Explicit(u32),
}

/// A topic with its partitions (partition `i + 1` lives at index `i`),
/// its round-robin cursor, and its consumer groups.
#[derive(Debug)]
pub struct Topic {
    pub id: u32,
    pub stream_id: u32,
    pub name: Vec<u8>,
    pub partitions: Vec<Partition>,
    pub round_robin_cursor: u32,
    pub consumer_groups: Vec<ConsumerGroup>,
    pub message_expiry: Option<u64>,
}

impl Topic {
    /// The topic invariant: partition `i` holds id `i + 1` and points
    /// back at this topic and stream; groups are well formed, carry
    /// distinct ids, point back here, and assign over exactly this
    /// topic's partition ids.
    pub open spec fn wf(self) -> bool {
        &&& forall|i: int| 0 <= i < self.partitions@.len() ==> (#[trigger] self.partitions@[i]).wf()
        &&& forall|i: int| 0 <= i < self.partitions@.len()
            ==> (#[trigger] self.partitions@[i]).partition_id == i + 1
        &&& forall|i: int| 0 <= i < self.partitions@.len()
            ==> (#[trigger] self.partitions@[i]).topic_id == self.id
        &&& forall|i: int| 0 <= i < self.partitions@.len()
            ==> (#[trigger] self.partitions@[i]).stream_id == self.stream_id
        &&& self.partitions@.len() <= u32::MAX
        &&& forall|g: int| 0 <= g < self.consumer_groups@.len()
            ==> (#[trigger] self.consumer_groups@[g]).wf()
        &&& forall|g: int| 0 <= g < self.consumer_groups@.len()
            ==> (#[trigger] self.consumer_groups@[g]).topic_id == self.id
        &&& forall|g: int, h: int| 0 <= g < h < self.consumer_groups@.len()
            ==> (#[trigger] self.consumer_groups@[g]).id
            != (#[trigger] self.consumer_groups@[h]).id
        &&& forall|g: int| 0 <= g < self.consumer_groups@.len()
            ==> (#[trigger] self.consumer_groups@[g]).partitions@ == Seq::<u32>::new(
            self.partitions@.len(),
            |i: int| (i + 1) as u32,
        )
    }

    /// A fresh topic with `partitions_count` empty partitions.
    pub fn new(
        stream_id: u32,
        id: u32,
        name: Vec<u8>,
        partitions_count: u32,
        segment_size_limit: u64,
        message_expiry: Option<u64>,
    ) -> (r: Topic)
        ensures
            r.wf(),
            r.id == id,
            r.stream_id == stream_id,
            r.name@ == name@,
            r.partitions@.len() == partitions_count,
            forall|i: int| 0 <= i < partitions_count ==> (#[trigger] r.partitions@[i]).msgs()
                =~= Seq::<MessageView>::empty(),
            r.consumer_groups@ =~= Seq::<ConsumerGroup>::empty(),
            r.round_robin_cursor == 0,
            r.message_expiry == message_expiry,
    {
        let mut partitions: Vec<Partition> = Vec::new();
        let mut i: u32 = 0;
        while i < partitions_count
            invariant
                i <= partitions_count,
                partitions@.len() == i,
                forall|j: int| 0 <= j < i ==> (#[trigger] partitions@[j]).wf(),
                forall|j: int| 0 <= j < i ==> (#[trigger] partitions@[j]).partition_id == j + 1,
                forall|j: int| 0 <= j < i ==> (#[trigger] partitions@[j]).topic_id == id,
                forall|j: int| 0 <= j < i ==> (#[trigger] partitions@[j]).stream_id == stream_id,
                forall|j: int| 0 <= j < i ==> (#[trigger] partitions@[j]).msgs()
                    =~= Seq::<MessageView>::empty(),
            decreases partitions_count - i,
        {
            partitions.push(Partition::new(stream_id, id, i + 1, segment_size_limit));
            i = i + 1;
        }
        Topic {
            id,
            stream_id,
            name,
            partitions,
            round_robin_cursor: 0,
            consumer_groups: Vec::new(),
            message_expiry,
        }
    }

    /// Picks the partition for a batch: `Balanced` walks the round-robin
    /// cursor, `KeyHash` maps the key's hash onto the partition count so
    /// equal keys land together, `Explicit` takes the named partition or
    /// fails with `PartitionNotFound`.  Returns the 1-indexed partition
    /// id; a topic with no partitions rejects every batch.
    pub fn resolve_partition(&mut self, partitioning: &Partitioning) -> (r: Result<
        u32,
        IggyError,
    >)
        requires
            old(self).wf(),
        ensures
            final(self).wf(),
            final(self).partitions@ == old(self).partitions@,
            final(self).consumer_groups@ == old(self).consumer_groups@,
            final(self).id == old(self).id,
            final(self).stream_id == old(self).stream_id,
            final(self).name@ == old(self).name@,
            final(self).message_expiry == old(self).message_expiry,
            match r {
                Ok(pid) => {
                    &&& old(self).partitions@.len() >= 1
                    &&& 1 <= pid <= old(self).partitions@.len()
                    &&& match partitioning {
                        Partitioning::Balanced => pid == old(self).round_robin_cursor as int % old(
                            self,
                        ).partitions@.len() as int + 1 && final(self).round_robin_cursor == (
                        if old(self).round_robin_cursor == u32::MAX {
                            0u32
                        } else {
                            (old(self).round_robin_cursor + 1) as u32
                        }),
                        Partitioning::KeyHash(key) => pid == fnv1a(key@) as int % old(
                            self,
                        ).partitions@.len() as int + 1 && final(self).round_robin_cursor == old(
                            self,
                        ).round_robin_cursor,
                        Partitioning::Explicit(p) => pid == p && final(self).round_robin_cursor
                            == old(self).round_robin_cursor,
                    }
                },
                Err(e) => {
                    &&& final(self).round_robin_cursor == old(self).round_robin_cursor
                    &&& e == IggyError::PartitionNotFound
                    &&& match partitioning {
                        Partitioning::Explicit(p) => old(self).partitions@.len() == 0 || *p < 1
                            || *p > old(self).partitions@.len(),
                        _ => old(self).partitions@.len() == 0,
                    }
                },
            },
    {
        let count = self.partitions.len() as u32;
        if count == 0 {
            return Err(IggyError::PartitionNotFound);
        }
        match partitioning {
            Partitioning::Balanced => {
                let cursor = self.round_robin_cursor;
                let pid = cursor % count + 1;
                self.round_robin_cursor = if cursor == u32::MAX {
                    0
                } else {
                    cursor + 1
                };
                Ok(pid)
            },
            Partitioning::KeyHash(key) => {
                let h = crate::checksum::hash32(key.as_slice());
                Ok(h % count + 1)
            },
            Partitioning::Explicit(p) => {
                if *p < 1 || *p > count {
                    Err(IggyError::PartitionNotFound)
                } else {
                    Ok(*p)
                }
            },
        }
    }

    /// The partition a batch resolves to, when any exists: the cursor's
    /// position for `Balanced`, the key's hash for `KeyHash`, the named
    /// id for `Explicit`; 1-indexed.
    pub open spec fn resolved_pid(self, partitioning: Partitioning) -> int {
        match partitioning {
            Partitioning::Balanced => self.round_robin_cursor as int % self.partitions@.len()
                as int + 1,
            Partitioning::KeyHash(key) => fnv1a(key@) as int % self.partitions@.len() as int + 1,
            Partitioning::Explicit(p) => p as int,
        }
    }

    /// When a batch cannot resolve to a partition at all: no partitions,
    /// or an explicit id outside `1..=count`.
    pub open spec fn append_unroutable(self, partitioning: Partitioning) -> bool {
        ||| self.partitions@.len() == 0
        ||| (partitioning matches Partitioning::Explicit(p) && (p < 1 || p
            > self.partitions@.len()))
    }

    /// When a routable batch would run out of id or offset space: a
    /// machine limit, reported as out of range.
    pub open spec fn append_overflows(
        self,
        partitioning: Partitioning,
        batch_len: int,
        id_seed: u128,
    ) -> bool {
        ||| id_seed + batch_len > u128::MAX
        ||| self.partitions@[self.resolved_pid(partitioning) - 1].current_offset + batch_len
            > u64::MAX
    }

    /// Appends a batch to the partition that the partitioning picks —
    /// exactly [`Self::resolved_pid`] — and returns that partition's id.
    /// Fails exactly when the batch is unroutable (`PartitionNotFound`)
    /// or would overflow the id or offset space (`OffsetOutOfRange`);
    /// all other partitions are untouched.
    pub fn append_messages(
        &mut self,
        partitioning: &Partitioning,
        batch: Vec<NewMessage>,
        now: u64,
        id_seed: u128,
    ) -> (r: Result<u32, IggyError>)
        requires
            old(self).wf(),
        ensures
            final(self).wf(),
            final(self).id == old(self).id,
            final(self).stream_id == old(self).stream_id,
            final(self).name@ == old(self).name@,
            final(self).consumer_groups@ == old(self).consumer_groups@,
            r is Err <==> (old(self).append_unroutable(*partitioning) || (!old(
                self,
            ).append_unroutable(*partitioning) && old(self).append_overflows(
                *partitioning,
                batch@.len() as int,
                id_seed,
            ))),
            match r {
                Ok(pid) => {
                    &&& 1 <= pid <= old(self).partitions@.len()
                    &&& pid == old(self).resolved_pid(*partitioning)
                    &&& (partitioning is Balanced ==> final(self).round_robin_cursor == (
                    if old(self).round_robin_cursor == u32::MAX {
                        0u32
                    } else {
                        (old(self).round_robin_cursor + 1) as u32
                    }))
                    &&& (!(partitioning is Balanced) ==> final(self).round_robin_cursor == old(
                        self,
                    ).round_robin_cursor)
                    &&& final(self).partitions@.len() == old(self).partitions@.len()
                    &&& final(self).partitions@[pid - 1].msgs() =~= old(self).partitions@[pid
                        - 1].msgs() + assigned_batch(
                        batch@.map_values(|m: NewMessage| m@),
                        old(self).partitions@[pid - 1].current_offset,
                        now,
                        id_seed,
                    )
                    &&& final(self).partitions@[pid - 1].consumer_offsets@ == old(
                        self,
                    ).partitions@[pid - 1].consumer_offsets@
                    &&& forall|i: int| 0 <= i < final(self).partitions@.len() && i != pid - 1
                        ==> final(self).partitions@[i] == old(self).partitions@[i]
                },
                Err(e) => {
                    &&& *final(self) == *old(self)
                    &&& (e == IggyError::PartitionNotFound <==> old(self).append_unroutable(
                        *partitioning,
                    ))
                    &&& (e == IggyError::OffsetOutOfRange <==> (!old(self).append_unroutable(
                        *partitioning,
                    ) && old(self).append_overflows(*partitioning, batch@.len() as int, id_seed)))
                    &&& (e == IggyError::PartitionNotFound || e == IggyError::OffsetOutOfRange)
                },
            },
    {
        let count = self.partitions.len();
        let unroutable = count == 0 || (match partitioning {
            Partitioning::Explicit(p) => *p < 1 || *p as usize > count,
            _ => false,
        });
        if unroutable {
            return Err(IggyError::PartitionNotFound);
        }
        let pid: u32 = match partitioning {
            Partitioning::Balanced => self.round_robin_cursor % (count as u32) + 1,
            Partitioning::KeyHash(key) => crate::checksum::hash32(key.as_slice()) % (count as u32)
                + 1,
            Partitioning::Explicit(p) => *p,
        };
        let idx = (pid - 1) as usize;
        if id_seed > u128::MAX - batch.len() as u128 {
            // More fresh ids than the id space still holds.
            return Err(IggyError::OffsetOutOfRange);
        }
        if self.partitions[idx].current_offset > u64::MAX - batch.len() as u64 {
            // The batch would run the offset space out.
            return Err(IggyError::OffsetOutOfRange);
        }
        if let Partitioning::Balanced = partitioning {
            self.round_robin_cursor = if self.round_robin_cursor == u32::MAX {
                0
            } else {
                self.round_robin_cursor + 1
            };
        }
        let ghost before = self.partitions@;
        let mut part = self.partitions.remove(idx);
        part.append_messages(batch, now, id_seed);
        self.partitions.insert(idx, part);
        proof {
            assert(self.partitions@ =~= before.update(idx as int, self.partitions@[idx as int]));
        }
        Ok(pid)
    }

    /// When a poll of a valid partition is rejected: an `Offset`
    /// strategy pointing past the log.
    pub open spec fn poll_out_of_range(self, partition_id: u32, strategy: PollingStrategy) -> bool {
        &&& 1 <= partition_id <= self.partitions@.len()
        &&& (strategy matches PollingStrategy::Offset(o) && o
            > self.partitions@[partition_id - 1].msgs().len())
    }

    /// Polls one partition of the topic; partition ids are 1-indexed.
    /// Fails exactly on an unknown partition or an `Offset` strategy
    /// pointing past the log.
    pub fn poll_messages(
        &mut self,
        partition_id: u32,
        key: ConsumerKey,
        strategy: PollingStrategy,
        count: u32,
        auto_commit: bool,
    ) -> (r: Result<Vec<Message>, IggyError>)
        requires
            old(self).wf(),
        ensures
            final(self).wf(),
            final(self).id == old(self).id,
            final(self).stream_id == old(self).stream_id,
            final(self).name@ == old(self).name@,
            final(self).consumer_groups@ == old(self).consumer_groups@,
            final(self).partitions@.len() == old(self).partitions@.len(),
            r is Err <==> (partition_id < 1 || partition_id > old(self).partitions@.len()
                || old(self).poll_out_of_range(partition_id, strategy)),
            match r {
                Ok(out) => {
                    &&& 1 <= partition_id <= old(self).partitions@.len()
                    &&& {
                        let p = old(self).partitions@[partition_id - 1];
                        let pnew = final(self).partitions@[partition_id - 1];
                        &&& p.start_of(key, strategy, count) matches Some(st)
                        &&& out@.map_values(|m: Message| m@) == p.poll_window(
                            p.start_of(key, strategy, count).unwrap(),
                            count as int,
                        )
                        &&& pnew.msgs() == p.msgs()
                        &&& (if auto_commit && out@.len() > 0 {
                            pnew.stored_offset(key) == Some(out@.last()@.offset) && forall|
                                other: ConsumerKey,
                            |
                                other != key ==> #[trigger] pnew.stored_offset(other)
                                    == p.stored_offset(other)
                        } else {
                            pnew.consumer_offsets@ == p.consumer_offsets@
                        })
                        &&& forall|i: int| 0 <= i < final(self).partitions@.len() && i
                            != partition_id - 1 ==> final(self).partitions@[i] == old(
                            self,
                        ).partitions@[i]
                    }
                },
                Err(e) => {
                    &&& *final(self) == *old(self)
                    &&& (e == IggyError::PartitionNotFound || e == IggyError::OffsetOutOfRange)
                    &&& (e == IggyError::PartitionNotFound <==> (partition_id < 1 || partition_id
                        > old(self).partitions@.len()))
                    &&& (e == IggyError::OffsetOutOfRange <==> (1 <= partition_id <= old(
                        self,
                    ).partitions@.len() && old(self).poll_out_of_range(partition_id, strategy)))
                },
            },
    {
        if partition_id < 1 || partition_id as usize > self.partitions.len() {
            return Err(IggyError::PartitionNotFound);
        }
        let idx = (partition_id - 1) as usize;
        if let PollingStrategy::Offset(o) = strategy {
            if o > self.partitions[idx].messages.len() as u64 {
                return Err(IggyError::OffsetOutOfRange);
            }
        }
        let ghost before = self.partitions@;
        let mut part = self.partitions.remove(idx);
        let polled = part.poll_messages(key, strategy, count, auto_commit);
        self.partitions.insert(idx, part);
        proof {
            assert(self.partitions@ =~= before.update(idx as int, self.partitions@[idx as int]));
        }
        match polled {
            Ok(out) => Ok(out),
            Err(e) => {
                proof {
                    assert(false);
                }
                Err(e)
            },
        }
    }

    /// Stores a consumer offset in one partition.
    pub fn store_consumer_offset(&mut self, partition_id: u32, key: ConsumerKey, offset: u64) -> (r:
        Result<(), IggyError>)
        requires
            old(self).wf(),
        ensures
            final(self).wf(),
            final(self).id == old(self).id,
            final(self).stream_id == old(self).stream_id,
            final(self).name@ == old(self).name@,
            final(self).consumer_groups@ == old(self).consumer_groups@,
            final(self).partitions@.len() == old(self).partitions@.len(),
            match r {
                Ok(()) => {
                    &&& 1 <= partition_id <= old(self).partitions@.len()
                    &&& final(self).partitions@[partition_id - 1].stored_offset(key) == Some(
                        offset,
                    )
                    &&& ({
                        let pnew = final(self).partitions@[partition_id - 1];
                        let pold = old(self).partitions@[partition_id - 1];
                        forall|other: ConsumerKey| other != key
                            ==> #[trigger] pnew.stored_offset(other) == pold.stored_offset(other)
                    })
                    &&& final(self).partitions@[partition_id - 1].msgs() == old(
                        self,
                    ).partitions@[partition_id - 1].msgs()
                    &&& forall|i: int| 0 <= i < final(self).partitions@.len() && i != partition_id
                        - 1 ==> final(self).partitions@[i] == old(self).partitions@[i]
                },
                Err(e) => {
                    &&& *final(self) == *old(self)
                    &&& e == IggyError::PartitionNotFound
                    &&& (partition_id < 1 || partition_id > old(self).partitions@.len())
                },
            },
    {
        if partition_id < 1 || partition_id as usize > self.partitions.len() {
            return Err(IggyError::PartitionNotFound);
        }
        let idx = (partition_id - 1) as usize;
        let ghost before = self.partitions@;
        let mut part = self.partitions.remove(idx);
        part.store_consumer_offset(key, offset);
        self.partitions.insert(idx, part);
        proof {
            assert(self.partitions@ =~= before.update(idx as int, self.partitions@[idx as int]));
        }
        Ok(())
    }

    /// Reads a stored consumer offset from one partition; an absent entry
    /// reads as zero.
    pub fn get_consumer_offset(&self, partition_id: u32, key: ConsumerKey) -> (r: Result<
        u64,
        IggyError,
    >)
        requires
            self.wf(),
        ensures
            match r {
                Ok(offset) => 1 <= partition_id <= self.partitions@.len() && offset == (
                match self.partitions@[partition_id - 1].stored_offset(key) {
                    Some(s) => s,
                    None => 0u64,
                }),
                Err(e) => e == IggyError::PartitionNotFound && (partition_id < 1 || partition_id
                    > self.partitions@.len()),
            },
    {
        if partition_id < 1 || partition_id as usize > self.partitions.len() {
            return Err(IggyError::PartitionNotFound);
        }
        let idx = (partition_id - 1) as usize;
        Ok(self.partitions[idx].get_consumer_offset(key))
    }

    /// The sorted list of this topic's partition ids: `1..=count`.
    pub fn partition_ids(&self) -> (r: Vec<u32>)
        requires
            self.wf(),
        ensures
            r@ == Seq::<u32>::new(self.partitions@.len(), |i: int| (i + 1) as u32),
            sorted_strict(r@),
    {
        let mut out: Vec<u32> = Vec::new();
        let n = self.partitions.len();
        let mut i: usize = 0;
        while i < n
            invariant
                i <= n,
                n == self.partitions@.len(),
                n <= u32::MAX,
                out@.len() == i,
                forall|j: int| 0 <= j < i ==> #[trigger] out@[j] == j + 1,
            decreases n - i,
        {
            out.push((i as u32) + 1);
            i = i + 1;
        }
        proof {
            assert(out@ =~= Seq::<u32>::new(self.partitions@.len(), |i: int| (i + 1) as u32));
        }
        out
    }

    /// The position of the group with the given id, if any.
    pub fn find_group(&self, group_id: u32) -> (r: Option<usize>)
        ensures
            match r {
                Some(i) => i < self.consumer_groups@.len() && self.consumer_groups@[i as int].id
                    == group_id,
                None => forall|i: int| 0 <= i < self.consumer_groups@.len()
                    ==> (#[trigger] self.consumer_groups@[i]).id != group_id,
            },
    {
        let n = self.consumer_groups.len();
        let mut i: usize = 0;
        while i < n
            invariant
                i <= n,
                n == self.consumer_groups@.len(),
                forall|j: int| 0 <= j < i ==> (#[trigger] self.consumer_groups@[j]).id != group_id,
            decreases n - i,
        {
            if self.consumer_groups[i].id == group_id {
                return Some(i);
            }
            i = i + 1;
        }
        None
    }

    /// Creates a consumer group over this topic's partitions; an existing
    /// id is rejected.
    pub fn create_consumer_group(&mut self, group_id: u32) -> (r: Result<(), IggyError>)
        requires
            old(self).wf(),
        ensures
            final(self).wf(),
            final(self).partitions@ == old(self).partitions@,
            final(self).id == old(self).id,
            final(self).stream_id == old(self).stream_id,
            final(self).name@ == old(self).name@,
            match r {
                Ok(()) => {
                    &&& forall|i: int| 0 <= i < old(self).consumer_groups@.len()
                        ==> (#[trigger] old(self).consumer_groups@[i]).id != group_id
                    &&& final(self).consumer_groups@.len() == old(self).consumer_groups@.len() + 1
                    &&& final(self).consumer_groups@.last().id == group_id
                    &&& final(self).consumer_groups@.last().members@ =~= Seq::<u32>::empty()
                    &&& forall|i: int| 0 <= i < old(self).consumer_groups@.len()
                        ==> final(self).consumer_groups@[i] == old(self).consumer_groups@[i]
                },
                Err(e) => {
                    &&& e == IggyError::ConsumerGroupAlreadyExists
                    &&& *final(self) == *old(self)
                    &&& exists|i: int| 0 <= i < old(self).consumer_groups@.len()
                        && (#[trigger] old(self).consumer_groups@[i]).id == group_id
                },
            },
    {
        match self.find_group(group_id) {
            Some(_) => Err(IggyError::ConsumerGroupAlreadyExists),
            None => {
                let ids = self.partition_ids();
                let group = ConsumerGroup::new(group_id, self.id, ids);
                self.consumer_groups.push(group);
                Ok(())
            },
        }
    }

    /// Deletes a consumer group.
    pub fn delete_consumer_group(&mut self, group_id: u32) -> (r: Result<(), IggyError>)
        requires
            old(self).wf(),
        ensures
            final(self).wf(),
            final(self).partitions@ == old(self).partitions@,
            final(self).id == old(self).id,
            final(self).stream_id == old(self).stream_id,
            final(self).name@ == old(self).name@,
            match r {
                Ok(()) => final(self).consumer_groups@.len() == old(self).consumer_groups@.len()
                    - 1 && forall|i: int| 0 <= i < final(self).consumer_groups@.len()
                    ==> (#[trigger] final(self).consumer_groups@[i]).id != group_id,
                Err(e) => {
                    &&& e == IggyError::ConsumerGroupNotFound
                    &&& *final(self) == *old(self)
                    &&& forall|i: int| 0 <= i < old(self).consumer_groups@.len()
                        ==> (#[trigger] old(self).consumer_groups@[i]).id != group_id
                },
            },
    {
        match self.find_group(group_id) {
            None => Err(IggyError::ConsumerGroupNotFound),
            Some(idx) => {
                let ghost before = self.consumer_groups@;
                self.consumer_groups.remove(idx);
                proof {
                    assert(self.consumer_groups@ =~= before.take(idx as int) + before.skip(
                        idx as int + 1,
                    ));
                    assert forall|i: int| 0 <= i < self.consumer_groups@.len() implies (
                    #[trigger] self.consumer_groups@[i]).id != group_id by {
                        if i < idx {
                            assert(self.consumer_groups@[i] == before[i]);
                        } else {
                            assert(self.consumer_groups@[i] == before[i + 1]);
                        }
                    }
                }
                Ok(())
            },
        }
    }

    /// Adds a client to a group; the roster stays sorted and the
    /// assignment follows deterministically.
    pub fn join_consumer_group(&mut self, group_id: u32, client_id: u32) -> (r: Result<
        (),
        IggyError,
    >)
        requires
            old(self).wf(),
        ensures
            final(self).wf(),
            final(self).partitions@ == old(self).partitions@,
            final(self).id == old(self).id,
            final(self).stream_id == old(self).stream_id,
            final(self).name@ == old(self).name@,
            final(self).consumer_groups@.len() == old(self).consumer_groups@.len(),
            match r {
                Ok(()) => exists|g: int|
                    {
                        &&& 0 <= g < old(self).consumer_groups@.len()
                        &&& (#[trigger] old(self).consumer_groups@[g]).id == group_id
                        &&& final(self).consumer_groups@[g].id == group_id
                        &&& final(self).consumer_groups@[g].topic_id == old(
                            self,
                        ).consumer_groups@[g].topic_id
                        &&& final(self).consumer_groups@[g].partitions@ == old(
                            self,
                        ).consumer_groups@[g].partitions@
                        &&& forall|y: u32| final(self).consumer_groups@[g].members@.contains(y)
                            <==> (old(self).consumer_groups@[g].members@.contains(y) || y
                            == client_id)
                        &&& forall|h: int| 0 <= h < old(self).consumer_groups@.len() && h != g
                            ==> final(self).consumer_groups@[h] == old(self).consumer_groups@[h]
                    },
                Err(e) => {
                    &&& e == IggyError::ConsumerGroupNotFound
                    &&& *final(self) == *old(self)
                    &&& forall|i: int| 0 <= i < old(self).consumer_groups@.len()
                        ==> (#[trigger] old(self).consumer_groups@[i]).id != group_id
                },
            },
    {
        match self.find_group(group_id) {
            None => Err(IggyError::ConsumerGroupNotFound),
            Some(idx) => {
                let ghost before = self.consumer_groups@;
                let mut group = self.consumer_groups.remove(idx);
                group.join(client_id);
                self.consumer_groups.insert(idx, group);
                proof {
                    assert(self.consumer_groups@ =~= before.update(
                        idx as int,
                        self.consumer_groups@[idx as int],
                    ));
                }
                Ok(())
            },
        }
    }

    /// Removes a client from a group; its partitions fall back to the
    /// remaining members.
    pub fn leave_consumer_group(&mut self, group_id: u32, client_id: u32) -> (r: Result<
        (),
        IggyError,
    >)
        requires
            old(self).wf(),
        ensures
            final(self).wf(),
            final(self).partitions@ == old(self).partitions@,
            final(self).id == old(self).id,
            final(self).stream_id == old(self).stream_id,
            final(self).name@ == old(self).name@,
            final(self).consumer_groups@.len() == old(self).consumer_groups@.len(),
            match r {
                Ok(()) => exists|g: int|
                    {
                        &&& 0 <= g < old(self).consumer_groups@.len()
                        &&& (#[trigger] old(self).consumer_groups@[g]).id == group_id
                        &&& final(self).consumer_groups@[g].id == group_id
                        &&& final(self).consumer_groups@[g].topic_id == old(
                            self,
                        ).consumer_groups@[g].topic_id
                        &&& final(self).consumer_groups@[g].partitions@ == old(
                            self,
                        ).consumer_groups@[g].partitions@
                        &&& forall|y: u32| final(self).consumer_groups@[g].members@.contains(y)
                            <==> (old(self).consumer_groups@[g].members@.contains(y) && y
                            != client_id)
                        &&& forall|h: int| 0 <= h < old(self).consumer_groups@.len() && h != g
                            ==> final(self).consumer_groups@[h] == old(self).consumer_groups@[h]
                    },
                Err(e) => {
                    &&& e == IggyError::ConsumerGroupNotFound
                    &&& *final(self) == *old(self)
                    &&& forall|i: int| 0 <= i < old(self).consumer_groups@.len()
                        ==> (#[trigger] old(self).consumer_groups@[i]).id != group_id
                },
            },
    {
        match self.find_group(group_id) {
            None => Err(IggyError::ConsumerGroupNotFound),
            Some(idx) => {
                let ghost before = self.consumer_groups@;
                let mut group = self.consumer_groups.remove(idx);
                group.leave(client_id);
                self.consumer_groups.insert(idx, group);
                proof {
                    assert(self.consumer_groups@ =~= before.update(
                        idx as int,
                        self.consumer_groups@[idx as int],
                    ));
                }
                Ok(())
            },
        }
    }

    /// The partitions currently assigned to `client` in a group.
    pub fn group_assignment(&self, group_id: u32, client_id: u32) -> (r: Result<
        Vec<u32>,
        IggyError,
    >)
        requires
            self.wf(),
        ensures
            match r {
                Ok(out) => exists|g: int|
                    {
                        &&& 0 <= g < self.consumer_groups@.len()
                        &&& (#[trigger] self.consumer_groups@[g]).id == group_id
                        &&& out@ == assign_from(
                            self.consumer_groups@[g].partitions@,
                            self.consumer_groups@[g].members@,
                            client_id,
                            0,
                        )
                    },
                Err(e) => {
                    &&& e == IggyError::ConsumerGroupNotFound
                    &&& forall|i: int| 0 <= i < self.consumer_groups@.len()
                        ==> (#[trigger] self.consumer_groups@[i]).id != group_id
                },
            },
    {
        match self.find_group(group_id) {
            None => Err(IggyError::ConsumerGroupNotFound),
            Some(idx) => Ok(self.consumer_groups[idx].assignment_for(client_id)),
        }
    }
}

} // verus!
