//! A stream: a named top-level namespace holding topics with unique ids
//! and unique names.

use vstd::prelude::*;
use crate::error::IggyError;
use crate::topic::Topic;

verus! {

/// A stream and its topics.
#[derive(Debug)]
pub struct Stream {
    pub id: u32,
    pub name: Vec<u8>,
    pub created_at: u64,
    pub topics: Vec<Topic>,
}

impl Stream {
    /// The stream invariant: topics are well formed, point back at this
    /// stream, and carry pairwise distinct ids and names.
    pub open spec fn wf(self) -> bool {
        &&& forall|i: int| 0 <= i < self.topics@.len() ==> (#[trigger] self.topics@[i]).wf()
        &&& forall|i: int| 0 <= i < self.topics@.len() ==> (#[trigger] self.topics@[i]).stream_id
            == self.id
        &&& forall|i: int, j: int| 0 <= i < j < self.topics@.len()
            ==> (#[trigger] self.topics@[i]).id != (#[trigger] self.topics@[j]).id
        &&& forall|i: int, j: int| 0 <= i < j < self.topics@.len()
            ==> (#[trigger] self.topics@[i]).name@ != (#[trigger] self.topics@[j]).name@
    }

    /// A fresh stream without topics.
    pub fn new(id: u32, name: Vec<u8>, created_at: u64) -> (r: Stream)
        ensures
            r.wf(),
            r.id == id,
            r.name@ == name@,
            r.created_at == created_at,
            r.topics@ =~= Seq::<Topic>::empty(),
    {
        Stream { id, name, created_at, topics: Vec::new() }
    }

    /// The position of the topic with the given id, if any.
    pub fn find_topic_by_id(&self, topic_id: u32) -> (r: Option<usize>)
        ensures
            match r {
                Some(i) => i < self.topics@.len() && self.topics@[i as int].id == topic_id,
                None => forall|i: int| 0 <= i < self.topics@.len()
                    ==> (#[trigger] self.topics@[i]).id != topic_id,
            },
    {
        let n = self.topics.len();
        let mut i: usize = 0;
        while i < n
            invariant
                i <= n,
                n == self.topics@.len(),
                forall|j: int| 0 <= j < i ==> (#[trigger] self.topics@[j]).id != topic_id,
            decreases n - i,
        {
            if self.topics[i].id == topic_id {
                return Some(i);
            }
            i = i + 1;
        }
        None
    }

    /// The position of the topic with the given name, if any.
    pub fn find_topic_by_name(&self, name: &[u8]) -> (r: Option<usize>)
        ensures
            match r {
                Some(i) => i < self.topics@.len() && self.topics@[i as int].name@ == name@,
                None => forall|i: int| 0 <= i < self.topics@.len()
                    ==> (#[trigger] self.topics@[i]).name@ != name@,
            },
    {
        let n = self.topics.len();
        let mut i: usize = 0;
        while i < n
            invariant
                i <= n,
                n == self.topics@.len(),
                forall|j: int| 0 <= j < i ==> (#[trigger] self.topics@[j]).name@ != name@,
            decreases n - i,
        {
            if crate::wire::slice_eq_bytes(self.topics[i].name.as_slice(), name) {
                return Some(i);
            }
            i = i + 1;
        }
        None
    }

    /// Creates a topic; a taken id or name is rejected with
    /// `TopicAlreadyExists`.
    pub fn create_topic(
        &mut self,
        topic_id: u32,
        name: Vec<u8>,
        partitions_count: u32,
        segment_size_limit: u64,
        message_expiry: Option<u64>,
    ) -> (r: Result<(), IggyError>)
        requires
            old(self).wf(),
        ensures
            final(self).wf(),
            final(self).id == old(self).id,
            final(self).name@ == old(self).name@,
            match r {
                Ok(()) => {
                    &&& forall|i: int| 0 <= i < old(self).topics@.len()
                        ==> (#[trigger] old(self).topics@[i]).id != topic_id
                    &&& forall|i: int| 0 <= i < old(self).topics@.len()
                        ==> (#[trigger] old(self).topics@[i]).name@ != name@
                    &&& final(self).topics@.len() == old(self).topics@.len() + 1
                    &&& forall|i: int| 0 <= i < old(self).topics@.len()
                        ==> final(self).topics@[i] == old(self).topics@[i]
                    &&& final(self).topics@.last().id == topic_id
                    &&& final(self).topics@.last().name@ == name@
                    &&& final(self).topics@.last().partitions@.len() == partitions_count
                },
                Err(e) => {
                    &&& e == IggyError::TopicAlreadyExists
                    &&& *final(self) == *old(self)
                    &&& (exists|i: int| 0 <= i < old(self).topics@.len()
                        && ((#[trigger] old(self).topics@[i]).id == topic_id || old(
                        self,
                    ).topics@[i].name@ == name@))
                },
            },
    {
        if let Some(_) = self.find_topic_by_id(topic_id) {
            return Err(IggyError::TopicAlreadyExists);
        }
        if let Some(_) = self.find_topic_by_name(name.as_slice()) {
            return Err(IggyError::TopicAlreadyExists);
        }
        let topic = Topic::new(
            self.id,
            topic_id,
            name,
            partitions_count,
            segment_size_limit,
            message_expiry,
        );
        self.topics.push(topic);
        Ok(())
    }

    /// Deletes the topic with the given id, recursively dropping its
    /// partitions.
    pub fn delete_topic(&mut self, topic_id: u32) -> (r: Result<(), IggyError>)
        requires
            old(self).wf(),
        ensures
            final(self).wf(),
            final(self).id == old(self).id,
            final(self).name@ == old(self).name@,
            match r {
                Ok(()) => {
                    &&& final(self).topics@.len() == old(self).topics@.len() - 1
                    &&& forall|i: int| 0 <= i < final(self).topics@.len()
                        ==> (#[trigger] final(self).topics@[i]).id != topic_id
                    &&& exists|i: int|
                        #![trigger old(self).topics@[i]]
                        0 <= i < old(self).topics@.len() && old(self).topics@[i].id == topic_id
                            && final(self).topics@ == old(self).topics@.remove(i)
                },
                Err(e) => {
                    &&& e == IggyError::TopicNotFound
                    &&& *final(self) == *old(self)
                    &&& forall|i: int| 0 <= i < old(self).topics@.len()
                        ==> (#[trigger] old(self).topics@[i]).id != topic_id
                },
            },
    {
        match self.find_topic_by_id(topic_id) {
            None => Err(IggyError::TopicNotFound),
            Some(idx) => {
                let ghost before = self.topics@;
                self.topics.remove(idx);
                proof {
                    assert(self.topics@ =~= before.remove(idx as int));
                    assert(self.topics@ =~= before.take(idx as int) + before.skip(idx as int + 1));
                    assert forall|i: int| 0 <= i < self.topics@.len() implies (
                    #[trigger] self.topics@[i]).id != topic_id by {
                        if i < idx {
                            assert(self.topics@[i] == before[i]);
                            assert(before[i].id != before[idx as int].id);
                        } else {
                            assert(self.topics@[i] == before[i + 1]);
                            assert(before[idx as int].id != before[i + 1].id);
                        }
                    }
                }
                Ok(())
            },
        }
    }
}

} // verus!
