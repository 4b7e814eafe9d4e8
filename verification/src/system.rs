//! The engine root: the stream registry, the user store and login, the
//! client manager, and the permissioner — everything the dispatcher
//! routes commands into.

use vstd::prelude::*;
use vstd::string::StringSliceAdditionalSpecFns;
use crate::error::IggyError;
use crate::identifier::{Identifier, IdModel};
use crate::stream::Stream;
use crate::topic::{Topic, Partitioning};
use crate::partition::{NewMessage, Message, ConsumerKey, PollingStrategy};
use crate::permissioner::Permissioner;
use crate::checksum::fnv1a;
use crate::text::name_matches;

verus! {

/// Who is speaking on a connection: the client id the broker assigned,
/// the logged-in user if any, and whether the connection may act.
#[derive(Clone, Copy, Debug, PartialEq, Eq, Structural)]
pub struct UserContext {
    pub client_id: u32,
    pub user_id: u32,
    pub authenticated: bool,
}

impl UserContext {
    /// The context of a fresh, not yet authenticated connection.
    pub fn from_client_id(client_id: u32) -> (r: UserContext)
        ensures
            r == (UserContext { client_id, user_id: 0u32, authenticated: false }),
    {
        UserContext { client_id, user_id: 0, authenticated: false }
    }

    /// With authentication disabled, every connection may act.
    pub fn disable_authentication(&mut self)
        ensures
            *final(self) == (UserContext {
                authenticated: true,
                ..*old(self)
            }),
    {
        self.authenticated = true;
    }

    /// Whether this connection may issue commands beyond ping and login.
    pub fn is_authenticated(&self) -> (r: bool)
        ensures
            r == self.authenticated,
    {
        self.authenticated
    }
}

/// A stored account: id, username bytes, the hash of its password, and
/// whether it is active.
#[derive(Debug)]
pub struct User {
    pub id: u32,
    pub username: Vec<u8>,
    pub password_hash: u32,
    pub active: bool,
}

/// A registered connection: its assigned client id and remote address.
#[derive(Debug)]
pub struct ClientEntry {
    pub client_id: u32,
    pub address: Vec<u8>,
}

/// The engine root.
#[derive(Debug)]
pub struct System {
    pub streams: Vec<Stream>,
    pub permissioner: Permissioner,
    pub users: Vec<User>,
    pub clients: Vec<ClientEntry>,
    pub next_client_id: u32,
    pub auth_enabled: bool,
    pub segment_size_limit: u64,
}

/// The position of the stream an identifier names, if any: numeric ids
/// match the stream id, names match the stream name bytes.
pub open spec fn stream_pos(streams: Seq<Stream>, m: IdModel) -> Option<int> {
    if exists|i: int| 0 <= i < streams.len() && stream_matches(#[trigger] streams[i], m) {
        Some(choose|i: int| 0 <= i < streams.len() && stream_matches(#[trigger] streams[i], m))
    } else {
        None
    }
}

/// Whether an identifier names a stream: numeric ids match the stream
/// id; names match after normalization (lowercase, whitespace runs
/// collapsed to `.`) against the stored, already-normalized name.
pub open spec fn stream_matches(s: Stream, m: IdModel) -> bool {
    match m {
        IdModel::Num { id } => s.id == id,
        IdModel::Name { bytes } => vstd::utf8::valid_utf8(bytes) && s.name@
            == crate::text::normal_name(bytes),
    }
}

/// Which consumer-group operation to run.
#[derive(Clone, Copy, Debug, PartialEq, Eq, Structural)]
pub enum GroupOp {
    Create,
    Delete,
    Join,
    Leave,
}

/// Whether an identifier names a topic, with the same normalized name
/// matching as [`stream_matches`].
pub open spec fn topic_matches(t: Topic, m: IdModel) -> bool {
    match m {
        IdModel::Num { id } => t.id == id,
        IdModel::Name { bytes } => vstd::utf8::valid_utf8(bytes) && t.name@
            == crate::text::normal_name(bytes),
    }
}

/// Whether any stream matches an identifier.
pub open spec fn some_stream(streams: Seq<Stream>, m: IdModel) -> bool {
    exists|i: int| 0 <= i < streams.len() && stream_matches(#[trigger] streams[i], m)
}

/// Whether any topic of the matched stream matches an identifier.
pub open spec fn some_topic(streams: Seq<Stream>, sm: IdModel, tm: IdModel) -> bool {
    exists|s: int, t: int|
        #![trigger streams[s].topics@[t]]
        0 <= s < streams.len() && stream_matches(streams[s], sm) && 0 <= t
            < streams[s].topics@.len() && topic_matches(streams[s].topics@[t], tm)
}

/// With unique ids and names, at most one stream matches an identifier.
pub proof fn lemma_stream_match_unique(sys: System, m: IdModel, i: int, j: int)
    requires
        sys.wf(),
        0 <= i < sys.streams@.len(),
        0 <= j < sys.streams@.len(),
        stream_matches(sys.streams@[i], m),
        stream_matches(sys.streams@[j], m),
    ensures
        i == j,
{
    if i < j {
        assert(sys.streams@[i].id != sys.streams@[j].id);
        assert(sys.streams@[i].name@ != sys.streams@[j].name@);
    }
    if j < i {
        assert(sys.streams@[j].id != sys.streams@[i].id);
        assert(sys.streams@[j].name@ != sys.streams@[i].name@);
    }
}

/// With unique ids, at most one topic of a stream holds a given id.
pub proof fn lemma_topic_match_unique_by_id(st: Stream, tid: u32, i: int, j: int)
    requires
        st.wf(),
        0 <= i < st.topics@.len(),
        0 <= j < st.topics@.len(),
        st.topics@[i].id == tid,
        st.topics@[j].id == tid,
    ensures
        i == j,
{
    if i < j {
        assert(st.topics@[i].id != st.topics@[j].id);
    }
    if j < i {
        assert(st.topics@[j].id != st.topics@[i].id);
    }
}

/// With unique ids and names, at most one topic of a stream matches an
/// identifier.
pub proof fn lemma_topic_match_unique(st: Stream, m: IdModel, i: int, j: int)
    requires
        st.wf(),
        0 <= i < st.topics@.len(),
        0 <= j < st.topics@.len(),
        topic_matches(st.topics@[i], m),
        topic_matches(st.topics@[j], m),
    ensures
        i == j,
{
    if i < j {
        assert(st.topics@[i].id != st.topics@[j].id);
        assert(st.topics@[i].name@ != st.topics@[j].name@);
    }
    if j < i {
        assert(st.topics@[j].id != st.topics@[i].id);
        assert(st.topics@[j].name@ != st.topics@[i].name@);
    }
}

impl System {
    /// The engine invariant: streams are well formed with pairwise
    /// distinct ids and names; users carry distinct ids and usernames;
    /// client entries carry distinct ids below the next to assign.
    pub open spec fn wf(self) -> bool {
        &&& forall|i: int| 0 <= i < self.streams@.len() ==> (#[trigger] self.streams@[i]).wf()
        &&& forall|i: int, j: int| 0 <= i < j < self.streams@.len()
            ==> (#[trigger] self.streams@[i]).id != (#[trigger] self.streams@[j]).id
        &&& forall|i: int, j: int| 0 <= i < j < self.streams@.len()
            ==> (#[trigger] self.streams@[i]).name@ != (#[trigger] self.streams@[j]).name@
        &&& forall|i: int, j: int| 0 <= i < j < self.users@.len()
            ==> (#[trigger] self.users@[i]).id != (#[trigger] self.users@[j]).id
        &&& forall|i: int, j: int| 0 <= i < j < self.users@.len()
            ==> (#[trigger] self.users@[i]).username@ != (#[trigger] self.users@[j]).username@
        &&& forall|i: int| 0 <= i < self.clients@.len()
            ==> (#[trigger] self.clients@[i]).client_id < self.next_client_id
        &&& forall|i: int, j: int| 0 <= i < j < self.clients@.len()
            ==> (#[trigger] self.clients@[i]).client_id != (#[trigger] self.clients@[j]).client_id
    }

    /// A fresh engine: no streams, no clients, one root account, and the
    /// permissioner in the given mode.
    pub fn new(auth_enabled: bool, segment_size_limit: u64, root_username: Vec<u8>,
        root_password_hash: u32) -> (r: System)
        ensures
            r.wf(),
            r.streams@ =~= Seq::<Stream>::empty(),
            r.clients@ =~= Seq::<ClientEntry>::empty(),
            r.auth_enabled == auth_enabled,
            r.segment_size_limit == segment_size_limit,
            r.users@.len() == 1,
            r.users@[0].id == 1,
            r.users@[0].username@ == root_username@,
            r.users@[0].password_hash == root_password_hash,
            r.users@[0].active,
            r.permissioner.enabled == auth_enabled,
    {
        let mut users: Vec<User> = Vec::new();
        users.push(
            User { id: 1, username: root_username, password_hash: root_password_hash, active: true },
        );
        System {
            streams: Vec::new(),
            permissioner: Permissioner::new(auth_enabled),
            users,
            clients: Vec::new(),
            next_client_id: 1,
            auth_enabled,
            segment_size_limit,
        }
    }

    /// The position of the stream an identifier names, if any.
    pub fn find_stream(&self, id: &Identifier) -> (r: Option<usize>)
        requires
            self.wf(),
        ensures
            match r {
                Some(i) => i < self.streams@.len() && stream_matches(
                    self.streams@[i as int],
                    id.model(),
                ),
                None => stream_pos(self.streams@, id.model()) is None,
            },
    {
        let query: Option<Vec<u8>> = match id {
            Identifier::Numeric(_) => None,
            Identifier::Named(name) => {
                match crate::text::normalize_name_bytes(name.as_slice()) {
                    None => {
                        return None;
                    },
                    Some(q) => Some(q),
                }
            },
        };
        let n = self.streams.len();
        let mut i: usize = 0;
        while i < n
            invariant
                i <= n,
                n == self.streams@.len(),
                match id.model() {
                    IdModel::Num { .. } => query is None,
                    IdModel::Name { bytes } => query matches Some(q) && (vstd::utf8::valid_utf8(
                        bytes,
                    ) && q@ == crate::text::normal_name(bytes)),
                },
                forall|j: int| 0 <= j < i ==> !stream_matches(
                    #[trigger] self.streams@[j],
                    id.model(),
                ),
            decreases n - i,
        {
            let found = match id {
                Identifier::Numeric(sid) => self.streams[i].id == *sid,
                Identifier::Named(_) => {
                    match &query {
                        Some(q) => crate::wire::slice_eq_bytes(
                            self.streams[i].name.as_slice(),
                            q.as_slice(),
                        ),
                        None => false,
                    }
                },
            };
            if found {
                return Some(i);
            }
            i = i + 1;
        }
        None
    }

    /// Creates a stream; a taken id or name is rejected with
    /// `StreamAlreadyExists`, a name failing the resource-name rule with
    /// `ResourceNameInvalid`.
    pub fn create_stream(&mut self, stream_id: u32, name: &str, created_at: u64) -> (r: Result<
        (),
        IggyError,
    >)
        requires
            old(self).wf(),
        ensures
            final(self).wf(),
            final(self).permissioner == old(self).permissioner,
            final(self).auth_enabled == old(self).auth_enabled,
            final(self).segment_size_limit == old(self).segment_size_limit,
            final(self).users@ == old(self).users@,
            final(self).clients@ == old(self).clients@,
            final(self).auth_enabled == old(self).auth_enabled,
            r is Ok <==> (name_matches(name@) && 1 <= name.spec_bytes().len() <= 255 && !(
            exists|i: int| 0 <= i < old(self).streams@.len() && ((#[trigger] old(
                self,
            ).streams@[i]).id == stream_id || old(self).streams@[i].name@
                == crate::text::stored_name(name@)))),
            match r {
                Ok(()) => {
                    &&& name_matches(name@)
                    &&& 1 <= name.spec_bytes().len() <= 255
                    &&& final(self).streams@.len() == old(self).streams@.len() + 1
                    &&& forall|i: int| 0 <= i < old(self).streams@.len()
                        ==> final(self).streams@[i] == old(self).streams@[i]
                    &&& final(self).streams@.last().id == stream_id
                    &&& final(self).streams@.last().name@ == crate::text::stored_name(name@)
                    &&& final(self).streams@.last().created_at == created_at
                    &&& final(self).streams@.last().topics@ =~= Seq::<Topic>::empty()
                },
                Err(e) => {
                    &&& final(self).streams@ == old(self).streams@
                    &&& (e == IggyError::ResourceNameInvalid || e
                        == IggyError::StreamAlreadyExists)
                    &&& (e == IggyError::ResourceNameInvalid <==> (!name_matches(name@) || !(1
                        <= name.spec_bytes().len() <= 255)))
                    &&& (e == IggyError::StreamAlreadyExists <==> (name_matches(name@) && 1
                        <= name.spec_bytes().len() <= 255 && exists|i: int| 0 <= i < old(
                        self,
                    ).streams@.len() && ((#[trigger] old(self).streams@[i]).id == stream_id
                        || old(self).streams@[i].name@ == crate::text::stored_name(name@))))
                },
            },
    {
        if !crate::text::is_resource_name_valid(name) {
            return Err(IggyError::ResourceNameInvalid);
        }
        let name_bytes = name.as_bytes();
        if name_bytes.len() < 1 || name_bytes.len() > 255 {
            return Err(IggyError::ResourceNameInvalid);
        }
        let stored = crate::text::normalize_str_name(name);
        let n = self.streams.len();
        let mut i: usize = 0;
        while i < n
            invariant
                i <= n,
                n == self.streams@.len(),
                self == old(self),
                self.wf(),
                name_matches(name@),
                1 <= name.spec_bytes().len() <= 255,
                stored@ == crate::text::stored_name(name@),
                forall|j: int| 0 <= j < i ==> (#[trigger] self.streams@[j]).id != stream_id,
                forall|j: int| 0 <= j < i ==> (#[trigger] self.streams@[j]).name@
                    != crate::text::stored_name(name@),
            decreases n - i,
        {
            if self.streams[i].id == stream_id {
                return Err(IggyError::StreamAlreadyExists);
            }
            if crate::wire::slice_eq_bytes(self.streams[i].name.as_slice(), stored.as_slice()) {
                return Err(IggyError::StreamAlreadyExists);
            }
            i = i + 1;
        }
        let stream = Stream::new(stream_id, stored, created_at);
        self.streams.push(stream);
        Ok(())
    }

    /// Deletes the stream an identifier names, recursively dropping its
    /// topics and partitions; returns the deleted stream's numeric id.
    pub fn delete_stream(&mut self, id: &Identifier) -> (r: Result<u32, IggyError>)
        requires
            old(self).wf(),
        ensures
            final(self).wf(),
            final(self).permissioner == old(self).permissioner,
            final(self).auth_enabled == old(self).auth_enabled,
            final(self).segment_size_limit == old(self).segment_size_limit,
            final(self).users@ == old(self).users@,
            final(self).clients@ == old(self).clients@,
            r is Err <==> !some_stream(old(self).streams@, id.model()),
            match r {
                Ok(sid) => {
                    &&& final(self).streams@.len() == old(self).streams@.len() - 1
                    &&& exists|i: int|
                        #![trigger old(self).streams@[i]]
                        0 <= i < old(self).streams@.len() && stream_matches(
                            old(self).streams@[i],
                            id.model(),
                        ) && old(self).streams@[i].id == sid && final(self).streams@ == old(
                            self,
                        ).streams@.remove(i)
                },
                Err(e) => {
                    &&& e == IggyError::StreamNotFound
                    &&& final(self).streams@ == old(self).streams@
                    &&& stream_pos(old(self).streams@, id.model()) is None
                },
            },
    {
        match self.find_stream(id) {
            None => Err(IggyError::StreamNotFound),
            Some(idx) => {
                let sid = self.streams[idx].id;
                let ghost before = self.streams@;
                self.streams.remove(idx);
                proof {
                    assert(self.streams@ =~= before.remove(idx as int));
                    assert forall|i: int, j: int| 0 <= i < j < self.streams@.len() implies (
                    #[trigger] self.streams@[i]).id != (#[trigger] self.streams@[j]).id by {}
                }
                Ok(sid)
            },
        }
    }

    /// The position of a topic inside a found stream, if any.
    fn find_topic_in(&self, stream_idx: usize, topic: &Identifier) -> (r: Option<usize>)
        requires
            stream_idx < self.streams@.len(),
        ensures
            match r {
                Some(i) => i < self.streams@[stream_idx as int].topics@.len() && topic_matches(
                    self.streams@[stream_idx as int].topics@[i as int],
                    topic.model(),
                ),
                None => forall|i: int| 0 <= i < self.streams@[stream_idx as int].topics@.len()
                    ==> !topic_matches(
                    #[trigger] self.streams@[stream_idx as int].topics@[i],
                    topic.model(),
                ),
            },
    {
        let query: Option<Vec<u8>> = match topic {
            Identifier::Numeric(_) => None,
            Identifier::Named(name) => {
                match crate::text::normalize_name_bytes(name.as_slice()) {
                    None => {
                        return None;
                    },
                    Some(q) => Some(q),
                }
            },
        };
        let stream = &self.streams[stream_idx];
        let n = stream.topics.len();
        let mut i: usize = 0;
        while i < n
            invariant
                i <= n,
                stream_idx < self.streams@.len(),
                stream == &self.streams[stream_idx as int],
                n == stream.topics@.len(),
                match topic.model() {
                    IdModel::Num { .. } => query is None,
                    IdModel::Name { bytes } => query matches Some(q) && (vstd::utf8::valid_utf8(
                        bytes,
                    ) && q@ == crate::text::normal_name(bytes)),
                },
                forall|j: int| 0 <= j < i ==> !topic_matches(
                    #[trigger] stream.topics@[j],
                    topic.model(),
                ),
            decreases n - i,
        {
            let found = match topic {
                Identifier::Numeric(tid) => stream.topics[i].id == *tid,
                Identifier::Named(_) => {
                    match &query {
                        Some(q) => crate::wire::slice_eq_bytes(
                            stream.topics[i].name.as_slice(),
                            q.as_slice(),
                        ),
                        None => false,
                    }
                },
            };
            if found {
                return Some(i);
            }
            i = i + 1;
        }
        None
    }

    /// Locates the stream and topic two identifiers name.  On success the
    /// returned pair is the only matching one; the errors are exact:
    /// `StreamNotFound` iff no stream matches, `TopicNotFound` iff the
    /// stream exists but holds no matching topic.
    pub(crate) fn locate(&self, stream: &Identifier, topic: &Identifier) -> (r: Result<
        (usize, usize),
        IggyError,
    >)
        requires
            self.wf(),
        ensures
            match r {
                Ok((s, t)) => {
                    &&& s < self.streams@.len()
                    &&& stream_matches(self.streams@[s as int], stream.model())
                    &&& t < self.streams@[s as int].topics@.len()
                    &&& topic_matches(self.streams@[s as int].topics@[t as int], topic.model())
                    &&& forall|s2: int, t2: int|
                        #![trigger self.streams@[s2].topics@[t2]]
                        0 <= s2 < self.streams@.len() && stream_matches(
                            self.streams@[s2],
                            stream.model(),
                        ) && 0 <= t2 < self.streams@[s2].topics@.len() && topic_matches(
                            self.streams@[s2].topics@[t2],
                            topic.model(),
                        ) ==> s2 == s && t2 == t
                },
                Err(e) => {
                    &&& (e == IggyError::StreamNotFound || e == IggyError::TopicNotFound)
                    &&& (e == IggyError::StreamNotFound <==> !some_stream(
                        self.streams@,
                        stream.model(),
                    ))
                    &&& (e == IggyError::TopicNotFound <==> (some_stream(
                        self.streams@,
                        stream.model(),
                    ) && !some_topic(self.streams@, stream.model(), topic.model())))
                },
            },
    {
        let idx = match self.find_stream(stream) {
            None => {
                proof {
                    assert(!some_stream(self.streams@, stream.model())) by {
                        if some_stream(self.streams@, stream.model()) {
                            let w = choose|i: int| 0 <= i < self.streams@.len()
                                && stream_matches(#[trigger] self.streams@[i], stream.model());
                            assert(stream_pos(self.streams@, stream.model()) is Some);
                        }
                    }
                }
                return Err(IggyError::StreamNotFound);
            },
            Some(i) => i,
        };
        proof {
            assert(some_stream(self.streams@, stream.model()));
        }
        let tidx = match self.find_topic_in(idx, topic) {
            None => {
                proof {
                    assert(!some_topic(self.streams@, stream.model(), topic.model())) by {
                        if some_topic(self.streams@, stream.model(), topic.model()) {
                            let (s2, t2) = choose|s2: int, t2: int|
                                #![trigger self.streams@[s2].topics@[t2]]
                                0 <= s2 < self.streams@.len() && stream_matches(
                                    self.streams@[s2],
                                    stream.model(),
                                ) && 0 <= t2 < self.streams@[s2].topics@.len() && topic_matches(
                                    self.streams@[s2].topics@[t2],
                                    topic.model(),
                                );
                            lemma_stream_match_unique(*self, stream.model(), s2, idx as int);
                        }
                    }
                }
                return Err(IggyError::TopicNotFound);
            },
            Some(i) => i,
        };
        proof {
            assert forall|s2: int, t2: int|
                #![trigger self.streams@[s2].topics@[t2]]
                0 <= s2 < self.streams@.len() && stream_matches(self.streams@[s2], stream.model())
                    && 0 <= t2 < self.streams@[s2].topics@.len() && topic_matches(
                    self.streams@[s2].topics@[t2],
                    topic.model(),
                ) implies s2 == idx as int && t2 == tidx as int by {
                lemma_stream_match_unique(*self, stream.model(), s2, idx as int);
                lemma_topic_match_unique(self.streams@[idx as int], topic.model(), t2, tidx as int);
            }
        }
        Ok((idx, tidx))
    }

    /// Creates a topic in the stream an identifier names.
    pub fn create_topic(
        &mut self,
        stream: &Identifier,
        topic_id: u32,
        name: &str,
        partitions_count: u32,
        message_expiry: Option<u64>,
    ) -> (r: Result<(), IggyError>)
        requires
            old(self).wf(),
        ensures
            final(self).wf(),
            final(self).users@ == old(self).users@,
            final(self).clients@ == old(self).clients@,
            final(self).permissioner == old(self).permissioner,
            final(self).auth_enabled == old(self).auth_enabled,
            final(self).segment_size_limit == old(self).segment_size_limit,
            final(self).streams@.len() == old(self).streams@.len(),
            match r {
                Ok(()) => {
                    &&& name_matches(name@)
                    &&& 1 <= name.spec_bytes().len() <= 255
                    &&& (forall|s2: int, i: int|
                        #![trigger old(self).streams@[s2].topics@[i]]
                        0 <= s2 < old(self).streams@.len() && stream_matches(
                            old(self).streams@[s2],
                            stream.model(),
                        ) && 0 <= i < old(self).streams@[s2].topics@.len() ==> !((#[trigger] old(
                            self,
                        ).streams@[s2].topics@[i]).id == topic_id || old(
                            self,
                        ).streams@[s2].topics@[i].name@ == crate::text::stored_name(name@)))
                    &&& exists|s: int|
                        {
                            &&& 0 <= s < old(self).streams@.len()
                            &&& stream_matches(#[trigger] old(self).streams@[s], stream.model())
                            &&& final(self).streams@[s].topics@.len() == old(
                                self,
                            ).streams@[s].topics@.len() + 1
                            &&& final(self).streams@[s].topics@.last().id == topic_id
                            &&& final(self).streams@[s].topics@.last().name@
                                == crate::text::stored_name(name@)
                            &&& final(self).streams@[s].topics@.last().partitions@.len()
                                == partitions_count
                            &&& forall|h: int| 0 <= h < old(self).streams@.len() && h != s
                                ==> final(self).streams@[h] == old(self).streams@[h]
                        }
                },
                Err(e) => {
                    &&& final(self).streams@ == old(self).streams@
                    &&& (e == IggyError::ResourceNameInvalid || e == IggyError::StreamNotFound
                        || e == IggyError::TopicAlreadyExists)
                    &&& (e == IggyError::ResourceNameInvalid <==> (!name_matches(name@) || !(1
                        <= name.spec_bytes().len() <= 255)))
                    &&& (e == IggyError::StreamNotFound <==> (name_matches(name@) && 1
                        <= name.spec_bytes().len() <= 255 && !some_stream(
                        old(self).streams@,
                        stream.model(),
                    )))
                    &&& (e == IggyError::TopicAlreadyExists <==> (name_matches(name@) && 1
                        <= name.spec_bytes().len() <= 255 && exists|s: int, i: int|
                        #![trigger old(self).streams@[s].topics@[i]]
                        0 <= s < old(self).streams@.len() && stream_matches(
                            old(self).streams@[s],
                            stream.model(),
                        ) && 0 <= i < old(self).streams@[s].topics@.len() && ((#[trigger] old(
                            self,
                        ).streams@[s].topics@[i]).id == topic_id || old(
                            self,
                        ).streams@[s].topics@[i].name@ == crate::text::stored_name(name@))))
                },
            },
    {
        if !crate::text::is_resource_name_valid(name) {
            return Err(IggyError::ResourceNameInvalid);
        }
        let name_bytes = name.as_bytes();
        if name_bytes.len() < 1 || name_bytes.len() > 255 {
            return Err(IggyError::ResourceNameInvalid);
        }
        let idx = match self.find_stream(stream) {
            None => {
                proof {
                    assert(!some_stream(self.streams@, stream.model())) by {
                        if some_stream(self.streams@, stream.model()) {
                            let w = choose|i: int| 0 <= i < self.streams@.len()
                                && stream_matches(#[trigger] self.streams@[i], stream.model());
                            assert(stream_pos(self.streams@, stream.model()) is Some);
                        }
                    }
                }
                return Err(IggyError::StreamNotFound);
            },
            Some(i) => i,
        };
        let stored = crate::text::normalize_str_name(name);
        if let Some(j) = self.streams[idx].find_topic_by_id(topic_id) {
            proof {
                assert(self.streams@[idx as int].topics@[j as int].id == topic_id);
            }
            return Err(IggyError::TopicAlreadyExists);
        }
        if let Some(j) = self.streams[idx].find_topic_by_name(stored.as_slice()) {
            proof {
                assert(self.streams@[idx as int].topics@[j as int].name@
                    == crate::text::stored_name(name@));
            }
            return Err(IggyError::TopicAlreadyExists);
        }
        proof {
            assert forall|s: int, i: int|
                #![trigger self.streams@[s].topics@[i]]
                0 <= s < self.streams@.len() && stream_matches(self.streams@[s], stream.model())
                    && 0 <= i < self.streams@[s].topics@.len() implies !(self.streams@[s].topics@[
                i
            ].id == topic_id || self.streams@[s].topics@[i].name@ == crate::text::stored_name(
                name@,
            )) by {
                lemma_stream_match_unique(*self, stream.model(), s, idx as int);
            }
        }
        let ghost before = self.streams@;
        let limit = self.segment_size_limit;
        let mut s = self.streams.remove(idx);
        let created = s.create_topic(
            topic_id,
            stored,
            partitions_count,
            limit,
            message_expiry,
        );
        self.streams.insert(idx, s);
        proof {
            assert(self.streams@ =~= before.update(idx as int, self.streams@[idx as int]));
        }
        match created {
            Ok(()) => Ok(()),
            Err(e) => {
                proof {
                    assert(self.streams@ =~= before);
                }
                Err(e)
            },
        }
    }

    /// Deletes a topic from the stream an identifier names; returns the
    /// deleted topic's numeric id.
    pub fn delete_topic(&mut self, stream: &Identifier, topic: &Identifier) -> (r: Result<
        u32,
        IggyError,
    >)
        requires
            old(self).wf(),
        ensures
            final(self).wf(),
            final(self).users@ == old(self).users@,
            final(self).clients@ == old(self).clients@,
            final(self).permissioner == old(self).permissioner,
            final(self).auth_enabled == old(self).auth_enabled,
            final(self).segment_size_limit == old(self).segment_size_limit,
            final(self).streams@.len() == old(self).streams@.len(),
            r matches Err(e) ==> (e == IggyError::StreamNotFound || e == IggyError::TopicNotFound),
            (r matches Err(e) && e == IggyError::StreamNotFound) <==> !some_stream(
                old(self).streams@,
                stream.model(),
            ),
            (r matches Err(e) && e == IggyError::TopicNotFound) <==> (some_stream(
                old(self).streams@,
                stream.model(),
            ) && !some_topic(old(self).streams@, stream.model(), topic.model())),
            match r {
                Ok(tid) => exists|s: int, t: int|
                    #![trigger old(self).streams@[s].topics@[t]]
                    {
                        &&& 0 <= s < old(self).streams@.len()
                        &&& stream_matches(old(self).streams@[s], stream.model())
                        &&& 0 <= t < old(self).streams@[s].topics@.len()
                        &&& topic_matches(old(self).streams@[s].topics@[t], topic.model())
                        &&& old(self).streams@[s].topics@[t].id == tid
                        &&& final(self).streams@[s].topics@ == old(
                            self,
                        ).streams@[s].topics@.remove(t)
                        &&& final(self).streams@[s].id == old(self).streams@[s].id
                        &&& final(self).streams@[s].name@ == old(self).streams@[s].name@
                        &&& forall|h: int| 0 <= h < old(self).streams@.len() && h != s
                            ==> final(self).streams@[h] == old(self).streams@[h]
                    },
                Err(e) => final(self).streams@ == old(self).streams@,
            },
    {
        let (idx, tidx) = match self.locate(stream, topic) {
            Err(e) => {
                return Err(e);
            },
            Ok(p) => p,
        };
        let tid = self.streams[idx].topics[tidx].id;
        let ghost before = self.streams@;
        let mut s = self.streams.remove(idx);
        let ghost before_topics = s.topics@;
        let deleted = s.delete_topic(tid);
        self.streams.insert(idx, s);
        proof {
            assert(self.streams@ =~= before.update(idx as int, self.streams@[idx as int]));
            assert(deleted is Ok);
            let w = choose|i: int|
                #![trigger before_topics[i]]
                0 <= i < before_topics.len() && before_topics[i].id == tid
                    && self.streams@[idx as int].topics@ == before_topics.remove(i);
            lemma_topic_match_unique_by_id(before[idx as int], tid, w, tidx as int);
        }
        Ok(tid)
    }

    /// Appends a batch to the topic the identifiers name; returns the
    /// partition the batch landed in, which is exactly the one the
    /// partitioning resolves to.  Each error comes exactly on its
    /// condition, so success is owed whenever the ids resolve, the batch
    /// routes, and no id or offset space runs out.
    pub fn append_messages(
        &mut self,
        stream: &Identifier,
        topic: &Identifier,
        partitioning: &Partitioning,
        batch: Vec<NewMessage>,
        now: u64,
        id_seed: u128,
    ) -> (r: Result<u32, IggyError>)
        requires
            old(self).wf(),
        ensures
            final(self).wf(),
            final(self).users@ == old(self).users@,
            final(self).clients@ == old(self).clients@,
            final(self).permissioner == old(self).permissioner,
            final(self).auth_enabled == old(self).auth_enabled,
            final(self).segment_size_limit == old(self).segment_size_limit,
            final(self).streams@.len() == old(self).streams@.len(),
            r is Err ==> final(self).streams@ == old(self).streams@,
            r == Err::<u32, IggyError>(IggyError::StreamNotFound) <==> !some_stream(
                old(self).streams@,
                stream.model(),
            ),
            r == Err::<u32, IggyError>(IggyError::TopicNotFound) <==> (some_stream(
                old(self).streams@,
                stream.model(),
            ) && !some_topic(old(self).streams@, stream.model(), topic.model())),
            r == Err::<u32, IggyError>(IggyError::PartitionNotFound) <==> exists|s: int, t: int|
                #![trigger old(self).streams@[s].topics@[t]]
                0 <= s < old(self).streams@.len() && stream_matches(
                    old(self).streams@[s],
                    stream.model(),
                ) && 0 <= t < old(self).streams@[s].topics@.len() && topic_matches(
                    old(self).streams@[s].topics@[t],
                    topic.model(),
                ) && old(self).streams@[s].topics@[t].append_unroutable(*partitioning),
            r == Err::<u32, IggyError>(IggyError::OffsetOutOfRange) <==> exists|s: int, t: int|
                #![trigger old(self).streams@[s].topics@[t]]
                0 <= s < old(self).streams@.len() && stream_matches(
                    old(self).streams@[s],
                    stream.model(),
                ) && 0 <= t < old(self).streams@[s].topics@.len() && topic_matches(
                    old(self).streams@[s].topics@[t],
                    topic.model(),
                ) && !old(self).streams@[s].topics@[t].append_unroutable(*partitioning) && old(
                    self,
                ).streams@[s].topics@[t].append_overflows(
                    *partitioning,
                    batch@.len() as int,
                    id_seed,
                ),
            match r {
                Ok(pid) => exists|s: int, t: int|
                    #![trigger old(self).streams@[s].topics@[t]]
                    ({
                        let told = old(self).streams@[s].topics@[t];
                        let tnew = final(self).streams@[s].topics@[t];
                        let pold = told.partitions@;
                        let pnew = tnew.partitions@;
                        &&& 0 <= s < old(self).streams@.len()
                        &&& stream_matches(old(self).streams@[s], stream.model())
                        &&& 0 <= t < old(self).streams@[s].topics@.len()
                        &&& topic_matches(told, topic.model())
                        &&& 1 <= pid <= pold.len()
                        &&& pid == told.resolved_pid(*partitioning)
                        &&& (partitioning is Balanced ==> tnew.round_robin_cursor == (
                        if told.round_robin_cursor == u32::MAX {
                            0u32
                        } else {
                            (told.round_robin_cursor + 1) as u32
                        }))
                        &&& (!(partitioning is Balanced) ==> tnew.round_robin_cursor
                            == told.round_robin_cursor)
                        &&& tnew.id == told.id
                        &&& tnew.name@ == told.name@
                        &&& tnew.consumer_groups@ == told.consumer_groups@
                        &&& pnew.len() == pold.len()
                        &&& pnew[pid - 1].msgs() =~= pold[pid - 1].msgs()
                            + crate::partition::assigned_batch(
                            batch@.map_values(|m: NewMessage| m@),
                            pold[pid - 1].current_offset,
                            now,
                            id_seed,
                        )
                        &&& pnew[pid - 1].consumer_offsets@ == pold[pid - 1].consumer_offsets@
                        &&& forall|p: int| 0 <= p < pnew.len() && p != pid - 1
                            ==> pnew[p] == pold[p]
                        &&& forall|u: int| 0 <= u < old(self).streams@[s].topics@.len() && u != t
                            ==> final(self).streams@[s].topics@[u] == old(
                            self,
                        ).streams@[s].topics@[u]
                        &&& final(self).streams@[s].id == old(self).streams@[s].id
                        &&& final(self).streams@[s].name@ == old(self).streams@[s].name@
                        &&& forall|h: int| 0 <= h < old(self).streams@.len() && h != s
                            ==> final(self).streams@[h] == old(self).streams@[h]
                    }),
                Err(e) => e == IggyError::StreamNotFound || e == IggyError::TopicNotFound || e
                    == IggyError::PartitionNotFound || e == IggyError::OffsetOutOfRange,
            },
    {
        let (idx, tidx) = match self.locate(stream, topic) {
            Err(e) => {
                return Err(e);
            },
            Ok(p) => p,
        };
        let count = self.streams[idx].topics[tidx].partitions.len();
        let unroutable = count == 0 || (match partitioning {
            Partitioning::Explicit(p) => *p < 1 || *p as usize > count,
            _ => false,
        });
        if unroutable {
            return Err(IggyError::PartitionNotFound);
        }
        let pid: u32 = match partitioning {
            Partitioning::Balanced => self.streams[idx].topics[tidx].round_robin_cursor % (count
                as u32) + 1,
            Partitioning::KeyHash(key) => crate::checksum::hash32(key.as_slice()) % (count as u32)
                + 1,
            Partitioning::Explicit(p) => *p,
        };
        if id_seed > u128::MAX - batch.len() as u128 {
            return Err(IggyError::OffsetOutOfRange);
        }
        if self.streams[idx].topics[tidx].partitions[(pid - 1) as usize].current_offset > u64::MAX
            - batch.len() as u64 {
            return Err(IggyError::OffsetOutOfRange);
        }
        let ghost before = self.streams@;
        let mut s = self.streams.remove(idx);
        let ghost before_topics = s.topics@;
        let mut t = s.topics.remove(tidx);
        let appended = t.append_messages(partitioning, batch, now, id_seed);
        s.topics.insert(tidx, t);
        proof {
            assert(s.topics@ =~= before_topics.update(tidx as int, s.topics@[tidx as int]));
        }
        self.streams.insert(idx, s);
        proof {
            assert(self.streams@ =~= before.update(idx as int, self.streams@[idx as int]));
            assert(appended is Ok);
        }
        match appended {
            Ok(p) => Ok(p),
            Err(_) => Err(IggyError::PartitionNotFound),
        }
    }

    /// Polls one partition of the topic the identifiers name.
    pub fn poll_messages(
        &mut self,
        stream: &Identifier,
        topic: &Identifier,
        partition_id: u32,
        key: ConsumerKey,
        strategy: PollingStrategy,
        count: u32,
        auto_commit: bool,
    ) -> (r: Result<Vec<Message>, IggyError>)
        requires
            old(self).wf(),
        ensures
            final(self).wf(),
            final(self).users@ == old(self).users@,
            final(self).clients@ == old(self).clients@,
            final(self).permissioner == old(self).permissioner,
            final(self).auth_enabled == old(self).auth_enabled,
            final(self).segment_size_limit == old(self).segment_size_limit,
            final(self).streams@.len() == old(self).streams@.len(),
            r is Err ==> final(self).streams@ == old(self).streams@,
            r matches Err(e) ==> (e == IggyError::StreamNotFound || e == IggyError::TopicNotFound
                || e == IggyError::PartitionNotFound || e == IggyError::OffsetOutOfRange),
            (r matches Err(e) && e == IggyError::StreamNotFound) <==> !some_stream(
                old(self).streams@,
                stream.model(),
            ),
            (r matches Err(e) && e == IggyError::TopicNotFound) <==> (some_stream(
                old(self).streams@,
                stream.model(),
            ) && !some_topic(old(self).streams@, stream.model(), topic.model())),
            (r matches Err(e) && e == IggyError::PartitionNotFound) <==> exists|s: int, t: int|
                #![trigger old(self).streams@[s].topics@[t]]
                0 <= s < old(self).streams@.len() && stream_matches(
                    old(self).streams@[s],
                    stream.model(),
                ) && 0 <= t < old(self).streams@[s].topics@.len() && topic_matches(
                    old(self).streams@[s].topics@[t],
                    topic.model(),
                ) && (partition_id < 1 || partition_id
                    > old(self).streams@[s].topics@[t].partitions@.len()),
            (r matches Err(e) && e == IggyError::OffsetOutOfRange) <==> exists|s: int, t: int|
                #![trigger old(self).streams@[s].topics@[t]]
                0 <= s < old(self).streams@.len() && stream_matches(
                    old(self).streams@[s],
                    stream.model(),
                ) && 0 <= t < old(self).streams@[s].topics@.len() && topic_matches(
                    old(self).streams@[s].topics@[t],
                    topic.model(),
                ) && old(self).streams@[s].topics@[t].poll_out_of_range(partition_id, strategy),
            match r {
                Ok(out) => exists|s: int, t: int|
                    #![trigger old(self).streams@[s].topics@[t]]
                    ({
                        let told = old(self).streams@[s].topics@[t];
                        let tnew = final(self).streams@[s].topics@[t];
                        let pold = told.partitions@;
                        let pnew = tnew.partitions@;
                        &&& 0 <= s < old(self).streams@.len()
                        &&& stream_matches(old(self).streams@[s], stream.model())
                        &&& 0 <= t < old(self).streams@[s].topics@.len()
                        &&& topic_matches(told, topic.model())
                        &&& 1 <= partition_id <= pold.len()
                        &&& ({
                            let p = pold[partition_id - 1];
                            let pn = pnew[partition_id - 1];
                            &&& p.start_of(key, strategy, count) matches Some(st)
                            &&& out@.map_values(|m: Message| m@) == p.poll_window(
                                p.start_of(key, strategy, count).unwrap(),
                                count as int,
                            )
                            &&& pn.msgs() == p.msgs()
                            &&& (if auto_commit && out@.len() > 0 {
                                pn.stored_offset(key) == Some(out@.last()@.offset) && forall|
                                    other: ConsumerKey,
                                |
                                    other != key ==> #[trigger] pn.stored_offset(other)
                                        == p.stored_offset(other)
                            } else {
                                pn.consumer_offsets@ == p.consumer_offsets@
                            })
                        })
                        &&& pnew.len() == pold.len()
                        &&& forall|p2: int| 0 <= p2 < pnew.len() && p2 != partition_id - 1
                            ==> pnew[p2] == pold[p2]
                        &&& tnew.id == told.id
                        &&& tnew.name@ == told.name@
                        &&& tnew.consumer_groups@ == told.consumer_groups@
                        &&& forall|u: int| 0 <= u < old(self).streams@[s].topics@.len() && u != t
                            ==> final(self).streams@[s].topics@[u] == old(
                            self,
                        ).streams@[s].topics@[u]
                        &&& final(self).streams@[s].id == old(self).streams@[s].id
                        &&& final(self).streams@[s].name@ == old(self).streams@[s].name@
                        &&& forall|h: int| 0 <= h < old(self).streams@.len() && h != s
                            ==> final(self).streams@[h] == old(self).streams@[h]
                    }),
                Err(e) => true,
            },
    {
        let (idx, tidx) = match self.locate(stream, topic) {
            Err(e) => {
                return Err(e);
            },
            Ok(p) => p,
        };
        if partition_id < 1 || partition_id as usize > self.streams[idx].topics[tidx].partitions.len() {
            return Err(IggyError::PartitionNotFound);
        }
        if let PollingStrategy::Offset(o) = strategy {
            if o > self.streams[idx].topics[tidx].partitions[(partition_id - 1) as usize].messages.len() as u64 {
                return Err(IggyError::OffsetOutOfRange);
            }
        }
        let ghost before = self.streams@;
        let mut s = self.streams.remove(idx);
        let ghost before_topics = s.topics@;
        let mut t = s.topics.remove(tidx);
        let polled = t.poll_messages(partition_id, key, strategy, count, auto_commit);
        s.topics.insert(tidx, t);
        proof {
            assert(s.topics@ =~= before_topics.update(tidx as int, s.topics@[tidx as int]));
        }
        self.streams.insert(idx, s);
        proof {
            assert(self.streams@ =~= before.update(idx as int, self.streams@[idx as int]));
            assert(polled is Ok);
        }
        match polled {
            Ok(out) => Ok(out),
            Err(_) => Err(IggyError::PartitionNotFound),
        }
    }

    /// Stores a consumer offset in the topic the identifiers name.
    pub fn store_consumer_offset(
        &mut self,
        stream: &Identifier,
        topic: &Identifier,
        partition_id: u32,
        key: ConsumerKey,
        offset: u64,
    ) -> (r: Result<(), IggyError>)
        requires
            old(self).wf(),
        ensures
            final(self).wf(),
            final(self).users@ == old(self).users@,
            final(self).clients@ == old(self).clients@,
            final(self).permissioner == old(self).permissioner,
            final(self).auth_enabled == old(self).auth_enabled,
            final(self).segment_size_limit == old(self).segment_size_limit,
            final(self).streams@.len() == old(self).streams@.len(),
            r is Err ==> final(self).streams@ == old(self).streams@,
            r matches Err(e) ==> (e == IggyError::StreamNotFound || e == IggyError::TopicNotFound
                || e == IggyError::PartitionNotFound),
            (r matches Err(e) && e == IggyError::StreamNotFound) <==> !some_stream(
                old(self).streams@,
                stream.model(),
            ),
            (r matches Err(e) && e == IggyError::TopicNotFound) <==> (some_stream(
                old(self).streams@,
                stream.model(),
            ) && !some_topic(old(self).streams@, stream.model(), topic.model())),
            (r matches Err(e) && e == IggyError::PartitionNotFound) <==> exists|s: int, t: int|
                #![trigger old(self).streams@[s].topics@[t]]
                0 <= s < old(self).streams@.len() && stream_matches(
                    old(self).streams@[s],
                    stream.model(),
                ) && 0 <= t < old(self).streams@[s].topics@.len() && topic_matches(
                    old(self).streams@[s].topics@[t],
                    topic.model(),
                ) && (partition_id < 1 || partition_id
                    > old(self).streams@[s].topics@[t].partitions@.len()),
            match r {
                Ok(()) => exists|s: int, t: int|
                    #![trigger old(self).streams@[s].topics@[t]]
                    ({
                        let told = old(self).streams@[s].topics@[t];
                        let tnew = final(self).streams@[s].topics@[t];
                        let pold = told.partitions@;
                        let pnew = tnew.partitions@;
                        &&& 0 <= s < old(self).streams@.len()
                        &&& stream_matches(old(self).streams@[s], stream.model())
                        &&& 0 <= t < old(self).streams@[s].topics@.len()
                        &&& topic_matches(told, topic.model())
                        &&& 1 <= partition_id <= pold.len()
                        &&& pnew[partition_id - 1].stored_offset(key) == Some(offset)
                        &&& (forall|other: ConsumerKey| other != key ==> #[trigger] pnew[
                            partition_id - 1
                        ].stored_offset(other) == pold[partition_id - 1].stored_offset(other))
                        &&& pnew[partition_id - 1].msgs() == pold[partition_id - 1].msgs()
                        &&& pnew.len() == pold.len()
                        &&& forall|p2: int| 0 <= p2 < pnew.len() && p2 != partition_id - 1
                            ==> pnew[p2] == pold[p2]
                        &&& tnew.id == told.id
                        &&& tnew.name@ == told.name@
                        &&& tnew.consumer_groups@ == told.consumer_groups@
                        &&& forall|u: int| 0 <= u < old(self).streams@[s].topics@.len() && u != t
                            ==> final(self).streams@[s].topics@[u] == old(
                            self,
                        ).streams@[s].topics@[u]
                        &&& final(self).streams@[s].id == old(self).streams@[s].id
                        &&& final(self).streams@[s].name@ == old(self).streams@[s].name@
                        &&& forall|h: int| 0 <= h < old(self).streams@.len() && h != s
                            ==> final(self).streams@[h] == old(self).streams@[h]
                    }),
                Err(e) => true,
            },
    {
        let (idx, tidx) = match self.locate(stream, topic) {
            Err(e) => {
                return Err(e);
            },
            Ok(p) => p,
        };
        if partition_id < 1 || partition_id as usize > self.streams[idx].topics[tidx].partitions.len() {
            return Err(IggyError::PartitionNotFound);
        }
        let ghost before = self.streams@;
        let mut s = self.streams.remove(idx);
        let ghost before_topics = s.topics@;
        let mut t = s.topics.remove(tidx);
        let stored = t.store_consumer_offset(partition_id, key, offset);
        s.topics.insert(tidx, t);
        proof {
            assert(s.topics@ =~= before_topics.update(tidx as int, s.topics@[tidx as int]));
        }
        self.streams.insert(idx, s);
        proof {
            assert(self.streams@ =~= before.update(idx as int, self.streams@[idx as int]));
            assert(stored is Ok);
        }
        match stored {
            Ok(()) => Ok(()),
            Err(_) => Err(IggyError::PartitionNotFound),
        }
    }

    /// Reads a stored consumer offset from the topic the identifiers
    /// name; an absent entry reads as zero.
    pub fn get_consumer_offset(
        &self,
        stream: &Identifier,
        topic: &Identifier,
        partition_id: u32,
        key: ConsumerKey,
    ) -> (r: Result<u64, IggyError>)
        requires
            self.wf(),
        ensures
            r matches Err(e) ==> (e == IggyError::StreamNotFound || e == IggyError::TopicNotFound
                || e == IggyError::PartitionNotFound),
            (r matches Err(e) && e == IggyError::StreamNotFound) <==> !some_stream(
                self.streams@,
                stream.model(),
            ),
            (r matches Err(e) && e == IggyError::TopicNotFound) <==> (some_stream(
                self.streams@,
                stream.model(),
            ) && !some_topic(self.streams@, stream.model(), topic.model())),
            (r matches Err(e) && e == IggyError::PartitionNotFound) <==> exists|s: int, t: int|
                #![trigger self.streams@[s].topics@[t]]
                0 <= s < self.streams@.len() && stream_matches(self.streams@[s], stream.model())
                    && 0 <= t < self.streams@[s].topics@.len() && topic_matches(
                    self.streams@[s].topics@[t],
                    topic.model(),
                ) && (partition_id < 1 || partition_id
                    > self.streams@[s].topics@[t].partitions@.len()),
            match r {
                Ok(offset) => exists|s: int, t: int|
                    #![trigger self.streams@[s].topics@[t]]
                    ({
                        let parts = self.streams@[s].topics@[t].partitions@;
                        &&& 0 <= s < self.streams@.len()
                        &&& stream_matches(self.streams@[s], stream.model())
                        &&& 0 <= t < self.streams@[s].topics@.len()
                        &&& topic_matches(self.streams@[s].topics@[t], topic.model())
                        &&& 1 <= partition_id <= parts.len()
                        &&& offset == (match parts[partition_id - 1].stored_offset(key) {
                            Some(v) => v,
                            None => 0u64,
                        })
                    }),
                Err(e) => true,
            },
    {
        let (idx, tidx) = match self.locate(stream, topic) {
            Err(e) => {
                return Err(e);
            },
            Ok(p) => p,
        };
        if partition_id < 1 || partition_id as usize > self.streams[idx].topics[tidx].partitions.len() {
            return Err(IggyError::PartitionNotFound);
        }
        self.streams[idx].topics[tidx].get_consumer_offset(partition_id, key)
    }

    /// Runs one consumer-group operation on the topic the identifiers
    /// name: create, delete, join or leave.
    pub fn consumer_group_op(
        &mut self,
        stream: &Identifier,
        topic: &Identifier,
        group_id: u32,
        client_id: u32,
        op: GroupOp,
    ) -> (r: Result<(), IggyError>)
        requires
            old(self).wf(),
        ensures
            final(self).wf(),
            final(self).users@ == old(self).users@,
            final(self).clients@ == old(self).clients@,
            final(self).permissioner == old(self).permissioner,
            final(self).auth_enabled == old(self).auth_enabled,
            final(self).segment_size_limit == old(self).segment_size_limit,
            final(self).streams@.len() == old(self).streams@.len(),
            r is Err ==> final(self).streams@ == old(self).streams@,
            r matches Err(e) ==> (e == IggyError::StreamNotFound || e == IggyError::TopicNotFound
                || e == IggyError::ConsumerGroupNotFound || e
                == IggyError::ConsumerGroupAlreadyExists),
            (r matches Err(e) && e == IggyError::StreamNotFound) <==> !some_stream(
                old(self).streams@,
                stream.model(),
            ),
            (r matches Err(e) && e == IggyError::TopicNotFound) <==> (some_stream(
                old(self).streams@,
                stream.model(),
            ) && !some_topic(old(self).streams@, stream.model(), topic.model())),
            (r matches Err(e) && e == IggyError::ConsumerGroupAlreadyExists) <==> (op
                == GroupOp::Create && exists|s: int, t: int|
                #![trigger old(self).streams@[s].topics@[t]]
                0 <= s < old(self).streams@.len() && stream_matches(
                    old(self).streams@[s],
                    stream.model(),
                ) && 0 <= t < old(self).streams@[s].topics@.len() && topic_matches(
                    old(self).streams@[s].topics@[t],
                    topic.model(),
                ) && (exists|g: int| 0 <= g < old(self).streams@[s].topics@[t].consumer_groups@.len()
                    && (#[trigger] old(self).streams@[s].topics@[t].consumer_groups@[g]).id
                    == group_id)),
            (r matches Err(e) && e == IggyError::ConsumerGroupNotFound) <==> (op != GroupOp::Create
                && exists|s: int, t: int|
                #![trigger old(self).streams@[s].topics@[t]]
                0 <= s < old(self).streams@.len() && stream_matches(
                    old(self).streams@[s],
                    stream.model(),
                ) && 0 <= t < old(self).streams@[s].topics@.len() && topic_matches(
                    old(self).streams@[s].topics@[t],
                    topic.model(),
                ) && (forall|g: int| 0 <= g < old(self).streams@[s].topics@[t].consumer_groups@.len()
                    ==> (#[trigger] old(self).streams@[s].topics@[t].consumer_groups@[g]).id
                    != group_id)),
            match r {
                Ok(()) => exists|s: int, t: int|
                    #![trigger old(self).streams@[s].topics@[t]]
                    ({
                        let told = old(self).streams@[s].topics@[t];
                        let tnew = final(self).streams@[s].topics@[t];
                        let gold = told.consumer_groups@;
                        let gnew = tnew.consumer_groups@;
                        &&& 0 <= s < old(self).streams@.len()
                        &&& stream_matches(old(self).streams@[s], stream.model())
                        &&& 0 <= t < old(self).streams@[s].topics@.len()
                        &&& topic_matches(told, topic.model())
                        &&& tnew.partitions@ == told.partitions@
                        &&& tnew.id == told.id
                        &&& tnew.name@ == told.name@
                        &&& (op == GroupOp::Create ==> gnew.len() == gold.len() + 1
                            && gnew.last().id == group_id && gnew.last().members@
                            =~= Seq::<u32>::empty() && (forall|g: int| 0 <= g < gold.len()
                            ==> gnew[g] == gold[g]))
                        &&& (op == GroupOp::Delete ==> forall|g: int| 0 <= g < gnew.len()
                            ==> (#[trigger] gnew[g]).id != group_id)
                        &&& ((op == GroupOp::Join || op == GroupOp::Leave) ==> gnew.len()
                            == gold.len() && exists|g: int|
                            #![trigger gold[g]]
                            {
                                &&& 0 <= g < gold.len()
                                &&& gold[g].id == group_id
                                &&& gnew[g].id == group_id
                                &&& gnew[g].partitions@ == gold[g].partitions@
                                &&& (forall|h: int| 0 <= h < gold.len() && h != g
                                    ==> gnew[h] == gold[h])
                                &&& forall|y: u32| gnew[g].members@.contains(y) <==> (
                                gold[g].members@.contains(y) && y != client_id || op
                                    == GroupOp::Join && (gold[g].members@.contains(y) || y
                                    == client_id))
                            })
                        &&& forall|u: int| 0 <= u < old(self).streams@[s].topics@.len() && u != t
                            ==> final(self).streams@[s].topics@[u] == old(
                            self,
                        ).streams@[s].topics@[u]
                        &&& final(self).streams@[s].id == old(self).streams@[s].id
                        &&& final(self).streams@[s].name@ == old(self).streams@[s].name@
                        &&& forall|h: int| 0 <= h < old(self).streams@.len() && h != s
                            ==> final(self).streams@[h] == old(self).streams@[h]
                    }),
                Err(e) => true,
            },
    {
        let (idx, tidx) = match self.locate(stream, topic) {
            Err(e) => {
                return Err(e);
            },
            Ok(p) => p,
        };
        let found = self.streams[idx].topics[tidx].find_group(group_id);
        match op {
            GroupOp::Create => {
                if found.is_some() {
                    return Err(IggyError::ConsumerGroupAlreadyExists);
                }
            },
            _ => {
                if found.is_none() {
                    return Err(IggyError::ConsumerGroupNotFound);
                }
            },
        }
        let ghost before = self.streams@;
        let mut s = self.streams.remove(idx);
        let ghost before_topics = s.topics@;
        let mut t = s.topics.remove(tidx);
        let done = match op {
            GroupOp::Create => t.create_consumer_group(group_id),
            GroupOp::Delete => t.delete_consumer_group(group_id),
            GroupOp::Join => t.join_consumer_group(group_id, client_id),
            GroupOp::Leave => t.leave_consumer_group(group_id, client_id),
        };
        s.topics.insert(tidx, t);
        proof {
            assert(s.topics@ =~= before_topics.update(tidx as int, s.topics@[tidx as int]));
        }
        self.streams.insert(idx, s);
        proof {
            assert(self.streams@ =~= before.update(idx as int, self.streams@[idx as int]));
            assert(done is Ok);
        }
        match done {
            Ok(()) => Ok(()),
            Err(_) => Err(IggyError::ConsumerGroupNotFound),
        }
    }

    /// The partitions currently assigned to a client in a group.
    pub fn group_assignment(
        &self,
        stream: &Identifier,
        topic: &Identifier,
        group_id: u32,
        client_id: u32,
    ) -> (r: Result<Vec<u32>, IggyError>)
        requires
            self.wf(),
        ensures
            r matches Err(e) ==> (e == IggyError::StreamNotFound || e == IggyError::TopicNotFound
                || e == IggyError::ConsumerGroupNotFound),
            (r matches Err(e) && e == IggyError::StreamNotFound) <==> !some_stream(
                self.streams@,
                stream.model(),
            ),
            (r matches Err(e) && e == IggyError::TopicNotFound) <==> (some_stream(
                self.streams@,
                stream.model(),
            ) && !some_topic(self.streams@, stream.model(), topic.model())),
            (r matches Err(e) && e == IggyError::ConsumerGroupNotFound) <==> exists|s: int, t: int|
                #![trigger self.streams@[s].topics@[t]]
                0 <= s < self.streams@.len() && stream_matches(self.streams@[s], stream.model())
                    && 0 <= t < self.streams@[s].topics@.len() && topic_matches(
                    self.streams@[s].topics@[t],
                    topic.model(),
                ) && (forall|g: int| 0 <= g < self.streams@[s].topics@[t].consumer_groups@.len()
                    ==> (#[trigger] self.streams@[s].topics@[t].consumer_groups@[g]).id
                    != group_id),
            match r {
                Ok(out) => exists|s: int, t: int, g: int|
                    #![auto]
                    {
                        &&& 0 <= s < self.streams@.len()
                        &&& stream_matches(self.streams@[s], stream.model())
                        &&& 0 <= t < self.streams@[s].topics@.len()
                        &&& topic_matches(self.streams@[s].topics@[t], topic.model())
                        &&& 0 <= g < self.streams@[s].topics@[t].consumer_groups@.len()
                        &&& self.streams@[s].topics@[t].consumer_groups@[g].id == group_id
                        &&& out@ == crate::consumer_group::assign_from(
                            self.streams@[s].topics@[t].consumer_groups@[g].partitions@,
                            self.streams@[s].topics@[t].consumer_groups@[g].members@,
                            client_id,
                            0,
                        )
                    },
                Err(e) => true,
            },
    {
        let (idx, tidx) = match self.locate(stream, topic) {
            Err(e) => {
                return Err(e);
            },
            Ok(p) => p,
        };
        self.streams[idx].topics[tidx].group_assignment(group_id, client_id)
    }

    /// The ids of all streams, in registry order.
    pub fn get_stream_ids(&self) -> (r: Vec<u32>)
        ensures
            r@.len() == self.streams@.len(),
            forall|i: int| 0 <= i < r@.len() ==> r@[i] == (#[trigger] self.streams@[i]).id,
    {
        let mut out: Vec<u32> = Vec::new();
        let n = self.streams.len();
        let mut i: usize = 0;
        while i < n
            invariant
                i <= n,
                n == self.streams@.len(),
                out@.len() == i,
                forall|j: int| 0 <= j < i ==> out@[j] == (#[trigger] self.streams@[j]).id,
            decreases n - i,
        {
            out.push(self.streams[i].id);
            i = i + 1;
        }
        out
    }

    /// Renames the stream an identifier names.  Succeeds exactly when the
    /// stream exists, the new name is legal, and no other stream holds
    /// it; on success only that stream's name changes.
    pub fn update_stream(&mut self, id: &Identifier, name: &str) -> (r: Result<(), IggyError>)
        requires
            old(self).wf(),
        ensures
            final(self).wf(),
            final(self).users@ == old(self).users@,
            final(self).clients@ == old(self).clients@,
            final(self).permissioner == old(self).permissioner,
            final(self).auth_enabled == old(self).auth_enabled,
            final(self).segment_size_limit == old(self).segment_size_limit,
            final(self).streams@.len() == old(self).streams@.len(),
            r is Err ==> final(self).streams@ == old(self).streams@,
            r matches Err(e) ==> (e == IggyError::ResourceNameInvalid || e
                == IggyError::StreamNotFound || e == IggyError::StreamAlreadyExists),
            (r matches Err(e) && e == IggyError::ResourceNameInvalid) <==> (!name_matches(name@)
                || !(1 <= name.spec_bytes().len() <= 255)),
            (r matches Err(e) && e == IggyError::StreamNotFound) <==> (name_matches(name@) && 1
                <= name.spec_bytes().len() <= 255 && !some_stream(
                old(self).streams@,
                id.model(),
            )),
            (r matches Err(e) && e == IggyError::StreamAlreadyExists) <==> (name_matches(name@)
                && 1 <= name.spec_bytes().len() <= 255 && exists|s: int, j: int|
                #![trigger old(self).streams@[s], old(self).streams@[j]]
                0 <= s < old(self).streams@.len() && stream_matches(
                    old(self).streams@[s],
                    id.model(),
                ) && 0 <= j < old(self).streams@.len() && j != s && old(self).streams@[j].name@
                    == crate::text::stored_name(name@)),
            match r {
                Ok(()) => exists|s: int|
                    #![trigger old(self).streams@[s]]
                    {
                        &&& 0 <= s < old(self).streams@.len()
                        &&& stream_matches(old(self).streams@[s], id.model())
                        &&& final(self).streams@[s].name@ == crate::text::stored_name(name@)
                        &&& final(self).streams@[s].id == old(self).streams@[s].id
                        &&& final(self).streams@[s].created_at == old(self).streams@[s].created_at
                        &&& final(self).streams@[s].topics@ == old(self).streams@[s].topics@
                        &&& forall|h: int| 0 <= h < old(self).streams@.len() && h != s
                            ==> final(self).streams@[h] == old(self).streams@[h]
                    },
                Err(e) => true,
            },
    {
        if !crate::text::is_resource_name_valid(name) {
            return Err(IggyError::ResourceNameInvalid);
        }
        let name_bytes = name.as_bytes();
        if name_bytes.len() < 1 || name_bytes.len() > 255 {
            return Err(IggyError::ResourceNameInvalid);
        }
        let idx = match self.find_stream(id) {
            None => {
                proof {
                    assert(!some_stream(self.streams@, id.model())) by {
                        if some_stream(self.streams@, id.model()) {
                            let w = choose|i: int| 0 <= i < self.streams@.len()
                                && stream_matches(#[trigger] self.streams@[i], id.model());
                            assert(stream_pos(self.streams@, id.model()) is Some);
                        }
                    }
                }
                return Err(IggyError::StreamNotFound);
            },
            Some(i) => i,
        };
        let stored = crate::text::normalize_str_name(name);
        let n = self.streams.len();
        let mut j: usize = 0;
        while j < n
            invariant
                j <= n,
                n == self.streams@.len(),
                self == old(self),
                self.wf(),
                idx < n,
                stream_matches(self.streams@[idx as int], id.model()),
                stored@ == crate::text::stored_name(name@),
                name_matches(name@),
                1 <= name.spec_bytes().len() <= 255,
                forall|k: int| 0 <= k < j && k != idx ==> (#[trigger] self.streams@[k]).name@
                    != crate::text::stored_name(name@),
            decreases n - j,
        {
            if j != idx && crate::wire::slice_eq_bytes(
                self.streams[j].name.as_slice(),
                stored.as_slice(),
            ) {
                proof {
                    assert(self.streams@[j as int].name@ == crate::text::stored_name(name@));
                }
                return Err(IggyError::StreamAlreadyExists);
            }
            j = j + 1;
        }
        proof {
            assert forall|s: int, j2: int|
                #![trigger self.streams@[s], self.streams@[j2]]
                0 <= s < self.streams@.len() && stream_matches(self.streams@[s], id.model()) && 0
                    <= j2 < self.streams@.len() && j2 != s implies self.streams@[j2].name@
                != crate::text::stored_name(name@) by {
                lemma_stream_match_unique(*self, id.model(), s, idx as int);
            }
        }
        let ghost before = self.streams@;
        let mut s = self.streams.remove(idx);
        s.name = stored;
        self.streams.insert(idx, s);
        proof {
            assert(self.streams@ =~= before.update(idx as int, self.streams@[idx as int]));
        }
        Ok(())
    }

    /// Registers a connection and hands it a fresh client id.
    pub fn add_client(&mut self, address: Vec<u8>) -> (r: u32)
        requires
            old(self).wf(),
            old(self).next_client_id < u32::MAX,
        ensures
            final(self).wf(),
            r == old(self).next_client_id,
            final(self).next_client_id == old(self).next_client_id + 1,
            final(self).clients@.len() == old(self).clients@.len() + 1,
            final(self).clients@.last().client_id == r,
            final(self).clients@.last().address@ == address@,
            final(self).streams@ == old(self).streams@,
            final(self).users@ == old(self).users@,
            final(self).permissioner == old(self).permissioner,
            final(self).auth_enabled == old(self).auth_enabled,
            final(self).segment_size_limit == old(self).segment_size_limit,
    {
        let id = self.next_client_id;
        self.clients.push(ClientEntry { client_id: id, address });
        self.next_client_id = id + 1;
        id
    }

    /// Removes a connection's entry; a missing id changes nothing.
    pub fn delete_client(&mut self, client_id: u32)
        requires
            old(self).wf(),
        ensures
            final(self).wf(),
            forall|i: int| 0 <= i < final(self).clients@.len()
                ==> (#[trigger] final(self).clients@[i]).client_id != client_id,
            final(self).streams@ == old(self).streams@,
            final(self).users@ == old(self).users@,
            final(self).permissioner == old(self).permissioner,
            final(self).auth_enabled == old(self).auth_enabled,
            final(self).segment_size_limit == old(self).segment_size_limit,
            final(self).next_client_id == old(self).next_client_id,
    {
        let n = self.clients.len();
        let mut i: usize = 0;
        while i < n
            invariant
                i <= n,
                n == self.clients@.len(),
                self == old(self),
                self.wf(),
                forall|j: int| 0 <= j < i ==> (#[trigger] self.clients@[j]).client_id != client_id,
            decreases n - i,
        {
            if self.clients[i].client_id == client_id {
                let ghost before = self.clients@;
                self.clients.remove(i);
                proof {
                    assert(self.clients@ =~= before.take(i as int) + before.skip(i as int + 1));
                    assert forall|j: int| 0 <= j < self.clients@.len() implies (
                    #[trigger] self.clients@[j]).client_id != client_id by {
                        if j < i {
                            assert(self.clients@[j] == before[j]);
                        } else {
                            assert(self.clients@[j] == before[j + 1]);
                        }
                    }
                }
                return;
            }
            i = i + 1;
        }
    }

    /// The position of a registered client, if any.
    pub fn find_client(&self, client_id: u32) -> (r: Option<usize>)
        ensures
            match r {
                Some(i) => i < self.clients@.len() && self.clients@[i as int].client_id
                    == client_id,
                None => forall|i: int| 0 <= i < self.clients@.len()
                    ==> (#[trigger] self.clients@[i]).client_id != client_id,
            },
    {
        let n = self.clients.len();
        let mut i: usize = 0;
        while i < n
            invariant
                i <= n,
                n == self.clients@.len(),
                forall|j: int| 0 <= j < i ==> (#[trigger] self.clients@[j]).client_id != client_id,
            decreases n - i,
        {
            if self.clients[i].client_id == client_id {
                return Some(i);
            }
            i = i + 1;
        }
        None
    }

    /// Whether a client id is registered.
    pub fn has_client(&self, client_id: u32) -> (r: bool)
        ensures
            r == exists|i: int| 0 <= i < self.clients@.len()
                && (#[trigger] self.clients@[i]).client_id == client_id,
    {
        let n = self.clients.len();
        let mut i: usize = 0;
        while i < n
            invariant
                i <= n,
                n == self.clients@.len(),
                forall|j: int| 0 <= j < i ==> (#[trigger] self.clients@[j]).client_id != client_id,
            decreases n - i,
        {
            if self.clients[i].client_id == client_id {
                return true;
            }
            i = i + 1;
        }
        false
    }

    /// Checks a username and password hash against the user store:
    /// succeeds with the user's id exactly when an active account with
    /// that name stores that hash; anything else is
    /// `InvalidCredentials`.
    pub fn login(&self, username: &[u8], password: &[u8]) -> (r: Result<u32, IggyError>)
        requires
            self.wf(),
        ensures
            match r {
                Ok(uid) => exists|i: int| 0 <= i < self.users@.len() && (
                #[trigger] self.users@[i]).username@ == username@ && self.users@[i].active
                    && self.users@[i].password_hash == fnv1a(password@) && self.users@[i].id
                    == uid,
                Err(e) => {
                    &&& e == IggyError::InvalidCredentials
                    &&& forall|i: int| 0 <= i < self.users@.len() ==> !((
                    #[trigger] self.users@[i]).username@ == username@ && self.users@[i].active
                        && self.users@[i].password_hash == fnv1a(password@))
                },
            },
    {
        let hash = crate::checksum::hash32(password);
        let n = self.users.len();
        let mut i: usize = 0;
        while i < n
            invariant
                i <= n,
                n == self.users@.len(),
                hash == fnv1a(password@),
                forall|j: int| 0 <= j < i ==> !((#[trigger] self.users@[j]).username@ == username@
                    && self.users@[j].active && self.users@[j].password_hash == fnv1a(password@)),
            decreases n - i,
        {
            if crate::wire::slice_eq_bytes(self.users[i].username.as_slice(), username) {
                if self.users[i].active && self.users[i].password_hash == hash {
                    return Ok(self.users[i].id);
                }
            }
            i = i + 1;
        }
        Err(IggyError::InvalidCredentials)
    }
}

} // verus!
