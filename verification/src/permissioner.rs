//! The permissioner: an in-memory authorizer consulted on every
//! operation.  Evaluation order for the message gates: disabled mode
//! allows everything; then the all-streams allow-set for the action; then
//! the per-stream allow-set; then the stored stream permissions with their
//! topic-scoped overrides; everything else is denied.

use vstd::prelude::*;
use crate::error::IggyError;

verus! {

/// Per-topic overrides inside a stream grant.
#[derive(Clone, Copy, Debug, PartialEq, Eq, Structural)]
pub struct TopicPermissions {
    pub poll_messages: bool,
    pub send_messages: bool,
}

/// What a user may do inside one stream.
#[derive(Debug)]
pub struct StreamPermissions {
    pub manage_stream: bool,
    pub read_stream: bool,
    pub poll_messages: bool,
    pub send_messages: bool,
    pub topics: Option<Vec<(u32, TopicPermissions)>>,
}

/// What a user may do across the whole server.
#[derive(Clone, Copy, Debug, PartialEq, Eq, Structural)]
pub struct GlobalPermissions {
    pub manage_servers: bool,
    pub read_servers: bool,
    pub manage_streams: bool,
    pub read_streams: bool,
    pub poll_messages: bool,
    pub send_messages: bool,
}

/// The first value stored under `key`, if any.
pub open spec fn assoc_topic(entries: Seq<(u32, TopicPermissions)>, key: u32) -> Option<
    TopicPermissions,
>
    decreases entries.len(),
{
    if entries.len() == 0 {
        None
    } else if entries[0].0 == key {
        Some(entries[0].1)
    } else {
        assoc_topic(entries.drop_first(), key)
    }
}

/// Looks up a topic override.
fn find_topic(entries: &Vec<(u32, TopicPermissions)>, key: u32) -> (r: Option<TopicPermissions>)
    ensures
        r == assoc_topic(entries@, key),
{
    let n = entries.len();
    proof {
        assert(entries@.skip(0) =~= entries@);
    }
    let mut i: usize = 0;
    while i < n
        invariant
            i <= n,
            n == entries@.len(),
            assoc_topic(entries@, key) == assoc_topic(entries@.skip(i as int), key),
        decreases n - i,
    {
        proof {
            assert(entries@.skip(i as int)[0] == entries@[i as int]);
            assert(entries@.skip(i as int).drop_first() =~= entries@.skip(i as int + 1));
        }
        if entries[i].0 == key {
            return Some(entries[i].1);
        }
        i = i + 1;
    }
    proof {
        assert(entries@.skip(n as int) =~= Seq::<(u32, TopicPermissions)>::empty());
    }
    None
}

/// The stream permissions a permissioner stores for `(user, stream)`.
pub open spec fn assoc_stream(
    entries: Seq<(u32, u32, StreamPermissions)>,
    user: u32,
    stream: u32,
) -> Option<StreamPermissions>
    decreases entries.len(),
{
    if entries.len() == 0 {
        None
    } else if entries[0].0 == user && entries[0].1 == stream {
        Some(entries[0].2)
    } else {
        assoc_stream(entries.drop_first(), user, stream)
    }
}

/// The global permissions a permissioner stores for `user`.
pub open spec fn assoc_global(entries: Seq<(u32, GlobalPermissions)>, user: u32) -> Option<
    GlobalPermissions,
>
    decreases entries.len(),
{
    if entries.len() == 0 {
        None
    } else if entries[0].0 == user {
        Some(entries[0].1)
    } else {
        assoc_global(entries.drop_first(), user)
    }
}

/// The in-memory authorization tables, rebuilt from the user store on any
/// permission mutation.
#[derive(Debug)]
pub struct Permissioner {
    pub enabled: bool,
    pub users_that_can_poll_messages_from_all_streams: Vec<u32>,
    pub users_that_can_send_messages_to_all_streams: Vec<u32>,
    pub users_that_can_poll_messages_from_specific_streams: Vec<(u32, u32)>,
    pub users_that_can_send_messages_to_specific_streams: Vec<(u32, u32)>,
    pub users_streams_permissions: Vec<(u32, u32, StreamPermissions)>,
    pub users_permissions: Vec<(u32, GlobalPermissions)>,
}

impl Permissioner {
    /// The table discipline the original's sets and maps provided: each
    /// allow-set holds a user or pair at most once, and each permission
    /// table keys a user, a pair, or a topic at most once — so the
    /// first-match lookups are the unique ones.
    pub open spec fn wf(self) -> bool {
        &&& forall|i: int, j: int| 0 <= i < j
            < self.users_that_can_poll_messages_from_all_streams@.len()
            ==> #[trigger] self.users_that_can_poll_messages_from_all_streams@[i]
            != #[trigger] self.users_that_can_poll_messages_from_all_streams@[j]
        &&& forall|i: int, j: int| 0 <= i < j
            < self.users_that_can_send_messages_to_all_streams@.len()
            ==> #[trigger] self.users_that_can_send_messages_to_all_streams@[i]
            != #[trigger] self.users_that_can_send_messages_to_all_streams@[j]
        &&& forall|i: int, j: int| 0 <= i < j
            < self.users_that_can_poll_messages_from_specific_streams@.len()
            ==> #[trigger] self.users_that_can_poll_messages_from_specific_streams@[i]
            != #[trigger] self.users_that_can_poll_messages_from_specific_streams@[j]
        &&& forall|i: int, j: int| 0 <= i < j
            < self.users_that_can_send_messages_to_specific_streams@.len()
            ==> #[trigger] self.users_that_can_send_messages_to_specific_streams@[i]
            != #[trigger] self.users_that_can_send_messages_to_specific_streams@[j]
        &&& forall|i: int, j: int| 0 <= i < j < self.users_streams_permissions@.len() ==> ((
        #[trigger] self.users_streams_permissions@[i]).0,
        self.users_streams_permissions@[i].1,
        ) != ((#[trigger] self.users_streams_permissions@[j]).0,
        self.users_streams_permissions@[j].1,
        )
        &&& forall|i: int, j: int| 0 <= i < j < self.users_permissions@.len()
            ==> (#[trigger] self.users_permissions@[i]).0
            != (#[trigger] self.users_permissions@[j]).0
    }

    /// An empty permissioner: no grants at all.
    pub fn new(enabled: bool) -> (r: Permissioner)
        ensures
            r.wf(),
            r.enabled == enabled,
            r.users_that_can_poll_messages_from_all_streams@ == Seq::<u32>::empty(),
            r.users_that_can_send_messages_to_all_streams@ == Seq::<u32>::empty(),
            r.users_that_can_poll_messages_from_specific_streams@ == Seq::<(u32, u32)>::empty(),
            r.users_that_can_send_messages_to_specific_streams@ == Seq::<(u32, u32)>::empty(),
            r.users_streams_permissions@ == Seq::<(u32, u32, StreamPermissions)>::empty(),
            r.users_permissions@ == Seq::<(u32, GlobalPermissions)>::empty(),
    {
        Permissioner {
            enabled,
            users_that_can_poll_messages_from_all_streams: Vec::new(),
            users_that_can_send_messages_to_all_streams: Vec::new(),
            users_that_can_poll_messages_from_specific_streams: Vec::new(),
            users_that_can_send_messages_to_specific_streams: Vec::new(),
            users_streams_permissions: Vec::new(),
            users_permissions: Vec::new(),
        }
    }

    /// Whether polling is allowed for `(user, stream, topic)`: the
    /// evaluation order of the module doc, as one predicate.
    pub open spec fn spec_can_poll(self, user_id: u32, stream_id: u32, topic_id: u32) -> bool {
        ||| !self.enabled
        ||| self.users_that_can_poll_messages_from_all_streams@.contains(user_id)
        ||| self.users_that_can_poll_messages_from_specific_streams@.contains((user_id, stream_id))
        ||| match assoc_stream(self.users_streams_permissions@, user_id, stream_id) {
            Some(sp) => sp.poll_messages || (match sp.topics {
                Some(tp) => match assoc_topic(tp@, topic_id) {
                    Some(t) => t.poll_messages,
                    None => false,
                },
                None => false,
            }),
            None => false,
        }
    }

    /// Whether sending is allowed for `(user, stream, topic)`.
    pub open spec fn spec_can_send(self, user_id: u32, stream_id: u32, topic_id: u32) -> bool {
        ||| !self.enabled
        ||| self.users_that_can_send_messages_to_all_streams@.contains(user_id)
        ||| self.users_that_can_send_messages_to_specific_streams@.contains((user_id, stream_id))
        ||| match assoc_stream(self.users_streams_permissions@, user_id, stream_id) {
            Some(sp) => sp.send_messages || (match sp.topics {
                Some(tp) => match assoc_topic(tp@, topic_id) {
                    Some(t) => t.send_messages,
                    None => false,
                },
                None => false,
            }),
            None => false,
        }
    }

    /// Whether server-level reads (stats, client lists) are allowed.
    pub open spec fn spec_can_read_server(self, user_id: u32) -> bool {
        ||| !self.enabled
        ||| match assoc_global(self.users_permissions@, user_id) {
            Some(g) => g.read_servers,
            None => false,
        }
    }

    /// The poll gate: accepts exactly when [`Self::spec_can_poll`] holds,
    /// and denies with `Unauthorized`.
    pub fn poll_messages(&self, user_id: u32, stream_id: u32, topic_id: u32) -> (r: Result<
        (),
        IggyError,
    >)
        ensures
            r is Ok <==> self.spec_can_poll(user_id, stream_id, topic_id),
            r is Err ==> r == Err::<(), IggyError>(IggyError::Unauthorized),
    {
        if !self.enabled {
            return Ok(());
        }
        if contains_u32(&self.users_that_can_poll_messages_from_all_streams, user_id) {
            return Ok(());
        }
        if contains_pair(
            &self.users_that_can_poll_messages_from_specific_streams,
            user_id,
            stream_id,
        ) {
            return Ok(());
        }
        let stream_permissions = find_stream(&self.users_streams_permissions, user_id, stream_id);
        match stream_permissions {
            None => Err(IggyError::Unauthorized),
            Some(sp) => {
                if sp.poll_messages {
                    return Ok(());
                }
                match &sp.topics {
                    None => Err(IggyError::Unauthorized),
                    Some(tp) => match find_topic(tp, topic_id) {
                        Some(t) => if t.poll_messages {
                            Ok(())
                        } else {
                            Err(IggyError::Unauthorized)
                        },
                        None => Err(IggyError::Unauthorized),
                    },
                }
            },
        }
    }

    /// The send gate: accepts exactly when [`Self::spec_can_send`] holds,
    /// and denies with `Unauthorized`.
    pub fn append_messages(&self, user_id: u32, stream_id: u32, topic_id: u32) -> (r: Result<
        (),
        IggyError,
    >)
        ensures
            r is Ok <==> self.spec_can_send(user_id, stream_id, topic_id),
            r is Err ==> r == Err::<(), IggyError>(IggyError::Unauthorized),
    {
        if !self.enabled {
            return Ok(());
        }
        if contains_u32(&self.users_that_can_send_messages_to_all_streams, user_id) {
            return Ok(());
        }
        if contains_pair(
            &self.users_that_can_send_messages_to_specific_streams,
            user_id,
            stream_id,
        ) {
            return Ok(());
        }
        let stream_permissions = find_stream(&self.users_streams_permissions, user_id, stream_id);
        match stream_permissions {
            None => Err(IggyError::Unauthorized),
            Some(sp) => {
                if sp.send_messages {
                    return Ok(());
                }
                match &sp.topics {
                    None => Err(IggyError::Unauthorized),
                    Some(tp) => match find_topic(tp, topic_id) {
                        Some(t) => if t.send_messages {
                            Ok(())
                        } else {
                            Err(IggyError::Unauthorized)
                        },
                        None => Err(IggyError::Unauthorized),
                    },
                }
            },
        }
    }

    /// Whether a user may create streams: a server-level stream-manage
    /// grant.
    pub open spec fn spec_can_manage_streams(self, user_id: u32) -> bool {
        ||| !self.enabled
        ||| match assoc_global(self.users_permissions@, user_id) {
            Some(g) => g.manage_streams,
            None => false,
        }
    }

    /// Whether a user may manage one stream: the server-level grant, or
    /// the stream grant.
    pub open spec fn spec_can_manage_stream(self, user_id: u32, stream_id: u32) -> bool {
        ||| self.spec_can_manage_streams(user_id)
        ||| match assoc_stream(self.users_streams_permissions@, user_id, stream_id) {
            Some(sp) => sp.manage_stream,
            None => false,
        }
    }

    /// Whether a user may read one stream's metadata: the server-level
    /// read grant, or the stream grant.
    pub open spec fn spec_can_read_stream(self, user_id: u32, stream_id: u32) -> bool {
        ||| !self.enabled
        ||| match assoc_global(self.users_permissions@, user_id) {
            Some(g) => g.read_streams,
            None => false,
        }
        ||| match assoc_stream(self.users_streams_permissions@, user_id, stream_id) {
            Some(sp) => sp.read_stream,
            None => false,
        }
    }

    /// The stream-list gate: a server-level stream read.
    pub fn get_streams(&self, user_id: u32) -> (r: Result<(), IggyError>)
        ensures
            r is Ok <==> (!self.enabled || (match assoc_global(self.users_permissions@, user_id) {
                Some(g) => g.read_streams,
                None => false,
            })),
            r is Err ==> r == Err::<(), IggyError>(IggyError::Unauthorized),
    {
        if !self.enabled {
            return Ok(());
        }
        match find_global(&self.users_permissions, user_id) {
            Some(g) => if g.read_streams {
                Ok(())
            } else {
                Err(IggyError::Unauthorized)
            },
            None => Err(IggyError::Unauthorized),
        }
    }

    /// The stream-update gate.
    pub fn update_stream(&self, user_id: u32, stream_id: u32) -> (r: Result<(), IggyError>)
        ensures
            r is Ok <==> self.spec_can_manage_stream(user_id, stream_id),
            r is Err ==> r == Err::<(), IggyError>(IggyError::Unauthorized),
    {
        self.manage_stream_gate(user_id, stream_id)
    }

    /// The stream-creation gate.
    pub fn create_stream(&self, user_id: u32) -> (r: Result<(), IggyError>)
        ensures
            r is Ok <==> self.spec_can_manage_streams(user_id),
            r is Err ==> r == Err::<(), IggyError>(IggyError::Unauthorized),
    {
        if !self.enabled {
            return Ok(());
        }
        match find_global(&self.users_permissions, user_id) {
            Some(g) => if g.manage_streams {
                Ok(())
            } else {
                Err(IggyError::Unauthorized)
            },
            None => Err(IggyError::Unauthorized),
        }
    }

    /// The stream-deletion gate.
    pub fn delete_stream(&self, user_id: u32, stream_id: u32) -> (r: Result<(), IggyError>)
        ensures
            r is Ok <==> self.spec_can_manage_stream(user_id, stream_id),
            r is Err ==> r == Err::<(), IggyError>(IggyError::Unauthorized),
    {
        self.manage_stream_gate(user_id, stream_id)
    }

    /// The topic-creation gate: managing a stream covers its topics.
    pub fn create_topic(&self, user_id: u32, stream_id: u32) -> (r: Result<(), IggyError>)
        ensures
            r is Ok <==> self.spec_can_manage_stream(user_id, stream_id),
            r is Err ==> r == Err::<(), IggyError>(IggyError::Unauthorized),
    {
        self.manage_stream_gate(user_id, stream_id)
    }

    /// The topic-deletion gate.
    pub fn delete_topic(&self, user_id: u32, stream_id: u32) -> (r: Result<(), IggyError>)
        ensures
            r is Ok <==> self.spec_can_manage_stream(user_id, stream_id),
            r is Err ==> r == Err::<(), IggyError>(IggyError::Unauthorized),
    {
        self.manage_stream_gate(user_id, stream_id)
    }

    /// The topic-read gate.
    pub fn get_topic(&self, user_id: u32, stream_id: u32) -> (r: Result<(), IggyError>)
        ensures
            r is Ok <==> self.spec_can_read_stream(user_id, stream_id),
            r is Err ==> r == Err::<(), IggyError>(IggyError::Unauthorized),
    {
        if !self.enabled {
            return Ok(());
        }
        if let Some(g) = find_global(&self.users_permissions, user_id) {
            if g.read_streams {
                return Ok(());
            }
        }
        match find_stream(&self.users_streams_permissions, user_id, stream_id) {
            Some(sp) => if sp.read_stream {
                Ok(())
            } else {
                Err(IggyError::Unauthorized)
            },
            None => Err(IggyError::Unauthorized),
        }
    }

    /// The consumer-group join gate: reading the stream suffices.
    pub fn join_consumer_group(&self, user_id: u32, stream_id: u32) -> (r: Result<(), IggyError>)
        ensures
            r is Ok <==> self.spec_can_read_stream(user_id, stream_id),
            r is Err ==> r == Err::<(), IggyError>(IggyError::Unauthorized),
    {
        self.get_topic(user_id, stream_id)
    }

    /// Shared body of the manage gates.
    fn manage_stream_gate(&self, user_id: u32, stream_id: u32) -> (r: Result<(), IggyError>)
        ensures
            r is Ok <==> self.spec_can_manage_stream(user_id, stream_id),
            r is Err ==> r == Err::<(), IggyError>(IggyError::Unauthorized),
    {
        if !self.enabled {
            return Ok(());
        }
        if let Some(g) = find_global(&self.users_permissions, user_id) {
            if g.manage_streams {
                return Ok(());
            }
        }
        match find_stream(&self.users_streams_permissions, user_id, stream_id) {
            Some(sp) => if sp.manage_stream {
                Ok(())
            } else {
                Err(IggyError::Unauthorized)
            },
            None => Err(IggyError::Unauthorized),
        }
    }

    /// The stats gate: a server-level read.
    pub fn get_stats(&self, user_id: u32) -> (r: Result<(), IggyError>)
        ensures
            r is Ok <==> self.spec_can_read_server(user_id),
            r is Err ==> r == Err::<(), IggyError>(IggyError::Unauthorized),
    {
        self.get_server_info(user_id)
    }

    /// The client-list gate: a server-level read.
    pub fn get_clients(&self, user_id: u32) -> (r: Result<(), IggyError>)
        ensures
            r is Ok <==> self.spec_can_read_server(user_id),
            r is Err ==> r == Err::<(), IggyError>(IggyError::Unauthorized),
    {
        self.get_server_info(user_id)
    }

    /// The single-client gate: a server-level read.
    pub fn get_client(&self, user_id: u32) -> (r: Result<(), IggyError>)
        ensures
            r is Ok <==> self.spec_can_read_server(user_id),
            r is Err ==> r == Err::<(), IggyError>(IggyError::Unauthorized),
    {
        self.get_server_info(user_id)
    }

    /// Server-level reads are allowed when disabled, or when the user's
    /// global permissions grant `read_servers`.
    pub fn get_server_info(&self, user_id: u32) -> (r: Result<(), IggyError>)
        ensures
            r is Ok <==> self.spec_can_read_server(user_id),
            r is Err ==> r == Err::<(), IggyError>(IggyError::Unauthorized),
    {
        if !self.enabled {
            return Ok(());
        }
        match find_global(&self.users_permissions, user_id) {
            Some(g) => if g.read_servers {
                Ok(())
            } else {
                Err(IggyError::Unauthorized)
            },
            None => Err(IggyError::Unauthorized),
        }
    }
}

/// Whether a vector of user ids holds `key`.
fn contains_u32(entries: &Vec<u32>, key: u32) -> (r: bool)
    ensures
        r == entries@.contains(key),
{
    let n = entries.len();
    let mut i: usize = 0;
    while i < n
        invariant
            i <= n,
            n == entries@.len(),
            forall|j: int| 0 <= j < i ==> entries@[j] != key,
        decreases n - i,
    {
        if entries[i] == key {
            return true;
        }
        i = i + 1;
    }
    proof {
        assert(!entries@.contains(key));
    }
    false
}

/// Whether a vector of `(user, stream)` pairs holds the given pair.
fn contains_pair(entries: &Vec<(u32, u32)>, user: u32, stream: u32) -> (r: bool)
    ensures
        r == entries@.contains((user, stream)),
{
    let n = entries.len();
    let mut i: usize = 0;
    while i < n
        invariant
            i <= n,
            n == entries@.len(),
            forall|j: int| 0 <= j < i ==> entries@[j] != (user, stream),
        decreases n - i,
    {
        if entries[i].0 == user && entries[i].1 == stream {
            proof {
                assert(entries@[i as int] == (user, stream));
            }
            return true;
        }
        i = i + 1;
    }
    proof {
        assert(!entries@.contains((user, stream)));
    }
    false
}

/// Looks up the stream permissions stored for `(user, stream)`.
fn find_stream<'a>(entries: &'a Vec<(u32, u32, StreamPermissions)>, user: u32, stream: u32) -> (r:
    Option<&'a StreamPermissions>)
    ensures
        match r {
            Some(sp) => assoc_stream(entries@, user, stream) == Some(*sp),
            None => assoc_stream(entries@, user, stream) is None,
        },
{
    let n = entries.len();
    proof {
        assert(entries@.skip(0) =~= entries@);
    }
    let mut i: usize = 0;
    while i < n
        invariant
            i <= n,
            n == entries@.len(),
            assoc_stream(entries@, user, stream) == assoc_stream(
                entries@.skip(i as int),
                user,
                stream,
            ),
        decreases n - i,
    {
        proof {
            assert(entries@.skip(i as int)[0] == entries@[i as int]);
            assert(entries@.skip(i as int).drop_first() =~= entries@.skip(i as int + 1));
        }
        if entries[i].0 == user && entries[i].1 == stream {
            return Some(&entries[i].2);
        }
        i = i + 1;
    }
    proof {
        assert(entries@.skip(n as int) =~= Seq::<(u32, u32, StreamPermissions)>::empty());
    }
    None
}

/// Looks up the global permissions stored for `user`.
fn find_global(entries: &Vec<(u32, GlobalPermissions)>, user: u32) -> (r: Option<
    GlobalPermissions,
>)
    ensures
        r == assoc_global(entries@, user),
{
    let n = entries.len();
    proof {
        assert(entries@.skip(0) =~= entries@);
    }
    let mut i: usize = 0;
    while i < n
        invariant
            i <= n,
            n == entries@.len(),
            assoc_global(entries@, user) == assoc_global(entries@.skip(i as int), user),
        decreases n - i,
    {
        proof {
            assert(entries@.skip(i as int)[0] == entries@[i as int]);
            assert(entries@.skip(i as int).drop_first() =~= entries@.skip(i as int + 1));
        }
        if entries[i].0 == user {
            return Some(entries[i].1);
        }
        i = i + 1;
    }
    proof {
        assert(entries@.skip(n as int) =~= Seq::<(u32, GlobalPermissions)>::empty());
    }
    None
}

} // verus!
