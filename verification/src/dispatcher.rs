//! The command dispatcher: one decoded command, one authenticated
//! context, one engine.  Authentication is checked before anything else —
//! with authentication enabled, only ping and login pass an
//! unauthenticated connection — then the permissioner gates the
//! operation, and the engine runs it.  The reply is an empty success, a
//! payload, or an error code.

use vstd::prelude::*;
use vstd::bytes::{spec_u32_to_le_bytes, spec_u64_to_le_bytes, u32_to_le_bytes, u64_to_le_bytes};
use vstd::string::StringSliceAdditionalSpecFns;
use crate::error::IggyError;
use crate::identifier::Identifier;
use crate::consumer::{Consumer, ConsumerKind};
use crate::partition::{NewMessage, Message, ConsumerKey, PollingStrategy, assigned_batch};
use crate::topic::Partitioning;
use crate::system::{System, UserContext, GroupOp, stream_matches, topic_matches, some_stream, some_topic, lemma_stream_match_unique};

verus! {

/// One decoded client command, ready for dispatch.
#[derive(Debug)]
pub enum Command {
    Ping,
    LoginUser { username: Vec<u8>, password: Vec<u8> },
    GetStats,
    GetClient { client_id: u32 },
    GetClients,
    GetStreams,
    CreateStream { stream_id: u32, name: String },
    DeleteStream { stream_id: Identifier },
    UpdateStream { stream_id: Identifier, name: String },
    CreateTopic {
        stream_id: Identifier,
        topic_id: u32,
        partitions_count: u32,
        name: String,
        message_expiry: Option<u64>,
    },
    DeleteTopic { stream_id: Identifier, topic_id: Identifier },
    SendMessages {
        stream_id: Identifier,
        topic_id: Identifier,
        partitioning: Partitioning,
        messages: Vec<NewMessage>,
    },
    PollMessages {
        consumer: Consumer,
        stream_id: Identifier,
        topic_id: Identifier,
        partition_id: Option<u32>,
        strategy: PollingStrategy,
        count: u32,
        auto_commit: bool,
    },
    StoreConsumerOffset {
        consumer: Consumer,
        stream_id: Identifier,
        topic_id: Identifier,
        partition_id: Option<u32>,
        offset: u64,
    },
    GetConsumerOffset {
        consumer: Consumer,
        stream_id: Identifier,
        topic_id: Identifier,
        partition_id: Option<u32>,
    },
    CreateConsumerGroup { stream_id: Identifier, topic_id: Identifier, group_id: u32 },
    DeleteConsumerGroup { stream_id: Identifier, topic_id: Identifier, group_id: u32 },
    JoinConsumerGroup { stream_id: Identifier, topic_id: Identifier, group_id: u32 },
    LeaveConsumerGroup { stream_id: Identifier, topic_id: Identifier, group_id: u32 },
}

/// What goes back to the client: empty success, success with a payload,
/// or an error kind.
#[derive(Debug)]
pub enum Reply {
    EmptyOk,
    OkPayload(Vec<u8>),
    Error(IggyError),
}

impl Reply {
    /// The status code of the reply frame: zero for success.
    pub open spec fn spec_status(self) -> u32 {
        match self {
            Reply::EmptyOk => 0,
            Reply::OkPayload(_) => 0,
            Reply::Error(e) => e.spec_code(),
        }
    }

    /// The payload carried by the reply frame.
    pub open spec fn spec_payload(self) -> Seq<u8> {
        match self {
            Reply::OkPayload(p) => p@,
            _ => Seq::<u8>::empty(),
        }
    }

    /// The reply frame: status, payload length, payload, all
    /// little-endian.
    pub fn frame(&self) -> (r: Vec<u8>)
        requires
            self.spec_payload().len() <= u32::MAX,
        ensures
            r@ == spec_u32_to_le_bytes(self.spec_status()) + spec_u32_to_le_bytes(
                self.spec_payload().len() as u32,
            ) + self.spec_payload(),
    {
        let status: u32 = match self {
            Reply::EmptyOk => 0,
            Reply::OkPayload(_) => 0,
            Reply::Error(e) => e.as_code(),
        };
        let mut out = u32_to_le_bytes(status);
        match self {
            Reply::OkPayload(p) => {
                let mut len_bytes = u32_to_le_bytes(p.len() as u32);
                out.append(&mut len_bytes);
                let mut i: usize = 0;
                let n = p.len();
                while i < n
                    invariant
                        i <= n,
                        n == p@.len(),
                        out@ =~= spec_u32_to_le_bytes(status) + spec_u32_to_le_bytes(
                            n as u32,
                        ) + p@.take(i as int),
                    decreases n - i,
                {
                    out.push(p[i]);
                    i = i + 1;
                }
                proof {
                    assert(p@.take(n as int) =~= p@);
                    assert(out@ =~= spec_u32_to_le_bytes(self.spec_status())
                        + spec_u32_to_le_bytes(self.spec_payload().len() as u32)
                        + self.spec_payload());
                }
                out
            },
            _ => {
                let mut len_bytes = u32_to_le_bytes(0);
                out.append(&mut len_bytes);
                proof {
                    assert(out@ =~= spec_u32_to_le_bytes(self.spec_status())
                        + spec_u32_to_le_bytes(self.spec_payload().len() as u32)
                        + self.spec_payload());
                }
                out
            },
        }
    }
}

/// Whether a command may run on an unauthenticated connection: only ping
/// and login may.
pub open spec fn requires_auth(c: Command) -> bool {
    !(c is Ping || c is LoginUser)
}

/// Whether a command can change the engine at all; the others take only
/// shared access.
pub open spec fn is_mutating(c: Command) -> bool {
    match c {
        Command::Ping => false,
        Command::LoginUser { .. } => false,
        Command::GetStats => false,
        Command::GetClient { .. } => false,
        Command::GetClients => false,
        Command::GetStreams => false,
        Command::GetConsumerOffset { .. } => false,
        _ => true,
    }
}

/// The consumer key a poll or offset command addresses.
pub open spec fn spec_consumer_key(c: Consumer) -> ConsumerKey {
    match c.kind {
        ConsumerKind::Consumer => ConsumerKey::Consumer(c.id),
        ConsumerKind::ConsumerGroup => ConsumerKey::Group(c.id),
    }
}

/// Executable twin of [`spec_consumer_key`].
pub fn consumer_key_of(c: &Consumer) -> (r: ConsumerKey)
    ensures
        r == spec_consumer_key(*c),
{
    match c.kind {
        ConsumerKind::Consumer => ConsumerKey::Consumer(c.id),
        ConsumerKind::ConsumerGroup => ConsumerKey::Group(c.id),
    }
}

/// The partition a command addresses: the named one, or the default
/// partition `1` when none is given.
pub open spec fn spec_partition_or_default(p: Option<u32>) -> u32 {
    match p {
        Some(x) => x,
        None => 1,
    }
}

/// Routes one command: the authentication gate first, then the
/// permissioner, then the engine.  An unauthenticated connection gets
/// `Unauthenticated` for everything but ping and login, with the engine
/// untouched; a denied operation gets `Unauthorized`; an engine error
/// becomes its error code; success is empty or carries the payload.
#[verifier::rlimit(100)]
#[verifier::spinoff_prover]
pub fn handle(system: &mut System, ctx: &mut UserContext, command: Command, now: u64, id_seed: u128) -> (r:
    Reply)
    requires
        old(system).wf(),
    ensures
        final(system).wf(),
        !(command is LoginUser) ==> *final(ctx) == *old(ctx),
        requires_auth(command) && !old(ctx).authenticated ==> r == Reply::Error(
            IggyError::Unauthenticated,
        ) && *final(system) == *old(system),
        !is_mutating(command) ==> *final(system) == *old(system),
        final(system).users@ == old(system).users@,
        final(system).clients@ == old(system).clients@,
        final(system).permissioner == old(system).permissioner,
        final(system).auth_enabled == old(system).auth_enabled,
        old(ctx).authenticated || !requires_auth(command) ==> match command {
            Command::Ping => r == Reply::EmptyOk && *final(system) == *old(system),
            Command::LoginUser { username, password } => {
                &&& (r == Reply::EmptyOk <==> exists|i: int|
                    #![auto]
                    0 <= i < old(system).users@.len() && old(system).users@[i].username@
                        == username@ && old(system).users@[i].active && old(
                        system,
                    ).users@[i].password_hash == crate::checksum::fnv1a(password@))
                &&& (r == Reply::EmptyOk ==> final(ctx).authenticated)
                &&& (!(r == Reply::EmptyOk) ==> r == Reply::Error(IggyError::InvalidCredentials)
                    && *final(ctx) == *old(ctx))
            },
            Command::GetStats => {
                &&& (r is OkPayload <==> old(system).permissioner.spec_can_read_server(
                    old(ctx).user_id,
                ))
                &&& (r is OkPayload ==> r.spec_payload() == spec_u32_to_le_bytes(
                    old(system).streams@.len() as u32,
                ) + spec_u32_to_le_bytes(old(system).clients@.len() as u32))
                &&& (!(r is OkPayload) ==> r == Reply::Error(IggyError::Unauthorized))
            },
            Command::GetClients => {
                &&& (r is OkPayload <==> old(system).permissioner.spec_can_read_server(
                    old(ctx).user_id,
                ))
                &&& (r matches Reply::OkPayload(p) ==> p@ == clients_payload(
                    old(system).clients@,
                ))
                &&& (!(r is OkPayload) ==> r == Reply::Error(IggyError::Unauthorized))
            },
            Command::GetClient { client_id } => {
                &&& (r is OkPayload <==> (old(system).permissioner.spec_can_read_server(
                    old(ctx).user_id,
                ) && exists|i: int| 0 <= i < old(system).clients@.len() && (#[trigger] old(
                    system,
                ).clients@[i]).client_id == client_id))
                &&& (r matches Reply::OkPayload(p) ==> exists|i: int|
                    #![trigger old(system).clients@[i]]
                    0 <= i < old(system).clients@.len() && old(system).clients@[i].client_id
                        == client_id && p@ == spec_u32_to_le_bytes(client_id) + old(
                        system,
                    ).clients@[i].address@)
                &&& (!old(system).permissioner.spec_can_read_server(old(ctx).user_id) ==> r
                    == Reply::Error(IggyError::Unauthorized))
                &&& (old(system).permissioner.spec_can_read_server(old(ctx).user_id) && !(
                exists|i: int| 0 <= i < old(system).clients@.len() && (#[trigger] old(
                    system,
                ).clients@[i]).client_id == client_id) ==> r == Reply::Error(
                    IggyError::InvalidCommand,
                ))
            },
            Command::GetStreams => {
                &&& (r matches Reply::OkPayload(p) ==> p@ == ids_payload(old(system).streams@))
                &&& (!(r is OkPayload) ==> r == Reply::Error(IggyError::Unauthorized))
            },
            Command::CreateStream { stream_id, name } => create_stream_outcome(
                *old(system),
                *final(system),
                old(ctx).user_id,
                stream_id,
                name@,
                now,
                r,
            ),
            Command::DeleteStream { stream_id } => delete_stream_outcome(
                *old(system),
                *final(system),
                old(ctx).user_id,
                stream_id.model(),
                r,
            ),
            Command::UpdateStream { stream_id, name } => update_stream_outcome(
                *old(system),
                *final(system),
                old(ctx).user_id,
                stream_id.model(),
                name@,
                r,
            ),
            Command::CreateTopic { stream_id, topic_id, partitions_count, name, message_expiry } => create_topic_outcome(
                *old(system),
                *final(system),
                old(ctx).user_id,
                stream_id.model(),
                topic_id,
                name@,
                partitions_count,
                r,
            ),
            Command::DeleteTopic { stream_id, topic_id } => delete_topic_outcome(
                *old(system),
                *final(system),
                old(ctx).user_id,
                stream_id.model(),
                topic_id.model(),
                r,
            ),
            Command::SendMessages { stream_id, topic_id, partitioning, messages } => send_outcome(
                *old(system),
                *final(system),
                old(ctx).user_id,
                stream_id.model(),
                topic_id.model(),
                partitioning,
                messages@.map_values(|m: NewMessage| m@),
                now,
                id_seed,
                r,
            ),
            Command::PollMessages { consumer, stream_id, topic_id, partition_id, strategy, count, auto_commit } => poll_outcome(
                *old(system),
                *final(system),
                old(ctx).user_id,
                consumer,
                stream_id.model(),
                topic_id.model(),
                partition_id,
                strategy,
                count,
                auto_commit,
                r,
            ),
            Command::StoreConsumerOffset { consumer, stream_id, topic_id, partition_id, offset } => store_offset_outcome(
                *old(system),
                *final(system),
                consumer,
                stream_id.model(),
                topic_id.model(),
                partition_id,
                offset,
                r,
            ),
            Command::GetConsumerOffset { consumer, stream_id, topic_id, partition_id } => get_offset_outcome(
                *old(system),
                consumer,
                stream_id.model(),
                topic_id.model(),
                partition_id,
                r,
            ),
            Command::CreateConsumerGroup { stream_id, topic_id, group_id } => group_op_outcome(
                *old(system),
                *final(system),
                old(ctx).client_id,
                stream_id.model(),
                topic_id.model(),
                group_id,
                GroupOp::Create,
                r,
            ),
            Command::DeleteConsumerGroup { stream_id, topic_id, group_id } => group_op_outcome(
                *old(system),
                *final(system),
                old(ctx).client_id,
                stream_id.model(),
                topic_id.model(),
                group_id,
                GroupOp::Delete,
                r,
            ),
            Command::LeaveConsumerGroup { stream_id, topic_id, group_id } => group_op_outcome(
                *old(system),
                *final(system),
                old(ctx).client_id,
                stream_id.model(),
                topic_id.model(),
                group_id,
                GroupOp::Leave,
                r,
            ),
            Command::JoinConsumerGroup { stream_id, topic_id, group_id } => join_outcome(
                *old(system),
                *final(system),
                old(ctx).user_id,
                old(ctx).client_id,
                stream_id.model(),
                topic_id.model(),
                group_id,
                r,
            ),
        },
{
    if !ctx.is_authenticated() {
        match &command {
            Command::Ping => {},
            Command::LoginUser { .. } => {},
            _ => {
                return Reply::Error(IggyError::Unauthenticated);
            },
        }
    }
    match command {
        Command::Ping => Reply::EmptyOk,
        Command::LoginUser { username, password } => handle_login(system, ctx, &username, &password),
        Command::GetStats => {
            match system.permissioner.get_stats(ctx.user_id) {
                Err(e) => Reply::Error(e),
                Ok(()) => {
                    let mut payload = u32_to_le_bytes(system.streams.len() as u32);
                    let mut clients_bytes = u32_to_le_bytes(system.clients.len() as u32);
                    payload.append(&mut clients_bytes);
                    Reply::OkPayload(payload)
                },
            }
        },
        Command::GetClients => {
            match system.permissioner.get_clients(ctx.user_id) {
                Err(e) => Reply::Error(e),
                Ok(()) => {
                    let mut payload: Vec<u8> = Vec::new();
                    let n = system.clients.len();
                    let mut i: usize = 0;
                    while i < n
                        invariant
                            i <= n,
                            n == system.clients@.len(),
                            system == old(system),
                            system.wf(),
                            payload@ =~= clients_payload(system.clients@.take(i as int)),
                        decreases n - i,
                    {
                        let mut id_bytes = u32_to_le_bytes(system.clients[i].client_id);
                        payload.append(&mut id_bytes);
                        i = i + 1;
                        proof {
                            assert(system.clients@.take(i as int).drop_last()
                                =~= system.clients@.take(i as int - 1));
                            assert(system.clients@.take(i as int).last()
                                == system.clients@[i as int - 1]);
                            assert(payload@ =~= clients_payload(system.clients@.take(i as int)));
                        }
                    }
                    proof {
                        assert(system.clients@.take(n as int) =~= system.clients@);
                    }
                    Reply::OkPayload(payload)
                },
            }
        },
        Command::GetClient { client_id } => {
            match system.permissioner.get_client(ctx.user_id) {
                Err(e) => Reply::Error(e),
                Ok(()) => {
                    match system.find_client(client_id) {
                        None => Reply::Error(IggyError::InvalidCommand),
                        Some(i) => {
                            let mut payload = u32_to_le_bytes(client_id);
                            let mut addr = vstd::slice::slice_to_vec(
                                system.clients[i].address.as_slice(),
                            );
                            payload.append(&mut addr);
                            Reply::OkPayload(payload)
                        },
                    }
                },
            }
        },
        Command::GetStreams => handle_get_streams(system, ctx.user_id),
        Command::CreateStream { stream_id, name } => handle_create_stream(
            system,
            ctx.user_id,
            stream_id,
            name.as_str(),
            now,
        ),
        Command::DeleteStream { stream_id } => handle_delete_stream(system, ctx.user_id, &stream_id),
        Command::UpdateStream { stream_id, name } => handle_update_stream(
            system,
            ctx.user_id,
            &stream_id,
            name.as_str(),
        ),
        Command::CreateTopic { stream_id, topic_id, partitions_count, name, message_expiry } => handle_create_topic(
            system,
            ctx.user_id,
            &stream_id,
            topic_id,
            name.as_str(),
            partitions_count,
            message_expiry,
        ),
        Command::DeleteTopic { stream_id, topic_id } => handle_delete_topic(
            system,
            ctx.user_id,
            &stream_id,
            &topic_id,
        ),
        Command::SendMessages { stream_id, topic_id, partitioning, messages } => handle_send_messages(
            system,
            ctx.user_id,
            &stream_id,
            &topic_id,
            &partitioning,
            messages,
            now,
            id_seed,
        ),
        Command::PollMessages {
            consumer,
            stream_id,
            topic_id,
            partition_id,
            strategy,
            count,
            auto_commit,
        } => handle_poll_messages(
            system,
            ctx.user_id,
            &consumer,
            &stream_id,
            &topic_id,
            partition_id,
            strategy,
            count,
            auto_commit,
        ),
        Command::StoreConsumerOffset { consumer, stream_id, topic_id, partition_id, offset } => handle_store_consumer_offset(
            system,
            &consumer,
            &stream_id,
            &topic_id,
            partition_id,
            offset,
        ),
        Command::GetConsumerOffset { consumer, stream_id, topic_id, partition_id } => handle_get_consumer_offset(
            system,
            &consumer,
            &stream_id,
            &topic_id,
            partition_id,
        ),
        Command::CreateConsumerGroup { stream_id, topic_id, group_id } => handle_group_op(
            system,
            ctx.client_id,
            &stream_id,
            &topic_id,
            group_id,
            GroupOp::Create,
        ),
        Command::DeleteConsumerGroup { stream_id, topic_id, group_id } => handle_group_op(
            system,
            ctx.client_id,
            &stream_id,
            &topic_id,
            group_id,
            GroupOp::Delete,
        ),
        Command::JoinConsumerGroup { stream_id, topic_id, group_id } => handle_join_consumer_group(
            system,
            ctx.user_id,
            ctx.client_id,
            &stream_id,
            &topic_id,
            group_id,
        ),
        Command::LeaveConsumerGroup { stream_id, topic_id, group_id } => handle_group_op(
            system,
            ctx.client_id,
            &stream_id,
            &topic_id,
            group_id,
            GroupOp::Leave,
        ),
    }
}

/// The login arm of the dispatcher: succeeds exactly when an active
/// account with the given name stores the hash of the given password,
/// and then marks the connection authenticated as that user; anything
/// else is `InvalidCredentials` with the context untouched.
pub fn handle_login(system: &System, ctx: &mut UserContext, username: &Vec<u8>, password: &Vec<u8>) -> (r:
    Reply)
    requires
        system.wf(),
    ensures
        (r == Reply::EmptyOk <==> exists|i: int|
            #![auto]
            0 <= i < system.users@.len() && system.users@[i].username@ == username@
                && system.users@[i].active && system.users@[i].password_hash
                == crate::checksum::fnv1a(password@)),
        r == Reply::EmptyOk ==> final(ctx).authenticated && exists|i: int|
            #![auto]
            0 <= i < system.users@.len() && system.users@[i].username@ == username@
                && system.users@[i].active && system.users@[i].id == final(ctx).user_id,
        !(r == Reply::EmptyOk) ==> r == Reply::Error(IggyError::InvalidCredentials)
            && *final(ctx) == *old(ctx),
        final(ctx).client_id == old(ctx).client_id,
{
    match system.login(username.as_slice(), password.as_slice()) {
        Ok(uid) => {
            ctx.user_id = uid;
            ctx.authenticated = true;
            Reply::EmptyOk
        },
        Err(e) => Reply::Error(e),
    }
}

/// The bytes of a stream-id list reply: each id as four little-endian
/// bytes, in registry order.
pub open spec fn ids_payload(streams: Seq<crate::stream::Stream>) -> Seq<u8>
    decreases streams.len(),
{
    if streams.len() == 0 {
        Seq::<u8>::empty()
    } else {
        ids_payload(streams.drop_last()) + spec_u32_to_le_bytes(streams.last().id)
    }
}

/// The bytes of a client-list reply: each registered client id as four
/// little-endian bytes, in registry order.
pub open spec fn clients_payload(clients: Seq<crate::system::ClientEntry>) -> Seq<u8>
    decreases clients.len(),
{
    if clients.len() == 0 {
        Seq::<u8>::empty()
    } else {
        clients_payload(clients.drop_last()) + spec_u32_to_le_bytes(clients.last().client_id)
    }
}

/// Whether the manage gate denies the matched stream to this user.
pub open spec fn manage_denied(pre: System, user: u32, sm: crate::identifier::IdModel) -> bool {
    exists|s: int|
        #![trigger pre.streams@[s]]
        0 <= s < pre.streams@.len() && stream_matches(pre.streams@[s], sm)
            && !pre.permissioner.spec_can_manage_stream(user, pre.streams@[s].id)
}

/// Whether the stream-read gate denies the matched stream to this user.
pub open spec fn read_stream_denied(pre: System, user: u32, sm: crate::identifier::IdModel) -> bool {
    exists|s: int|
        #![trigger pre.streams@[s]]
        0 <= s < pre.streams@.len() && stream_matches(pre.streams@[s], sm)
            && !pre.permissioner.spec_can_read_stream(user, pre.streams@[s].id)
}

/// The whole outcome of creating a stream: denial, an illegal name, a
/// taken id or name, each exactly on its condition; otherwise the new
/// stream stands appended to the registry.
#[verifier::opaque]
pub open spec fn create_stream_outcome(
    pre: System,
    post: System,
    user: u32,
    stream_id: u32,
    nm: Seq<char>,
    now: u64,
    r: Reply,
) -> bool {
    let nb = vstd::utf8::encode_utf8(nm);
    let stored = crate::text::stored_name(nm);
    let legal = crate::text::name_matches(nm) && 1 <= nb.len() <= 255;
    let clash = exists|i: int| 0 <= i < pre.streams@.len() && ((#[trigger] pre.streams@[i]).id
        == stream_id || pre.streams@[i].name@ == stored);
    &&& !(r is OkPayload)
    &&& (r matches Reply::Error(e) ==> post.streams@ == pre.streams@)
    &&& (r matches Reply::Error(e) ==> (e == IggyError::Unauthorized || e
        == IggyError::ResourceNameInvalid || e == IggyError::StreamAlreadyExists))
    &&& ((r matches Reply::Error(e) && e == IggyError::Unauthorized)
        <==> !pre.permissioner.spec_can_manage_streams(user))
    &&& ((r matches Reply::Error(e) && e == IggyError::ResourceNameInvalid)
        <==> (pre.permissioner.spec_can_manage_streams(user) && !legal))
    &&& ((r matches Reply::Error(e) && e == IggyError::StreamAlreadyExists)
        <==> (pre.permissioner.spec_can_manage_streams(user) && legal && clash))
    &&& (r is EmptyOk ==> post.streams@.len() == pre.streams@.len() + 1
        && (forall|i: int| 0 <= i < pre.streams@.len() ==> post.streams@[i] == pre.streams@[i])
        && post.streams@.last().id == stream_id && post.streams@.last().name@ == stored
        && post.streams@.last().created_at == now && post.streams@.last().topics@
        =~= Seq::<crate::topic::Topic>::empty())
    &&& (r is EmptyOk <==> !(r matches Reply::Error(e)))
}

/// The whole outcome of deleting a stream: unknown stream or denial,
/// each exactly on its condition; otherwise exactly the matched stream
/// leaves the registry.
#[verifier::opaque]
pub open spec fn delete_stream_outcome(
    pre: System,
    post: System,
    user: u32,
    sm: crate::identifier::IdModel,
    r: Reply,
) -> bool {
    &&& !(r is OkPayload)
    &&& (r matches Reply::Error(e) ==> post.streams@ == pre.streams@)
    &&& (r matches Reply::Error(e) ==> (e == IggyError::StreamNotFound || e
        == IggyError::Unauthorized))
    &&& ((r matches Reply::Error(e) && e == IggyError::StreamNotFound) <==> !some_stream(
        pre.streams@,
        sm,
    ))
    &&& ((r matches Reply::Error(e) && e == IggyError::Unauthorized) <==> manage_denied(
        pre,
        user,
        sm,
    ))
    &&& (r is EmptyOk ==> exists|i: int|
        #![trigger pre.streams@[i]]
        0 <= i < pre.streams@.len() && stream_matches(pre.streams@[i], sm) && post.streams@
            == pre.streams@.remove(i))
    &&& (r is EmptyOk <==> !(r matches Reply::Error(e)))
}

/// The whole outcome of creating a topic: unknown stream, denial, an
/// illegal name, a taken id or name, each exactly on its condition;
/// otherwise the topic stands appended to the matched stream.
#[verifier::opaque]
pub open spec fn create_topic_outcome(
    pre: System,
    post: System,
    user: u32,
    sm: crate::identifier::IdModel,
    topic_id: u32,
    nm: Seq<char>,
    partitions_count: u32,
    r: Reply,
) -> bool {
    let nb = vstd::utf8::encode_utf8(nm);
    let stored = crate::text::stored_name(nm);
    let legal = crate::text::name_matches(nm) && 1 <= nb.len() <= 255;
    let clash = exists|s: int, i: int|
        #![trigger pre.streams@[s].topics@[i]]
        0 <= s < pre.streams@.len() && stream_matches(pre.streams@[s], sm) && 0 <= i
            < pre.streams@[s].topics@.len() && ((#[trigger] pre.streams@[s].topics@[i]).id
            == topic_id || pre.streams@[s].topics@[i].name@ == stored);
    &&& !(r is OkPayload)
    &&& (r matches Reply::Error(e) ==> post.streams@ == pre.streams@)
    &&& (r matches Reply::Error(e) ==> (e == IggyError::StreamNotFound || e
        == IggyError::Unauthorized || e == IggyError::ResourceNameInvalid || e
        == IggyError::TopicAlreadyExists))
    &&& ((r matches Reply::Error(e) && e == IggyError::StreamNotFound) <==> !some_stream(
        pre.streams@,
        sm,
    ))
    &&& ((r matches Reply::Error(e) && e == IggyError::Unauthorized) <==> manage_denied(
        pre,
        user,
        sm,
    ))
    &&& ((r matches Reply::Error(e) && e == IggyError::ResourceNameInvalid) <==> (some_stream(
        pre.streams@,
        sm,
    ) && !manage_denied(pre, user, sm) && !legal))
    &&& ((r matches Reply::Error(e) && e == IggyError::TopicAlreadyExists) <==> (some_stream(
        pre.streams@,
        sm,
    ) && !manage_denied(pre, user, sm) && legal && clash))
    &&& (r is EmptyOk ==> legal && !clash)
    &&& (r is EmptyOk ==> exists|s: int|
        #![trigger pre.streams@[s]]
        {
            &&& 0 <= s < pre.streams@.len()
            &&& stream_matches(pre.streams@[s], sm)
            &&& post.streams@[s].topics@.len() == pre.streams@[s].topics@.len() + 1
            &&& post.streams@[s].topics@.last().id == topic_id
            &&& post.streams@[s].topics@.last().name@ == stored
            &&& post.streams@[s].topics@.last().partitions@.len() == partitions_count
            &&& forall|h: int| 0 <= h < pre.streams@.len() && h != s ==> post.streams@[h]
                == pre.streams@[h]
        })
    &&& (r is EmptyOk <==> !(r matches Reply::Error(e)))
}

/// The whole outcome of deleting a topic: unknown stream, denial,
/// unknown topic, each exactly on its condition; otherwise exactly the
/// matched topic leaves its stream.
#[verifier::opaque]
pub open spec fn delete_topic_outcome(
    pre: System,
    post: System,
    user: u32,
    sm: crate::identifier::IdModel,
    tm: crate::identifier::IdModel,
    r: Reply,
) -> bool {
    &&& !(r is OkPayload)
    &&& (r matches Reply::Error(e) ==> post.streams@ == pre.streams@)
    &&& (r matches Reply::Error(e) ==> (e == IggyError::StreamNotFound || e
        == IggyError::Unauthorized || e == IggyError::TopicNotFound))
    &&& ((r matches Reply::Error(e) && e == IggyError::StreamNotFound) <==> !some_stream(
        pre.streams@,
        sm,
    ))
    &&& ((r matches Reply::Error(e) && e == IggyError::Unauthorized) <==> manage_denied(
        pre,
        user,
        sm,
    ))
    &&& ((r matches Reply::Error(e) && e == IggyError::TopicNotFound) <==> (some_stream(
        pre.streams@,
        sm,
    ) && !manage_denied(pre, user, sm) && !some_topic(pre.streams@, sm, tm)))
    &&& (r is EmptyOk ==> exists|s: int, t: int|
        #![trigger pre.streams@[s].topics@[t]]
        {
            &&& 0 <= s < pre.streams@.len()
            &&& stream_matches(pre.streams@[s], sm)
            &&& 0 <= t < pre.streams@[s].topics@.len()
            &&& topic_matches(pre.streams@[s].topics@[t], tm)
            &&& post.streams@[s].topics@ == pre.streams@[s].topics@.remove(t)
            &&& forall|h: int| 0 <= h < pre.streams@.len() && h != s ==> post.streams@[h]
                == pre.streams@[h]
        })
    &&& (r is EmptyOk <==> !(r matches Reply::Error(e)))
}

/// The whole outcome of a create, delete or leave on a consumer group
/// (authentication is the only gate): each error exactly on its
/// condition; otherwise the group stands created, gone, or shrunk.
#[verifier::opaque]
pub open spec fn group_op_outcome(
    pre: System,
    post: System,
    client_id: u32,
    sm: crate::identifier::IdModel,
    tm: crate::identifier::IdModel,
    group_id: u32,
    op: GroupOp,
    r: Reply,
) -> bool {
    &&& !(r is OkPayload)
    &&& (r matches Reply::Error(e) ==> post.streams@ == pre.streams@)
    &&& (r matches Reply::Error(e) ==> (e == IggyError::StreamNotFound || e
        == IggyError::TopicNotFound || e == IggyError::ConsumerGroupNotFound || e
        == IggyError::ConsumerGroupAlreadyExists))
    &&& ((r matches Reply::Error(e) && e == IggyError::StreamNotFound) <==> !some_stream(
        pre.streams@,
        sm,
    ))
    &&& ((r matches Reply::Error(e) && e == IggyError::TopicNotFound) <==> (some_stream(
        pre.streams@,
        sm,
    ) && !some_topic(pre.streams@, sm, tm)))
    &&& ((r matches Reply::Error(e) && e == IggyError::ConsumerGroupAlreadyExists) <==> (op
        == GroupOp::Create && exists|s: int, t: int|
        #![trigger pre.streams@[s].topics@[t]]
        0 <= s < pre.streams@.len() && stream_matches(pre.streams@[s], sm) && 0 <= t
            < pre.streams@[s].topics@.len() && topic_matches(pre.streams@[s].topics@[t], tm) && (
        exists|g: int| 0 <= g < pre.streams@[s].topics@[t].consumer_groups@.len() && (
        #[trigger] pre.streams@[s].topics@[t].consumer_groups@[g]).id == group_id)))
    &&& ((r matches Reply::Error(e) && e == IggyError::ConsumerGroupNotFound) <==> (op
        != GroupOp::Create && exists|s: int, t: int|
        #![trigger pre.streams@[s].topics@[t]]
        0 <= s < pre.streams@.len() && stream_matches(pre.streams@[s], sm) && 0 <= t
            < pre.streams@[s].topics@.len() && topic_matches(pre.streams@[s].topics@[t], tm) && (
        forall|g: int| 0 <= g < pre.streams@[s].topics@[t].consumer_groups@.len() ==> (
        #[trigger] pre.streams@[s].topics@[t].consumer_groups@[g]).id != group_id)))
    &&& (r is EmptyOk ==> exists|s: int, t: int|
        #![trigger pre.streams@[s].topics@[t]]
        ({
            let gold = pre.streams@[s].topics@[t].consumer_groups@;
            let gnew = post.streams@[s].topics@[t].consumer_groups@;
            &&& 0 <= s < pre.streams@.len()
            &&& stream_matches(pre.streams@[s], sm)
            &&& 0 <= t < pre.streams@[s].topics@.len()
            &&& topic_matches(pre.streams@[s].topics@[t], tm)
            &&& post.streams@[s].topics@[t].partitions@ == pre.streams@[s].topics@[t].partitions@
            &&& (op == GroupOp::Create ==> gnew.len() == gold.len() + 1 && gnew.last().id
                == group_id && gnew.last().members@ =~= Seq::<u32>::empty())
            &&& (op == GroupOp::Delete ==> forall|g: int| 0 <= g < gnew.len() ==> (
            #[trigger] gnew[g]).id != group_id)
            &&& (op == GroupOp::Leave ==> exists|g: int|
                #![trigger gold[g]]
                0 <= g < gold.len() && gold[g].id == group_id && gnew[g].id == group_id
                    && gnew[g].partitions@ == gold[g].partitions@ && (forall|y: u32|
                    gnew[g].members@.contains(y) <==> (gold[g].members@.contains(y) && y
                        != client_id)))
            &&& forall|h: int| 0 <= h < pre.streams@.len() && h != s ==> post.streams@[h]
                == pre.streams@[h]
        }))
    &&& (r is EmptyOk <==> !(r matches Reply::Error(e)))
}

/// The whole outcome of a join: unknown stream or topic, denial by the
/// join gate, unknown group, each exactly on its condition; otherwise
/// the client stands in the group's sorted roster.
#[verifier::opaque]
pub open spec fn join_outcome(
    pre: System,
    post: System,
    user: u32,
    client_id: u32,
    sm: crate::identifier::IdModel,
    tm: crate::identifier::IdModel,
    group_id: u32,
    r: Reply,
) -> bool {
    &&& !(r is OkPayload)
    &&& (r matches Reply::Error(e) ==> post.streams@ == pre.streams@)
    &&& (r matches Reply::Error(e) ==> (e == IggyError::StreamNotFound || e
        == IggyError::TopicNotFound || e == IggyError::Unauthorized || e
        == IggyError::ConsumerGroupNotFound))
    &&& ((r matches Reply::Error(e) && e == IggyError::StreamNotFound) <==> !some_stream(
        pre.streams@,
        sm,
    ))
    &&& ((r matches Reply::Error(e) && e == IggyError::TopicNotFound) <==> (some_stream(
        pre.streams@,
        sm,
    ) && !some_topic(pre.streams@, sm, tm)))
    &&& ((r matches Reply::Error(e) && e == IggyError::Unauthorized) <==> (some_topic(
        pre.streams@,
        sm,
        tm,
    ) && read_stream_denied(pre, user, sm)))
    &&& ((r matches Reply::Error(e) && e == IggyError::ConsumerGroupNotFound)
        <==> (!read_stream_denied(pre, user, sm) && exists|s: int, t: int|
        #![trigger pre.streams@[s].topics@[t]]
        0 <= s < pre.streams@.len() && stream_matches(pre.streams@[s], sm) && 0 <= t
            < pre.streams@[s].topics@.len() && topic_matches(pre.streams@[s].topics@[t], tm) && (
        forall|g: int| 0 <= g < pre.streams@[s].topics@[t].consumer_groups@.len() ==> (
        #[trigger] pre.streams@[s].topics@[t].consumer_groups@[g]).id != group_id)))
    &&& (r is EmptyOk ==> exists|s: int, t: int|
        #![trigger pre.streams@[s].topics@[t]]
        ({
            let gold = pre.streams@[s].topics@[t].consumer_groups@;
            let gnew = post.streams@[s].topics@[t].consumer_groups@;
            &&& 0 <= s < pre.streams@.len()
            &&& stream_matches(pre.streams@[s], sm)
            &&& 0 <= t < pre.streams@[s].topics@.len()
            &&& topic_matches(pre.streams@[s].topics@[t], tm)
            &&& post.streams@[s].topics@[t].partitions@ == pre.streams@[s].topics@[t].partitions@
            &&& exists|g: int|
                #![trigger gold[g]]
                0 <= g < gold.len() && gold[g].id == group_id && gnew[g].id == group_id
                    && gnew[g].partitions@ == gold[g].partitions@ && (forall|y: u32|
                    gnew[g].members@.contains(y) <==> (gold[g].members@.contains(y) || y
                        == client_id))
            &&& forall|h: int| 0 <= h < pre.streams@.len() && h != s ==> post.streams@[h]
                == pre.streams@[h]
        }))
    &&& (r is EmptyOk <==> !(r matches Reply::Error(e)))
}

/// The whole outcome of renaming a stream: unknown stream, denial, an
/// illegal name, a name held by another stream, each exactly on its
/// condition; otherwise only the matched stream's name changes.
#[verifier::opaque]
pub open spec fn update_stream_outcome(
    pre: System,
    post: System,
    user: u32,
    sm: crate::identifier::IdModel,
    nm: Seq<char>,
    r: Reply,
) -> bool {
    let nb = vstd::utf8::encode_utf8(nm);
    let stored = crate::text::stored_name(nm);
    let legal = crate::text::name_matches(nm) && 1 <= nb.len() <= 255;
    let clash = exists|s: int, j: int|
        #![trigger pre.streams@[s], pre.streams@[j]]
        0 <= s < pre.streams@.len() && stream_matches(pre.streams@[s], sm) && 0 <= j
            < pre.streams@.len() && j != s && pre.streams@[j].name@ == stored;
    &&& !(r is OkPayload)
    &&& (r matches Reply::Error(e) ==> post.streams@ == pre.streams@)
    &&& (r matches Reply::Error(e) ==> (e == IggyError::StreamNotFound || e
        == IggyError::Unauthorized || e == IggyError::ResourceNameInvalid || e
        == IggyError::StreamAlreadyExists))
    &&& ((r matches Reply::Error(e) && e == IggyError::StreamNotFound) <==> !some_stream(
        pre.streams@,
        sm,
    ))
    &&& ((r matches Reply::Error(e) && e == IggyError::Unauthorized) <==> manage_denied(
        pre,
        user,
        sm,
    ))
    &&& ((r matches Reply::Error(e) && e == IggyError::ResourceNameInvalid) <==> (some_stream(
        pre.streams@,
        sm,
    ) && !manage_denied(pre, user, sm) && !legal))
    &&& ((r matches Reply::Error(e) && e == IggyError::StreamAlreadyExists) <==> (some_stream(
        pre.streams@,
        sm,
    ) && !manage_denied(pre, user, sm) && legal && clash))
    &&& (r is EmptyOk ==> exists|s: int|
        #![trigger pre.streams@[s]]
        {
            &&& 0 <= s < pre.streams@.len()
            &&& stream_matches(pre.streams@[s], sm)
            &&& post.streams@[s].name@ == stored
            &&& post.streams@[s].id == pre.streams@[s].id
            &&& post.streams@[s].created_at == pre.streams@[s].created_at
            &&& post.streams@[s].topics@ == pre.streams@[s].topics@
            &&& forall|h: int| 0 <= h < pre.streams@.len() && h != s ==> post.streams@[h]
                == pre.streams@[h]
        })
    &&& (r is EmptyOk <==> !(r matches Reply::Error(e)))
}

/// Whether the send gate denies the resolved topic to this user.
pub open spec fn send_denied(pre: System, user: u32, sm: crate::identifier::IdModel, tm: crate::identifier::IdModel) -> bool {
    exists|s: int, t: int|
        #![trigger pre.streams@[s].topics@[t]]
        0 <= s < pre.streams@.len() && stream_matches(pre.streams@[s], sm) && 0 <= t
            < pre.streams@[s].topics@.len() && topic_matches(pre.streams@[s].topics@[t], tm)
            && !pre.permissioner.spec_can_send(user, pre.streams@[s].id, pre.streams@[s].topics@[
            t
        ].id)
}

/// Whether the poll gate denies the resolved topic to this user.
pub open spec fn poll_denied(pre: System, user: u32, sm: crate::identifier::IdModel, tm: crate::identifier::IdModel) -> bool {
    exists|s: int, t: int|
        #![trigger pre.streams@[s].topics@[t]]
        0 <= s < pre.streams@.len() && stream_matches(pre.streams@[s], sm) && 0 <= t
            < pre.streams@[s].topics@.len() && topic_matches(pre.streams@[s].topics@[t], tm)
            && !pre.permissioner.spec_can_poll(user, pre.streams@[s].id, pre.streams@[s].topics@[
            t
        ].id)
}

/// The whole outcome of a send: authentication aside, each error comes
/// exactly on its condition — unknown stream, unknown topic, denial,
/// unroutable batch, exhausted id or offset space — and otherwise the
/// reply is empty success with the batch appended to exactly the
/// resolved partition.
#[verifier::opaque]
pub open spec fn send_outcome(
    pre: System,
    post: System,
    user: u32,
    sm: crate::identifier::IdModel,
    tm: crate::identifier::IdModel,
    partitioning: Partitioning,
    msgs: Seq<crate::partition::NewMessageView>,
    now: u64,
    id_seed: u128,
    r: Reply,
) -> bool {
    &&& !(r is OkPayload)
    &&& (r matches Reply::Error(e) ==> post.streams@ == pre.streams@)
    &&& (r matches Reply::Error(e) ==> (e == IggyError::Unauthorized || e
        == IggyError::StreamNotFound || e == IggyError::TopicNotFound || e
        == IggyError::PartitionNotFound || e == IggyError::OffsetOutOfRange))
    &&& ((r matches Reply::Error(e) && e == IggyError::StreamNotFound) <==> !some_stream(
        pre.streams@,
        sm,
    ))
    &&& ((r matches Reply::Error(e) && e == IggyError::TopicNotFound) <==> (some_stream(
        pre.streams@,
        sm,
    ) && !some_topic(pre.streams@, sm, tm)))
    &&& ((r matches Reply::Error(e) && e == IggyError::Unauthorized) <==> send_denied(
        pre,
        user,
        sm,
        tm,
    ))
    &&& ((r matches Reply::Error(e) && e == IggyError::PartitionNotFound) <==> (!send_denied(
        pre,
        user,
        sm,
        tm,
    ) && exists|s: int, t: int|
        #![trigger pre.streams@[s].topics@[t]]
        0 <= s < pre.streams@.len() && stream_matches(pre.streams@[s], sm) && 0 <= t
            < pre.streams@[s].topics@.len() && topic_matches(pre.streams@[s].topics@[t], tm)
            && pre.streams@[s].topics@[t].append_unroutable(partitioning)))
    &&& ((r matches Reply::Error(e) && e == IggyError::OffsetOutOfRange) <==> (!send_denied(
        pre,
        user,
        sm,
        tm,
    ) && exists|s: int, t: int|
        #![trigger pre.streams@[s].topics@[t]]
        0 <= s < pre.streams@.len() && stream_matches(pre.streams@[s], sm) && 0 <= t
            < pre.streams@[s].topics@.len() && topic_matches(pre.streams@[s].topics@[t], tm)
            && !pre.streams@[s].topics@[t].append_unroutable(partitioning)
            && pre.streams@[s].topics@[t].append_overflows(
            partitioning,
            msgs.len() as int,
            id_seed,
        )))
    &&& (r is EmptyOk ==> exists|s: int, t: int|
        #![trigger pre.streams@[s].topics@[t]]
        ({
            let told = pre.streams@[s].topics@[t];
            let tnew = post.streams@[s].topics@[t];
            let pold = told.partitions@;
            let pnew = tnew.partitions@;
            let pid = told.resolved_pid(partitioning);
            &&& 0 <= s < pre.streams@.len()
            &&& stream_matches(pre.streams@[s], sm)
            &&& 0 <= t < pre.streams@[s].topics@.len()
            &&& topic_matches(told, tm)
            &&& 1 <= pid <= pold.len()
            &&& pnew[pid - 1].msgs() =~= pold[pid - 1].msgs() + assigned_batch(
                msgs,
                pold[pid - 1].current_offset,
                now,
                id_seed,
            )
            &&& forall|p: int| 0 <= p < pnew.len() && p != pid - 1 ==> pnew[p] == pold[p]
            &&& forall|u: int| 0 <= u < pre.streams@[s].topics@.len() && u != t
                ==> post.streams@[s].topics@[u] == pre.streams@[s].topics@[u]
            &&& forall|h: int| 0 <= h < pre.streams@.len() && h != s ==> post.streams@[h]
                == pre.streams@[h]
        }))
    &&& (r is EmptyOk <==> !(r matches Reply::Error(e)))
}

/// The send arm of the dispatcher: the permissioner's send gate, then
/// the append; on success some partition of the named topic grew by
/// exactly the assigned batch.
pub fn handle_send_messages(
    system: &mut System,
    user_id: u32,
    stream_id: &Identifier,
    topic_id: &Identifier,
    partitioning: &Partitioning,
    messages: Vec<NewMessage>,
    now: u64,
    id_seed: u128,
) -> (r: Reply)
    requires
        old(system).wf(),
    ensures
        final(system).wf(),
        final(system).users@ == old(system).users@,
        final(system).clients@ == old(system).clients@,
        final(system).permissioner == old(system).permissioner,
        final(system).auth_enabled == old(system).auth_enabled,
        send_outcome(
            *old(system),
            *final(system),
            user_id,
            stream_id.model(),
            topic_id.model(),
            *partitioning,
            messages@.map_values(|m: NewMessage| m@),
            now,
            id_seed,
            r,
        ),
{
    proof {
        reveal(send_outcome);
    }
    let (sid, tid) = match resolve_ids(system, stream_id, topic_id) {
        Err(e) => {
            return Reply::Error(e);
        },
        Ok(p) => p,
    };
    match system.permissioner.append_messages(user_id, sid, tid) {
        Err(e) => {
            proof {
                assert(send_denied(*system, user_id, stream_id.model(), topic_id.model()));
            }
            Reply::Error(e)
        },
        Ok(()) => {
            proof {
                assert(!send_denied(*system, user_id, stream_id.model(), topic_id.model())) by {
                    if send_denied(*system, user_id, stream_id.model(), topic_id.model()) {
                        let (s2, t2) = choose|s2: int, t2: int|
                            #![trigger system.streams@[s2].topics@[t2]]
                            0 <= s2 < system.streams@.len() && stream_matches(
                                system.streams@[s2],
                                stream_id.model(),
                            ) && 0 <= t2 < system.streams@[s2].topics@.len() && topic_matches(
                                system.streams@[s2].topics@[t2],
                                topic_id.model(),
                            ) && !system.permissioner.spec_can_send(
                                user_id,
                                system.streams@[s2].id,
                                system.streams@[s2].topics@[t2].id,
                            );
                    }
                }
            }
            match system.append_messages(stream_id, topic_id, partitioning, messages, now, id_seed)
                {
                Ok(_) => Reply::EmptyOk,
                Err(e) => Reply::Error(e),
            }
        },
    }
}

/// The whole outcome of a poll: each error exactly on its condition —
/// unknown stream or topic, denial, unknown partition, offset past the
/// log — and otherwise a payload encoding exactly the resolved window.
#[verifier::opaque]
pub open spec fn poll_outcome(
    pre: System,
    post: System,
    user: u32,
    consumer: Consumer,
    sm: crate::identifier::IdModel,
    tm: crate::identifier::IdModel,
    partition_id: Option<u32>,
    strategy: PollingStrategy,
    count: u32,
    auto_commit: bool,
    r: Reply,
) -> bool {
    let pid = spec_partition_or_default(partition_id);
    &&& !(r is EmptyOk)
    &&& (r matches Reply::Error(e) ==> post.streams@ == pre.streams@)
    &&& (r matches Reply::Error(e) ==> (e == IggyError::Unauthorized || e
        == IggyError::StreamNotFound || e == IggyError::TopicNotFound || e
        == IggyError::PartitionNotFound || e == IggyError::OffsetOutOfRange))
    &&& ((r matches Reply::Error(e) && e == IggyError::StreamNotFound) <==> !some_stream(
        pre.streams@,
        sm,
    ))
    &&& ((r matches Reply::Error(e) && e == IggyError::TopicNotFound) <==> (some_stream(
        pre.streams@,
        sm,
    ) && !some_topic(pre.streams@, sm, tm)))
    &&& ((r matches Reply::Error(e) && e == IggyError::Unauthorized) <==> poll_denied(
        pre,
        user,
        sm,
        tm,
    ))
    &&& ((r matches Reply::Error(e) && e == IggyError::PartitionNotFound) <==> (!poll_denied(
        pre,
        user,
        sm,
        tm,
    ) && exists|s: int, t: int|
        #![trigger pre.streams@[s].topics@[t]]
        0 <= s < pre.streams@.len() && stream_matches(pre.streams@[s], sm) && 0 <= t
            < pre.streams@[s].topics@.len() && topic_matches(pre.streams@[s].topics@[t], tm)
            && (pid < 1 || pid > pre.streams@[s].topics@[t].partitions@.len())))
    &&& ((r matches Reply::Error(e) && e == IggyError::OffsetOutOfRange) <==> (!poll_denied(
        pre,
        user,
        sm,
        tm,
    ) && exists|s: int, t: int|
        #![trigger pre.streams@[s].topics@[t]]
        0 <= s < pre.streams@.len() && stream_matches(pre.streams@[s], sm) && 0 <= t
            < pre.streams@[s].topics@.len() && topic_matches(pre.streams@[s].topics@[t], tm)
            && pre.streams@[s].topics@[t].poll_out_of_range(pid, strategy)))
    &&& (r matches Reply::OkPayload(p) ==> exists|s: int, t: int|
        #![trigger pre.streams@[s].topics@[t]]
        ({
            let parts = pre.streams@[s].topics@[t].partitions@;
            let pnew = post.streams@[s].topics@[t].partitions@;
            &&& 0 <= s < pre.streams@.len()
            &&& stream_matches(pre.streams@[s], sm)
            &&& 0 <= t < pre.streams@[s].topics@.len()
            &&& topic_matches(pre.streams@[s].topics@[t], tm)
            &&& 1 <= pid <= parts.len()
            &&& ({
                let part = parts[pid - 1];
                let pn = pnew[pid - 1];
                let key = spec_consumer_key(consumer);
                let window = part.poll_window(
                    part.start_of(key, strategy, count).unwrap(),
                    count as int,
                );
                &&& part.start_of(key, strategy, count) matches Some(st)
                &&& p@ == poll_reply_payload(window)
                &&& pn.msgs() == part.msgs()
                &&& (if auto_commit && window.len() > 0 {
                    pn.stored_offset(key) == Some(window.last().offset)
                } else {
                    pn.consumer_offsets@ == part.consumer_offsets@
                })
            })
            &&& forall|h: int| 0 <= h < pre.streams@.len() && h != s ==> post.streams@[h]
                == pre.streams@[h]
        }))
    &&& (r is OkPayload <==> !(r matches Reply::Error(e)))
}

/// The poll arm of the dispatcher: the permissioner's poll gate, then
/// the poll; a success carries the encoded window of the polled
/// partition.
pub fn handle_poll_messages(
    system: &mut System,
    user_id: u32,
    consumer: &Consumer,
    stream_id: &Identifier,
    topic_id: &Identifier,
    partition_id: Option<u32>,
    strategy: PollingStrategy,
    count: u32,
    auto_commit: bool,
) -> (r: Reply)
    requires
        old(system).wf(),
    ensures
        final(system).wf(),
        final(system).users@ == old(system).users@,
        final(system).clients@ == old(system).clients@,
        final(system).permissioner == old(system).permissioner,
        final(system).auth_enabled == old(system).auth_enabled,
        poll_outcome(
            *old(system),
            *final(system),
            user_id,
            *consumer,
            stream_id.model(),
            topic_id.model(),
            partition_id,
            strategy,
            count,
            auto_commit,
            r,
        ),
{
    proof {
        reveal(poll_outcome);
    }
    let (sid, tid) = match resolve_ids(system, stream_id, topic_id) {
        Err(e) => {
            return Reply::Error(e);
        },
        Ok(p) => p,
    };
    match system.permissioner.poll_messages(user_id, sid, tid) {
        Err(e) => {
            proof {
                assert(poll_denied(*system, user_id, stream_id.model(), topic_id.model()));
            }
            Reply::Error(e)
        },
        Ok(()) => {
            proof {
                assert(!poll_denied(*system, user_id, stream_id.model(), topic_id.model())) by {
                    if poll_denied(*system, user_id, stream_id.model(), topic_id.model()) {
                        let (s2, t2) = choose|s2: int, t2: int|
                            #![trigger system.streams@[s2].topics@[t2]]
                            0 <= s2 < system.streams@.len() && stream_matches(
                                system.streams@[s2],
                                stream_id.model(),
                            ) && 0 <= t2 < system.streams@[s2].topics@.len() && topic_matches(
                                system.streams@[s2].topics@[t2],
                                topic_id.model(),
                            ) && !system.permissioner.spec_can_poll(
                                user_id,
                                system.streams@[s2].id,
                                system.streams@[s2].topics@[t2].id,
                            );
                    }
                }
            }
            let pid = match partition_id {
                Some(p) => p,
                None => 1,
            };
            let key = consumer_key_of(consumer);
            match system.poll_messages(stream_id, topic_id, pid, key, strategy, count, auto_commit) {
                Ok(out) => Reply::OkPayload(encode_poll_payload(out)),
                Err(e) => Reply::Error(e),
            }
        },
    }
}

/// The whole outcome of storing a consumer offset: authentication is
/// the only gate; each error exactly on its condition, otherwise empty
/// success with exactly that offset stored for exactly that key.
#[verifier::opaque]
pub open spec fn store_offset_outcome(
    pre: System,
    post: System,
    consumer: Consumer,
    sm: crate::identifier::IdModel,
    tm: crate::identifier::IdModel,
    partition_id: Option<u32>,
    offset: u64,
    r: Reply,
) -> bool {
    let pid = spec_partition_or_default(partition_id);
    let key = spec_consumer_key(consumer);
    &&& !(r is OkPayload)
    &&& (r matches Reply::Error(e) ==> post.streams@ == pre.streams@)
    &&& (r matches Reply::Error(e) ==> (e == IggyError::StreamNotFound || e
        == IggyError::TopicNotFound || e == IggyError::PartitionNotFound))
    &&& ((r matches Reply::Error(e) && e == IggyError::StreamNotFound) <==> !some_stream(
        pre.streams@,
        sm,
    ))
    &&& ((r matches Reply::Error(e) && e == IggyError::TopicNotFound) <==> (some_stream(
        pre.streams@,
        sm,
    ) && !some_topic(pre.streams@, sm, tm)))
    &&& ((r matches Reply::Error(e) && e == IggyError::PartitionNotFound) <==> exists|
        s: int,
        t: int,
    |
        #![trigger pre.streams@[s].topics@[t]]
        0 <= s < pre.streams@.len() && stream_matches(pre.streams@[s], sm) && 0 <= t
            < pre.streams@[s].topics@.len() && topic_matches(pre.streams@[s].topics@[t], tm)
            && (pid < 1 || pid > pre.streams@[s].topics@[t].partitions@.len()))
    &&& (r is EmptyOk ==> exists|s: int, t: int|
        #![trigger pre.streams@[s].topics@[t]]
        ({
            let pold = pre.streams@[s].topics@[t].partitions@;
            let pnew = post.streams@[s].topics@[t].partitions@;
            &&& 0 <= s < pre.streams@.len()
            &&& stream_matches(pre.streams@[s], sm)
            &&& 0 <= t < pre.streams@[s].topics@.len()
            &&& topic_matches(pre.streams@[s].topics@[t], tm)
            &&& 1 <= pid <= pold.len()
            &&& pnew[pid - 1].stored_offset(key) == Some(offset)
            &&& (forall|other: crate::partition::ConsumerKey| other != key ==> #[trigger] pnew[
                pid - 1
            ].stored_offset(other) == pold[pid - 1].stored_offset(other))
            &&& pnew[pid - 1].msgs() == pold[pid - 1].msgs()
            &&& forall|p: int| 0 <= p < pnew.len() && p != pid - 1 ==> pnew[p] == pold[p]
            &&& forall|u: int| 0 <= u < pre.streams@[s].topics@.len() && u != t
                ==> post.streams@[s].topics@[u] == pre.streams@[s].topics@[u]
            &&& forall|h: int| 0 <= h < pre.streams@.len() && h != s ==> post.streams@[h]
                == pre.streams@[h]
        }))
    &&& (r is EmptyOk <==> !(r matches Reply::Error(e)))
}

/// The whole outcome of reading a consumer offset: each error exactly on
/// its condition, otherwise a payload of exactly the stored offset as
/// eight little-endian bytes, zero when nothing is stored, with the
/// engine unchanged.
#[verifier::opaque]
pub open spec fn get_offset_outcome(
    pre: System,
    consumer: Consumer,
    sm: crate::identifier::IdModel,
    tm: crate::identifier::IdModel,
    partition_id: Option<u32>,
    r: Reply,
) -> bool {
    let pid = spec_partition_or_default(partition_id);
    let key = spec_consumer_key(consumer);
    &&& !(r is EmptyOk)
    &&& (r matches Reply::Error(e) ==> (e == IggyError::StreamNotFound || e
        == IggyError::TopicNotFound || e == IggyError::PartitionNotFound))
    &&& ((r matches Reply::Error(e) && e == IggyError::StreamNotFound) <==> !some_stream(
        pre.streams@,
        sm,
    ))
    &&& ((r matches Reply::Error(e) && e == IggyError::TopicNotFound) <==> (some_stream(
        pre.streams@,
        sm,
    ) && !some_topic(pre.streams@, sm, tm)))
    &&& ((r matches Reply::Error(e) && e == IggyError::PartitionNotFound) <==> exists|
        s: int,
        t: int,
    |
        #![trigger pre.streams@[s].topics@[t]]
        0 <= s < pre.streams@.len() && stream_matches(pre.streams@[s], sm) && 0 <= t
            < pre.streams@[s].topics@.len() && topic_matches(pre.streams@[s].topics@[t], tm)
            && (pid < 1 || pid > pre.streams@[s].topics@[t].partitions@.len()))
    &&& (r matches Reply::OkPayload(p) ==> exists|s: int, t: int|
        #![trigger pre.streams@[s].topics@[t]]
        ({
            let parts = pre.streams@[s].topics@[t].partitions@;
            &&& 0 <= s < pre.streams@.len()
            &&& stream_matches(pre.streams@[s], sm)
            &&& 0 <= t < pre.streams@[s].topics@.len()
            &&& topic_matches(pre.streams@[s].topics@[t], tm)
            &&& 1 <= pid <= parts.len()
            &&& p@ == spec_u64_to_le_bytes(
                match parts[pid - 1].stored_offset(key) {
                    Some(v) => v,
                    None => 0u64,
                },
            )
        }))
    &&& (r is OkPayload <==> !(r matches Reply::Error(e)))
}

/// The offset-store arm of the dispatcher: authentication is the only
/// gate, as for every offset command.
pub fn handle_store_consumer_offset(
    system: &mut System,
    consumer: &Consumer,
    stream_id: &Identifier,
    topic_id: &Identifier,
    partition_id: Option<u32>,
    offset: u64,
) -> (r: Reply)
    requires
        old(system).wf(),
    ensures
        final(system).wf(),
        final(system).users@ == old(system).users@,
        final(system).clients@ == old(system).clients@,
        final(system).permissioner == old(system).permissioner,
        final(system).auth_enabled == old(system).auth_enabled,
        store_offset_outcome(
            *old(system),
            *final(system),
            *consumer,
            stream_id.model(),
            topic_id.model(),
            partition_id,
            offset,
            r,
        ),
{
    proof {
        reveal(store_offset_outcome);
    }
    let pid = match partition_id {
        Some(p) => p,
        None => 1,
    };
    let key = consumer_key_of(consumer);
    match system.store_consumer_offset(stream_id, topic_id, pid, key, offset) {
        Ok(()) => Reply::EmptyOk,
        Err(e) => Reply::Error(e),
    }
}

/// The offset-read arm of the dispatcher: replies with the stored offset
/// as eight little-endian bytes, zero when nothing is stored.
pub fn handle_get_consumer_offset(
    system: &System,
    consumer: &Consumer,
    stream_id: &Identifier,
    topic_id: &Identifier,
    partition_id: Option<u32>,
) -> (r: Reply)
    requires
        system.wf(),
    ensures
        get_offset_outcome(
            *system,
            *consumer,
            stream_id.model(),
            topic_id.model(),
            partition_id,
            r,
        ),
{
    proof {
        reveal(get_offset_outcome);
    }
    let pid = match partition_id {
        Some(p) => p,
        None => 1,
    };
    let key = consumer_key_of(consumer);
    match system.get_consumer_offset(stream_id, topic_id, pid, key) {
        Ok(offset) => Reply::OkPayload(u64_to_le_bytes(offset)),
        Err(e) => Reply::Error(e),
    }
}

/// The stream-list arm of the dispatcher: the list gate, then the ids
/// of every stream as four little-endian bytes each.
pub fn handle_get_streams(system: &System, user_id: u32) -> (r: Reply)
    requires
        system.wf(),
    ensures
        r is OkPayload <==> (!system.permissioner.enabled || (
        match crate::permissioner::assoc_global(system.permissioner.users_permissions@, user_id) {
            Some(g) => g.read_streams,
            None => false,
        })),
        !(r is OkPayload) ==> r == Reply::Error(IggyError::Unauthorized),
        r matches Reply::OkPayload(p) ==> p@ == ids_payload(system.streams@),
{
    match system.permissioner.get_streams(user_id) {
        Err(e) => Reply::Error(e),
        Ok(()) => {
            let ids = system.get_stream_ids();
            let mut payload: Vec<u8> = Vec::new();
            let n = ids.len();
            let mut i: usize = 0;
            while i < n
                invariant
                    i <= n,
                    n == ids@.len(),
                    n == system.streams@.len(),
                    forall|j: int| 0 <= j < n ==> ids@[j] == (#[trigger] system.streams@[j]).id,
                    payload@ =~= ids_payload(system.streams@.take(i as int)),
                decreases n - i,
            {
                let mut id_bytes = u32_to_le_bytes(ids[i]);
                payload.append(&mut id_bytes);
                i = i + 1;
                proof {
                    assert(system.streams@.take(i as int).drop_last() =~= system.streams@.take(
                        i as int - 1,
                    ));
                    assert(system.streams@.take(i as int).last() == system.streams@[i as int - 1]);
                    assert(payload@ =~= ids_payload(system.streams@.take(i as int)));
                }
            }
            proof {
                assert(system.streams@.take(n as int) =~= system.streams@);
            }
            Reply::OkPayload(payload)
        },
    }
}

/// The stream-creation arm of the dispatcher.
pub fn handle_create_stream(system: &mut System, user_id: u32, stream_id: u32, name: &str, now: u64) -> (r:
    Reply)
    requires
        old(system).wf(),
    ensures
        final(system).wf(),
        final(system).users@ == old(system).users@,
        final(system).clients@ == old(system).clients@,
        final(system).permissioner == old(system).permissioner,
        final(system).auth_enabled == old(system).auth_enabled,
        create_stream_outcome(*old(system), *final(system), user_id, stream_id, name@, now, r),
{
    proof {
        reveal(create_stream_outcome);
    }
    match system.permissioner.create_stream(user_id) {
        Err(e) => Reply::Error(e),
        Ok(()) => match system.create_stream(stream_id, name, now) {
            Ok(()) => Reply::EmptyOk,
            Err(e) => Reply::Error(e),
        },
    }
}

/// The stream-deletion arm of the dispatcher: resolution first, then the
/// manage gate, then the removal.
pub fn handle_delete_stream(system: &mut System, user_id: u32, stream_id: &Identifier) -> (r: Reply)
    requires
        old(system).wf(),
    ensures
        final(system).wf(),
        final(system).users@ == old(system).users@,
        final(system).clients@ == old(system).clients@,
        final(system).permissioner == old(system).permissioner,
        final(system).auth_enabled == old(system).auth_enabled,
        delete_stream_outcome(*old(system), *final(system), user_id, stream_id.model(), r),
{
    proof {
        reveal(delete_stream_outcome);
    }
    let idx = match system.find_stream(stream_id) {
        None => {
            proof {
                assert(!some_stream(system.streams@, stream_id.model())) by {
                    if some_stream(system.streams@, stream_id.model()) {
                        let w = choose|i: int| 0 <= i < system.streams@.len() && stream_matches(
                            #[trigger] system.streams@[i],
                            stream_id.model(),
                        );
                        assert(crate::system::stream_pos(system.streams@, stream_id.model())
                            is Some);
                    }
                }
            }
            return Reply::Error(IggyError::StreamNotFound);
        },
        Some(i) => i,
    };
    let sid = system.streams[idx].id;
    match system.permissioner.delete_stream(user_id, sid) {
        Err(e) => {
            proof {
                assert(manage_denied(*system, user_id, stream_id.model()));
            }
            Reply::Error(e)
        },
        Ok(()) => {
            proof {
                assert(!manage_denied(*system, user_id, stream_id.model())) by {
                    if manage_denied(*system, user_id, stream_id.model()) {
                        let s2 = choose|s2: int|
                            #![trigger system.streams@[s2]]
                            0 <= s2 < system.streams@.len() && stream_matches(
                                system.streams@[s2],
                                stream_id.model(),
                            ) && !system.permissioner.spec_can_manage_stream(
                                user_id,
                                system.streams@[s2].id,
                            );
                        lemma_stream_match_unique(*system, stream_id.model(), s2, idx as int);
                    }
                }
            }
            match system.delete_stream(stream_id) {
                Ok(_) => Reply::EmptyOk,
                Err(e) => Reply::Error(e),
            }
        },
    }
}

/// The topic-creation arm of the dispatcher.
#[verifier::rlimit(60)]
#[verifier::spinoff_prover]
pub fn handle_create_topic(
    system: &mut System,
    user_id: u32,
    stream_id: &Identifier,
    topic_id: u32,
    name: &str,
    partitions_count: u32,
    message_expiry: Option<u64>,
) -> (r: Reply)
    requires
        old(system).wf(),
    ensures
        final(system).wf(),
        final(system).users@ == old(system).users@,
        final(system).clients@ == old(system).clients@,
        final(system).permissioner == old(system).permissioner,
        final(system).auth_enabled == old(system).auth_enabled,
        create_topic_outcome(
            *old(system),
            *final(system),
            user_id,
            stream_id.model(),
            topic_id,
            name@,
            partitions_count,
            r,
        ),
{
    proof {
        reveal(create_topic_outcome);
        assert(vstd::string::StringSliceAdditionalSpecFns::spec_bytes(name)
            == vstd::utf8::encode_utf8(name@));
    }
    let ghost pre = *system;
    let idx = match system.find_stream(stream_id) {
        None => {
            proof {
                assert(!some_stream(system.streams@, stream_id.model())) by {
                    if some_stream(system.streams@, stream_id.model()) {
                        let w = choose|i: int| 0 <= i < system.streams@.len() && stream_matches(
                            #[trigger] system.streams@[i],
                            stream_id.model(),
                        );
                        assert(crate::system::stream_pos(system.streams@, stream_id.model())
                            is Some);
                    }
                }
            }
            return Reply::Error(IggyError::StreamNotFound);
        },
        Some(i) => i,
    };
    let sid = system.streams[idx].id;
    match system.permissioner.create_topic(user_id, sid) {
        Err(e) => {
            proof {
                assert(manage_denied(*system, user_id, stream_id.model()));
            }
            Reply::Error(e)
        },
        Ok(()) => {
            proof {
                assert(!manage_denied(*system, user_id, stream_id.model())) by {
                    if manage_denied(*system, user_id, stream_id.model()) {
                        let s2 = choose|s2: int|
                            #![trigger system.streams@[s2]]
                            0 <= s2 < system.streams@.len() && stream_matches(
                                system.streams@[s2],
                                stream_id.model(),
                            ) && !system.permissioner.spec_can_manage_stream(
                                user_id,
                                system.streams@[s2].id,
                            );
                        lemma_stream_match_unique(*system, stream_id.model(), s2, idx as int);
                    }
                }
            }
            match system.create_topic(stream_id, topic_id, name, partitions_count, message_expiry)
                {
                Ok(()) => Reply::EmptyOk,
                Err(e) => Reply::Error(e),
            }
        },
    }
}

/// The topic-deletion arm of the dispatcher.
pub fn handle_delete_topic(
    system: &mut System,
    user_id: u32,
    stream_id: &Identifier,
    topic_id: &Identifier,
) -> (r: Reply)
    requires
        old(system).wf(),
    ensures
        final(system).wf(),
        final(system).users@ == old(system).users@,
        final(system).clients@ == old(system).clients@,
        final(system).permissioner == old(system).permissioner,
        final(system).auth_enabled == old(system).auth_enabled,
        delete_topic_outcome(
            *old(system),
            *final(system),
            user_id,
            stream_id.model(),
            topic_id.model(),
            r,
        ),
{
    proof {
        reveal(delete_topic_outcome);
    }
    let idx = match system.find_stream(stream_id) {
        None => {
            proof {
                assert(!some_stream(system.streams@, stream_id.model())) by {
                    if some_stream(system.streams@, stream_id.model()) {
                        let w = choose|i: int| 0 <= i < system.streams@.len() && stream_matches(
                            #[trigger] system.streams@[i],
                            stream_id.model(),
                        );
                        assert(crate::system::stream_pos(system.streams@, stream_id.model())
                            is Some);
                    }
                }
            }
            return Reply::Error(IggyError::StreamNotFound);
        },
        Some(i) => i,
    };
    let sid = system.streams[idx].id;
    match system.permissioner.delete_topic(user_id, sid) {
        Err(e) => {
            proof {
                assert(manage_denied(*system, user_id, stream_id.model()));
            }
            Reply::Error(e)
        },
        Ok(()) => {
            proof {
                assert(!manage_denied(*system, user_id, stream_id.model())) by {
                    if manage_denied(*system, user_id, stream_id.model()) {
                        let s2 = choose|s2: int|
                            #![trigger system.streams@[s2]]
                            0 <= s2 < system.streams@.len() && stream_matches(
                                system.streams@[s2],
                                stream_id.model(),
                            ) && !system.permissioner.spec_can_manage_stream(
                                user_id,
                                system.streams@[s2].id,
                            );
                        lemma_stream_match_unique(*system, stream_id.model(), s2, idx as int);
                    }
                }
            }
            match system.delete_topic(stream_id, topic_id) {
                Ok(_) => Reply::EmptyOk,
                Err(e) => Reply::Error(e),
            }
        },
    }
}

/// The create, delete and leave arms on consumer groups: authentication
/// is the only gate, as in the binary handlers.
pub fn handle_group_op(
    system: &mut System,
    client_id: u32,
    stream_id: &Identifier,
    topic_id: &Identifier,
    group_id: u32,
    op: GroupOp,
) -> (r: Reply)
    requires
        old(system).wf(),
        op != GroupOp::Join,
    ensures
        final(system).wf(),
        final(system).users@ == old(system).users@,
        final(system).clients@ == old(system).clients@,
        final(system).permissioner == old(system).permissioner,
        final(system).auth_enabled == old(system).auth_enabled,
        group_op_outcome(
            *old(system),
            *final(system),
            client_id,
            stream_id.model(),
            topic_id.model(),
            group_id,
            op,
            r,
        ),
{
    proof {
        reveal(group_op_outcome);
    }
    match system.consumer_group_op(stream_id, topic_id, group_id, client_id, op) {
        Ok(()) => Reply::EmptyOk,
        Err(e) => Reply::Error(e),
    }
}

/// The join arm of the dispatcher: resolution, the join gate, then the
/// roster update.
pub fn handle_join_consumer_group(
    system: &mut System,
    user_id: u32,
    client_id: u32,
    stream_id: &Identifier,
    topic_id: &Identifier,
    group_id: u32,
) -> (r: Reply)
    requires
        old(system).wf(),
    ensures
        final(system).wf(),
        final(system).users@ == old(system).users@,
        final(system).clients@ == old(system).clients@,
        final(system).permissioner == old(system).permissioner,
        final(system).auth_enabled == old(system).auth_enabled,
        join_outcome(
            *old(system),
            *final(system),
            user_id,
            client_id,
            stream_id.model(),
            topic_id.model(),
            group_id,
            r,
        ),
{
    proof {
        reveal(join_outcome);
    }
    let (sid, tid) = match resolve_ids(system, stream_id, topic_id) {
        Err(e) => {
            return Reply::Error(e);
        },
        Ok(p) => p,
    };
    match system.permissioner.join_consumer_group(user_id, sid) {
        Err(e) => {
            proof {
                assert(read_stream_denied(*system, user_id, stream_id.model()));
            }
            Reply::Error(e)
        },
        Ok(()) => {
            proof {
                assert(!read_stream_denied(*system, user_id, stream_id.model())) by {
                    if read_stream_denied(*system, user_id, stream_id.model()) {
                        let s2 = choose|s2: int|
                            #![trigger system.streams@[s2]]
                            0 <= s2 < system.streams@.len() && stream_matches(
                                system.streams@[s2],
                                stream_id.model(),
                            ) && !system.permissioner.spec_can_read_stream(
                                user_id,
                                system.streams@[s2].id,
                            );
                    }
                }
            }
            match system.consumer_group_op(
                stream_id,
                topic_id,
                group_id,
                client_id,
                GroupOp::Join,
            ) {
                Ok(()) => Reply::EmptyOk,
                Err(e) => Reply::Error(e),
            }
        },
    }
}

/// The stream-rename arm of the dispatcher.
pub fn handle_update_stream(system: &mut System, user_id: u32, stream_id: &Identifier, name: &str) -> (r:
    Reply)
    requires
        old(system).wf(),
    ensures
        final(system).wf(),
        final(system).users@ == old(system).users@,
        final(system).clients@ == old(system).clients@,
        final(system).permissioner == old(system).permissioner,
        final(system).auth_enabled == old(system).auth_enabled,
        update_stream_outcome(*old(system), *final(system), user_id, stream_id.model(), name@, r),
{
    proof {
        reveal(update_stream_outcome);
    }
    let idx = match system.find_stream(stream_id) {
        None => {
            proof {
                assert(!some_stream(system.streams@, stream_id.model())) by {
                    if some_stream(system.streams@, stream_id.model()) {
                        let w = choose|i: int| 0 <= i < system.streams@.len() && stream_matches(
                            #[trigger] system.streams@[i],
                            stream_id.model(),
                        );
                        assert(crate::system::stream_pos(system.streams@, stream_id.model())
                            is Some);
                    }
                }
            }
            return Reply::Error(IggyError::StreamNotFound);
        },
        Some(i) => i,
    };
    let sid = system.streams[idx].id;
    match system.permissioner.update_stream(user_id, sid) {
        Err(e) => {
            proof {
                assert(manage_denied(*system, user_id, stream_id.model()));
            }
            Reply::Error(e)
        },
        Ok(()) => {
            proof {
                assert(!manage_denied(*system, user_id, stream_id.model())) by {
                    if manage_denied(*system, user_id, stream_id.model()) {
                        let s2 = choose|s2: int|
                            #![trigger system.streams@[s2]]
                            0 <= s2 < system.streams@.len() && stream_matches(
                                system.streams@[s2],
                                stream_id.model(),
                            ) && !system.permissioner.spec_can_manage_stream(
                                user_id,
                                system.streams@[s2].id,
                            );
                        lemma_stream_match_unique(*system, stream_id.model(), s2, idx as int);
                    }
                }
            }
            match system.update_stream(stream_id, name) {
                Ok(()) => Reply::EmptyOk,
                Err(e) => Reply::Error(e),
            }
        },
    }
}

/// The numeric stream and topic ids behind two identifiers; on success
/// every matching pair carries exactly these ids, and each error comes
/// exactly on its condition.
fn resolve_ids(system: &System, stream_id: &Identifier, topic_id: &Identifier) -> (r: Result<
    (u32, u32),
    IggyError,
>)
    requires
        system.wf(),
    ensures
        match r {
            Ok((sid, tid)) => {
                &&& some_topic(system.streams@, stream_id.model(), topic_id.model())
                &&& forall|s2: int, t2: int|
                    #![trigger system.streams@[s2].topics@[t2]]
                    0 <= s2 < system.streams@.len() && stream_matches(
                        system.streams@[s2],
                        stream_id.model(),
                    ) && 0 <= t2 < system.streams@[s2].topics@.len() && topic_matches(
                        system.streams@[s2].topics@[t2],
                        topic_id.model(),
                    ) ==> system.streams@[s2].id == sid && system.streams@[s2].topics@[t2].id
                        == tid
            },
            Err(e) => {
                &&& (e == IggyError::StreamNotFound || e == IggyError::TopicNotFound)
                &&& (e == IggyError::StreamNotFound <==> !some_stream(
                    system.streams@,
                    stream_id.model(),
                ))
                &&& (e == IggyError::TopicNotFound <==> (some_stream(
                    system.streams@,
                    stream_id.model(),
                ) && !some_topic(system.streams@, stream_id.model(), topic_id.model())))
            },
        },
{
    let (idx, tidx) = match system.locate(stream_id, topic_id) {
        Err(e) => {
            return Err(e);
        },
        Ok(p) => p,
    };
    Ok((system.streams[idx].id, system.streams[idx].topics[tidx].id))
}

/// One message's wire entry in a poll reply: offset, timestamp, payload
/// length, payload, checksum, integers little-endian.
pub open spec fn message_entry(m: crate::partition::MessageView) -> Seq<u8> {
    spec_u64_to_le_bytes(m.offset) + spec_u64_to_le_bytes(m.timestamp) + spec_u32_to_le_bytes(
        m.payload.len() as u32,
    ) + m.payload + spec_u32_to_le_bytes(m.checksum)
}

/// The poll reply payload: the message count, then every delivered
/// message's entry in order.
pub open spec fn poll_reply_payload(msgs: Seq<crate::partition::MessageView>) -> Seq<u8> {
    spec_u32_to_le_bytes(msgs.len() as u32) + poll_entries(msgs)
}

/// The concatenated message entries of a poll reply.
pub open spec fn poll_entries(msgs: Seq<crate::partition::MessageView>) -> Seq<u8>
    decreases msgs.len(),
{
    if msgs.len() == 0 {
        Seq::<u8>::empty()
    } else {
        poll_entries(msgs.drop_last()) + message_entry(msgs.last())
    }
}

/// Builds the poll reply payload.
fn encode_poll_payload(messages: Vec<Message>) -> (r: Vec<u8>)
    ensures
        r@ == poll_reply_payload(messages@.map_values(|m: Message| m@)),
{
    let ghost views = messages@.map_values(|m: Message| m@);
    let mut out = u32_to_le_bytes(messages.len() as u32);
    let n = messages.len();
    let mut i: usize = 0;
    while i < n
        invariant
            i <= n,
            n == messages@.len(),
            views == messages@.map_values(|m: Message| m@),
            out@ =~= spec_u32_to_le_bytes(n as u32) + poll_entries(views.take(i as int)),
        decreases n - i,
    {
        let m = &messages[i];
        let mut offset_bytes = u64_to_le_bytes(m.offset);
        out.append(&mut offset_bytes);
        let mut ts_bytes = u64_to_le_bytes(m.timestamp);
        out.append(&mut ts_bytes);
        let mut len_bytes = u32_to_le_bytes(m.payload.len() as u32);
        out.append(&mut len_bytes);
        let mut payload = vstd::slice::slice_to_vec(m.payload.as_slice());
        out.append(&mut payload);
        let mut checksum_bytes = u32_to_le_bytes(m.checksum);
        out.append(&mut checksum_bytes);
        i = i + 1;
        proof {
            assert(views.take(i as int).drop_last() =~= views.take(i as int - 1));
            assert(views.take(i as int).last() == views[i as int - 1]);
            assert(out@ =~= spec_u32_to_le_bytes(n as u32) + poll_entries(views.take(i as int)));
        }
    }
    proof {
        assert(views.take(n as int) =~= views);
    }
    out
}

} // verus!
