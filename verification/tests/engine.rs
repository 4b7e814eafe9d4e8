use iggy::checksum::hash32;
use iggy::dispatcher::{handle, Command, Reply};
use iggy::error::IggyError;
use iggy::identifier::Identifier;
use iggy::partition::{ConsumerKey, NewMessage, Partition, PollingStrategy};
use iggy::permissioner::{GlobalPermissions, Permissioner, StreamPermissions, TopicPermissions};
use iggy::system::{System, UserContext};
use iggy::text::{from_base64_as_bytes, is_resource_name_valid, to_lowercase_non_whitespace};
use iggy::topic::Partitioning;

fn fresh_system() -> System {
    System::new(false, 1024 * 1024 * 1024, b"root".to_vec(), hash32(b"secret"))
}

fn open_context() -> UserContext {
    let mut ctx = UserContext::from_client_id(1);
    ctx.disable_authentication();
    ctx
}

fn message(payload: &[u8]) -> NewMessage {
    NewMessage {
        id: 0,
        timestamp: 0,
        headers: None,
        payload: payload.to_vec(),
    }
}

fn numeric(id: u32) -> Identifier {
    Identifier::numeric(id).unwrap()
}

#[test]
fn system_and_consumer_group_scenarios_should_be_valid() {
    let mut system = fresh_system();
    let mut ctx = open_context();

    // Create stream 1 "s" and topic 1 "t" with 3 partitions, then send 30
    // balanced single-message batches.
    let r = handle(
        &mut system,
        &mut ctx,
        Command::CreateStream {
            stream_id: 1,
            name: "s".to_string(),
        },
        10,
        1,
    );
    assert!(matches!(r, Reply::EmptyOk));
    let r = handle(
        &mut system,
        &mut ctx,
        Command::CreateTopic {
            stream_id: numeric(1),
            topic_id: 1,
            partitions_count: 3,
            name: "t".to_string(),
            message_expiry: None,
        },
        11,
        2,
    );
    assert!(matches!(r, Reply::EmptyOk));
    for i in 0..30u64 {
        let r = handle(
            &mut system,
            &mut ctx,
            Command::SendMessages {
                stream_id: numeric(1),
                topic_id: numeric(1),
                partitioning: Partitioning::Balanced,
                messages: vec![message(format!("m{i}").as_bytes())],
            },
            100 + i,
            1000 + i as u128,
        );
        assert!(matches!(r, Reply::EmptyOk));
    }

    // Polling partition 1 from the start returns exactly its ten
    // messages, with contiguous offsets from zero.
    let polled = system
        .poll_messages(
            &numeric(1),
            &numeric(1),
            1,
            ConsumerKey::Consumer(9),
            PollingStrategy::First,
            100,
            false,
        )
        .unwrap();
    assert_eq!(polled.len(), 10);
    for (i, m) in polled.iter().enumerate() {
        assert_eq!(m.offset, i as u64);
        assert_eq!(m.checksum, hash32(&m.payload));
    }

    // Consumer group scenario: A joins and owns all three partitions; B
    // joins and takes the middle one; B leaves and A owns them all again.
    let r = handle(
        &mut system,
        &mut ctx,
        Command::CreateConsumerGroup {
            stream_id: numeric(1),
            topic_id: numeric(1),
            group_id: 1,
        },
        200,
        1,
    );
    assert!(matches!(r, Reply::EmptyOk));
    let mut ctx_a = open_context();
    let mut ctx_b = UserContext::from_client_id(2);
    ctx_b.disable_authentication();
    let join = |system: &mut System, ctx: &mut UserContext| {
        let r = handle(
            system,
            ctx,
            Command::JoinConsumerGroup {
                stream_id: numeric(1),
                topic_id: numeric(1),
                group_id: 1,
            },
            300,
            1,
        );
        assert!(matches!(r, Reply::EmptyOk));
    };
    join(&mut system, &mut ctx_a);
    let a = system
        .group_assignment(&numeric(1), &numeric(1), 1, 1)
        .unwrap();
    assert_eq!(a, vec![1, 2, 3]);
    join(&mut system, &mut ctx_b);
    let a = system
        .group_assignment(&numeric(1), &numeric(1), 1, 1)
        .unwrap();
    let b = system
        .group_assignment(&numeric(1), &numeric(1), 1, 2)
        .unwrap();
    assert_eq!(a, vec![1, 3]);
    assert_eq!(b, vec![2]);
    let r = handle(
        &mut system,
        &mut ctx_b,
        Command::LeaveConsumerGroup {
            stream_id: numeric(1),
            topic_id: numeric(1),
            group_id: 1,
        },
        400,
        1,
    );
    assert!(matches!(r, Reply::EmptyOk));
    let a = system
        .group_assignment(&numeric(1), &numeric(1), 1, 1)
        .unwrap();
    assert_eq!(a, vec![1, 2, 3]);
}

#[test]
fn key_hash_batches_land_on_one_partition() {
    let mut system = fresh_system();
    system.create_stream(1, "s", 0).unwrap();
    system
        .create_topic(&numeric(1), 1, "t", 3, None)
        .unwrap();
    let first = system
        .append_messages(
            &numeric(1),
            &numeric(1),
            &Partitioning::KeyHash(b"user-42".to_vec()),
            vec![message(b"a")],
            1,
            1,
        )
        .unwrap();
    let second = system
        .append_messages(
            &numeric(1),
            &numeric(1),
            &Partitioning::KeyHash(b"user-42".to_vec()),
            vec![message(b"b")],
            2,
            2,
        )
        .unwrap();
    assert_eq!(first, second);
    assert_eq!(first, hash32(b"user-42") % 3 + 1);
}

#[test]
fn consumer_offsets_store_and_read_back() {
    let mut system = fresh_system();
    system.create_stream(1, "s", 0).unwrap();
    system
        .create_topic(&numeric(1), 1, "t", 1, None)
        .unwrap();
    system
        .store_consumer_offset(&numeric(1), &numeric(1), 1, ConsumerKey::Consumer(5), 42)
        .unwrap();
    let got = system
        .get_consumer_offset(&numeric(1), &numeric(1), 1, ConsumerKey::Consumer(5))
        .unwrap();
    assert_eq!(got, 42);
    let absent = system
        .get_consumer_offset(&numeric(1), &numeric(1), 1, ConsumerKey::Consumer(6))
        .unwrap();
    assert_eq!(absent, 0);
}

#[test]
fn unauthenticated_commands_are_rejected_with_auth_enabled() {
    let mut system = System::new(true, 1 << 30, b"root".to_vec(), hash32(b"secret"));
    let mut ctx = UserContext::from_client_id(1);
    let r = handle(&mut system, &mut ctx, Command::GetStats, 0, 0);
    assert!(matches!(r, Reply::Error(IggyError::Unauthenticated)));
    let r = handle(
        &mut system,
        &mut ctx,
        Command::CreateStream {
            stream_id: 1,
            name: "s".to_string(),
        },
        0,
        0,
    );
    assert!(matches!(r, Reply::Error(IggyError::Unauthenticated)));
    // Ping passes, and so does a correct login.
    let r = handle(&mut system, &mut ctx, Command::Ping, 0, 0);
    assert!(matches!(r, Reply::EmptyOk));
    let r = handle(
        &mut system,
        &mut ctx,
        Command::LoginUser {
            username: b"root".to_vec(),
            password: b"secret".to_vec(),
        },
        0,
        0,
    );
    assert!(matches!(r, Reply::EmptyOk));
    let r = handle(
        &mut system,
        &mut ctx,
        Command::LoginUser {
            username: b"root".to_vec(),
            password: b"wrong".to_vec(),
        },
        0,
        0,
    );
    assert!(matches!(r, Reply::Error(IggyError::InvalidCredentials)));
}

#[test]
fn append_assigns_contiguous_offsets_and_fills_fields() {
    let mut p = Partition::new(1, 1, 1, 1 << 30);
    p.append_messages(
        vec![message(b"a"), message(b"b"), message(b"c")],
        77,
        500,
    );
    assert_eq!(p.current_offset, 3);
    for (i, m) in p.messages.iter().enumerate() {
        assert_eq!(m.offset, i as u64);
        assert_eq!(m.timestamp, 77);
        assert_eq!(m.id, 500 + i as u128);
        assert_eq!(m.checksum, hash32(&m.payload));
    }
    p.append_messages(vec![message(b"d")], 78, 600);
    assert_eq!(p.messages[3].offset, 3);
    assert_eq!(p.current_offset, 4);
}

#[test]
fn next_polls_with_auto_commit_are_idempotent() {
    let mut p = Partition::new(1, 1, 1, 1 << 30);
    p.append_messages(vec![message(b"a"), message(b"b")], 1, 10);
    let key = ConsumerKey::Consumer(1);
    let first = p
        .poll_messages(key, PollingStrategy::Next, 10, true)
        .unwrap();
    assert_eq!(first.len(), 2);
    let second = p
        .poll_messages(key, PollingStrategy::Next, 10, true)
        .unwrap();
    assert_eq!(second.len(), 0);
    p.append_messages(vec![message(b"c"), message(b"d"), message(b"e")], 2, 20);
    let third = p
        .poll_messages(key, PollingStrategy::Next, 10, true)
        .unwrap();
    assert_eq!(third.len(), 3);
    assert_eq!(third[0].offset, 2);
    assert_eq!(third[2].offset, 4);
}

#[test]
fn poll_strategies_resolve_documented_starts() {
    let mut p = Partition::new(1, 1, 1, 1 << 30);
    let mut batch = Vec::new();
    for i in 0..5u64 {
        batch.push(NewMessage {
            id: 0,
            timestamp: 10 * (i + 1),
            headers: None,
            payload: vec![i as u8],
        });
    }
    p.append_messages(batch, 1, 100);
    let key = ConsumerKey::Consumer(1);
    let last = p
        .poll_messages(key, PollingStrategy::Last, 2, false)
        .unwrap();
    assert_eq!(last[0].offset, 3);
    assert_eq!(last.len(), 2);
    let by_time = p
        .poll_messages(key, PollingStrategy::Timestamp(25), 10, false)
        .unwrap();
    assert_eq!(by_time[0].offset, 2);
    let at = p
        .poll_messages(key, PollingStrategy::Offset(4), 10, false)
        .unwrap();
    assert_eq!(at.len(), 1);
    let out_of_range = p.poll_messages(key, PollingStrategy::Offset(6), 10, false);
    assert!(matches!(out_of_range, Err(IggyError::OffsetOutOfRange)));
}

#[test]
fn permission_matrix_is_honoured() {
    let mut p = Permissioner::new(true);
    p.users_that_can_poll_messages_from_all_streams.push(1);
    p.users_that_can_send_messages_to_specific_streams.push((2, 7));
    p.users_streams_permissions.push((
        3,
        7,
        StreamPermissions {
            manage_stream: false,
            read_stream: true,
            poll_messages: false,
            send_messages: false,
            topics: Some(vec![(
                5,
                TopicPermissions {
                    poll_messages: true,
                    send_messages: false,
                },
            )]),
        },
    ));
    p.users_permissions.push((
        4,
        GlobalPermissions {
            manage_servers: false,
            read_servers: true,
            manage_streams: false,
            read_streams: false,
            poll_messages: false,
            send_messages: false,
        },
    ));

    // (user, stream, topic) rows for the poll gate.
    assert!(p.poll_messages(1, 9, 9).is_ok());
    assert!(p.poll_messages(2, 7, 1).is_err());
    assert!(p.append_messages(2, 7, 1).is_ok());
    assert!(p.append_messages(2, 8, 1).is_err());
    assert!(p.poll_messages(3, 7, 5).is_ok());
    assert!(p.poll_messages(3, 7, 6).is_err());
    assert!(p.get_stats(4).is_ok());
    assert!(p.get_stats(3).is_err());
    assert!(p.get_client(4).is_ok());
    assert!(p.get_clients(5).is_err());

    // Disabled mode always accepts.
    let open = Permissioner::new(false);
    assert!(open.poll_messages(9, 9, 9).is_ok());
    assert!(open.append_messages(9, 9, 9).is_ok());
    assert!(open.get_stats(9).is_ok());
}

#[test]
fn resource_names_are_validated_and_normalized() {
    assert!(is_resource_name_valid("my.topic-1 v2"));
    assert!(!is_resource_name_valid("bad/name"));
    assert!(!is_resource_name_valid(""));
    assert_eq!(to_lowercase_non_whitespace("My  Topic X"), "my.topic.x");
    assert_eq!(to_lowercase_non_whitespace("  lead trail  "), "lead.trail");
    let once = to_lowercase_non_whitespace("Some  Name Here");
    assert_eq!(to_lowercase_non_whitespace(&once), once);
    assert_eq!(from_base64_as_bytes("aGVsbG8=").unwrap(), b"hello");
    assert!(from_base64_as_bytes("!!!").is_err());
}

#[test]
fn names_are_matched_after_normalization() {
    let mut system = fresh_system();
    system.create_stream(1, "My Stream", 0).unwrap();
    assert!(system
        .find_stream(&Identifier::named("my.stream").unwrap())
        .is_some());
    assert!(system
        .find_stream(&Identifier::named("MY  STREAM").unwrap())
        .is_some());
    assert!(system
        .find_stream(&Identifier::named("my stream").unwrap())
        .is_some());
    assert!(system
        .find_stream(&Identifier::named("mystream").unwrap())
        .is_none());
    // Two raw spellings of one normalized name collide.
    assert!(matches!(
        system.create_stream(2, "MY   stream", 0),
        Err(IggyError::StreamAlreadyExists)
    ));
    system
        .create_topic(&numeric(1), 1, "Hot Topic", 1, None)
        .unwrap();
    let got = system.get_consumer_offset(
        &Identifier::named("my.stream").unwrap(),
        &Identifier::named("hot.topic").unwrap(),
        1,
        ConsumerKey::Consumer(1),
    );
    assert_eq!(got.unwrap(), 0);
}

#[test]
fn client_registry_replies_carry_ids_and_addresses() {
    let mut system = fresh_system();
    let mut ctx = open_context();
    let a = system.add_client(b"10.0.0.1:80".to_vec());
    let b = system.add_client(b"10.0.0.2:81".to_vec());
    let r = handle(&mut system, &mut ctx, Command::GetClients, 0, 0);
    match r {
        Reply::OkPayload(p) => {
            assert_eq!(p.len(), 8);
            assert_eq!(u32::from_le_bytes(p[0..4].try_into().unwrap()), a);
            assert_eq!(u32::from_le_bytes(p[4..8].try_into().unwrap()), b);
        }
        _ => panic!("expected a payload"),
    }
    let r = handle(&mut system, &mut ctx, Command::GetClient { client_id: b }, 0, 0);
    match r {
        Reply::OkPayload(p) => {
            assert_eq!(u32::from_le_bytes(p[0..4].try_into().unwrap()), b);
            assert_eq!(&p[4..], b"10.0.0.2:81");
        }
        _ => panic!("expected a payload"),
    }
    let r = handle(&mut system, &mut ctx, Command::GetClient { client_id: 99 }, 0, 0);
    assert!(matches!(r, Reply::Error(IggyError::InvalidCommand)));
    assert!(system.has_client(a));
    system.delete_client(a);
    assert!(!system.has_client(a));
    assert!(system.has_client(b));
}

#[test]
fn streams_can_be_listed_and_renamed() {
    let mut system = fresh_system();
    let mut ctx = open_context();
    system.create_stream(5, "alpha", 0).unwrap();
    system.create_stream(7, "beta", 0).unwrap();
    assert_eq!(system.get_stream_ids(), vec![5, 7]);
    let r = handle(&mut system, &mut ctx, Command::GetStreams, 0, 0);
    match r {
        Reply::OkPayload(p) => {
            assert_eq!(p.len(), 8);
            assert_eq!(u32::from_le_bytes(p[0..4].try_into().unwrap()), 5);
            assert_eq!(u32::from_le_bytes(p[4..8].try_into().unwrap()), 7);
        }
        _ => panic!("expected a payload"),
    }
    let r = handle(
        &mut system,
        &mut ctx,
        Command::UpdateStream {
            stream_id: numeric(5),
            name: "beta".to_string(),
        },
        0,
        0,
    );
    assert!(matches!(r, Reply::Error(IggyError::StreamAlreadyExists)));
    let r = handle(
        &mut system,
        &mut ctx,
        Command::UpdateStream {
            stream_id: numeric(5),
            name: "gamma".to_string(),
        },
        0,
        0,
    );
    assert!(matches!(r, Reply::EmptyOk));
    assert!(system.find_stream(&Identifier::named("gamma").unwrap()).is_some());
    let r = handle(
        &mut system,
        &mut ctx,
        Command::UpdateStream {
            stream_id: numeric(9),
            name: "delta".to_string(),
        },
        0,
        0,
    );
    assert!(matches!(r, Reply::Error(IggyError::StreamNotFound)));
}

#[test]
fn stream_and_topic_registries_enforce_uniqueness() {
    let mut system = fresh_system();
    assert!(system.create_stream(1, "alpha", 0).is_ok());
    assert!(matches!(
        system.create_stream(1, "beta", 0),
        Err(IggyError::StreamAlreadyExists)
    ));
    assert!(matches!(
        system.create_stream(2, "alpha", 0),
        Err(IggyError::StreamAlreadyExists)
    ));
    assert!(matches!(
        system.create_stream(2, "bad/name", 0),
        Err(IggyError::ResourceNameInvalid)
    ));
    assert!(system.create_topic(&numeric(1), 1, "t", 1, None).is_ok());
    assert!(matches!(
        system.create_topic(&numeric(1), 1, "u", 1, None),
        Err(IggyError::TopicAlreadyExists)
    ));
    assert!(matches!(
        system.delete_stream(&numeric(9)),
        Err(IggyError::StreamNotFound)
    ));
    assert_eq!(system.delete_stream(&numeric(1)).unwrap(), 1);
}

#[test]
fn cli_stream_actions_phrase_their_messages() {
    let create = iggy::cli::StreamCreate::new(3, "files".to_string());
    assert_eq!(create.explain(), "create stream with id: 3 and name: files");
    assert_eq!(
        create.success_message(),
        "Stream with id: 3 and name: files created"
    );
    let delete = iggy::cli::StreamDelete::new(3);
    assert_eq!(delete.explain(), "delete stream 3");
    assert_eq!(delete.success_message(), "Stream with id: 3 deleted");
}

#[test]
fn error_codes_are_stable_and_invertible() {
    assert_eq!(IggyError::InvalidCommand.as_code(), 1);
    assert_eq!(IggyError::Unauthenticated.as_code(), 3);
    assert_eq!(IggyError::Unauthorized.as_code(), 4);
    assert_eq!(IggyError::OffsetOutOfRange.as_code(), 12);
    for code in 1..=17u32 {
        let e = IggyError::from_code(code).unwrap();
        assert_eq!(e.as_code(), code);
    }
    assert!(IggyError::from_code(0).is_none());
    assert!(IggyError::from_code(18).is_none());
}

#[test]
fn fnv1a_hash_matches_reference_values() {
    assert_eq!(hash32(b""), 2166136261);
    assert_eq!(hash32(b"a"), 0xe40c292c);
    assert_eq!(hash32(b"foobar"), 0xbf9cf968);
}

#[test]
fn default_partition_id_is_one() {
    assert_eq!(iggy::get_consumer_offset::default_partition_id(), Some(1));
}
