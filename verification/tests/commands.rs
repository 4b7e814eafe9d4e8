use iggy::consumer::{Consumer, ConsumerKind};
use iggy::identifier::Identifier;
use iggy::get_consumer_offset::GetConsumerOffset;
use iggy::get_topic::GetTopic;

fn le_u32(bytes: &[u8]) -> u32 {
    u32::from_le_bytes(bytes.try_into().unwrap())
}

#[test]
fn get_consumer_offset_should_be_serialized_as_bytes() {
    let command = GetConsumerOffset {
        consumer: Consumer::new(1),
        stream_id: Identifier::numeric(2).unwrap(),
        topic_id: Identifier::numeric(3).unwrap(),
        partition_id: Some(4),
    };

    let bytes = command.as_bytes();
    let mut position = 0;
    let consumer_kind = ConsumerKind::from_code(bytes[0]).unwrap();
    let consumer_id = le_u32(&bytes[1..5]);
    let consumer = Consumer {
        kind: consumer_kind,
        id: consumer_id,
    };
    position += 5;
    let stream_id = Identifier::from_bytes(&bytes[position..]).unwrap();
    position += stream_id.get_size_bytes() as usize;
    let topic_id = Identifier::from_bytes(&bytes[position..]).unwrap();
    position += topic_id.get_size_bytes() as usize;
    let partition_id = le_u32(&bytes[position..position + 4]);

    assert!(!bytes.is_empty());
    assert_eq!(consumer, command.consumer);
    assert_eq!(stream_id, command.stream_id);
    assert_eq!(topic_id, command.topic_id);
    assert_eq!(Some(partition_id), command.partition_id);
}

#[test]
fn get_consumer_offset_should_be_deserialized_from_bytes() {
    let consumer = Consumer::new(1);
    let stream_id = Identifier::numeric(2).unwrap();
    let topic_id = Identifier::numeric(3).unwrap();
    let partition_id = 4u32;

    let consumer_bytes = consumer.as_bytes();
    let stream_id_bytes = stream_id.as_bytes();
    let topic_id_bytes = topic_id.as_bytes();
    let mut bytes = Vec::with_capacity(
        4 + consumer_bytes.len() + stream_id_bytes.len() + topic_id_bytes.len(),
    );
    bytes.extend(consumer_bytes);
    bytes.extend(stream_id_bytes);
    bytes.extend(topic_id_bytes);
    bytes.extend(partition_id.to_le_bytes());

    let command = GetConsumerOffset::from_bytes(&bytes);
    assert!(command.is_ok());

    let command = command.unwrap();
    assert_eq!(consumer, command.consumer);
    assert_eq!(command.stream_id, stream_id);
    assert_eq!(command.topic_id, topic_id);
    assert_eq!(command.partition_id, Some(partition_id));
}

#[test]
fn get_consumer_offset_should_be_read_from_string() {
    let consumer = Consumer::new(1);
    let stream_id = Identifier::numeric(2).unwrap();
    let topic_id = Identifier::numeric(3).unwrap();
    let partition_id = 4u32;
    let consumer_text = format!("{}|{}", consumer.kind.to_text(), consumer.id);
    let input = format!(
        "{consumer_text}|{}|{}|{partition_id}",
        stream_id.to_text(),
        topic_id.to_text()
    );
    let command = GetConsumerOffset::from_str(&input);
    assert!(command.is_ok());

    let command = command.unwrap();
    assert_eq!(command.consumer, consumer);
    assert_eq!(command.stream_id, stream_id);
    assert_eq!(command.topic_id, topic_id);
    assert_eq!(command.partition_id, Some(partition_id));
}

#[test]
fn get_topic_should_be_serialized_as_bytes() {
    let command = GetTopic {
        stream_id: Identifier::numeric(1).unwrap(),
        topic_id: Identifier::numeric(2).unwrap(),
    };

    let bytes = command.as_bytes();
    let mut position = 0;
    let stream_id = Identifier::from_bytes(&bytes).unwrap();
    position += stream_id.get_size_bytes() as usize;
    let topic_id = Identifier::from_bytes(&bytes[position..]).unwrap();

    assert!(!bytes.is_empty());
    assert_eq!(stream_id, command.stream_id);
    assert_eq!(topic_id, command.topic_id);
}

#[test]
fn get_topic_should_be_deserialized_from_bytes() {
    let stream_id = Identifier::numeric(1).unwrap();
    let topic_id = Identifier::numeric(2).unwrap();
    let bytes = [stream_id.as_bytes(), topic_id.as_bytes()].concat();
    let command = GetTopic::from_bytes(&bytes);
    assert!(command.is_ok());

    let command = command.unwrap();
    assert_eq!(command.stream_id, stream_id);
    assert_eq!(command.topic_id, topic_id);
}

#[test]
fn get_topic_should_be_read_from_string() {
    let stream_id = Identifier::numeric(1).unwrap();
    let topic_id = Identifier::numeric(2).unwrap();
    let input = format!("{}|{}", stream_id.to_text(), topic_id.to_text());
    let command = GetTopic::from_str(&input);
    assert!(command.is_ok());

    let command = command.unwrap();
    assert_eq!(command.stream_id, stream_id);
    assert_eq!(command.topic_id, topic_id);
}

#[test]
fn named_identifier_round_trips_through_bytes_and_text() {
    let id = Identifier::named("orders.v2").unwrap();
    let bytes = id.as_bytes();
    assert_eq!(bytes[0], 2);
    assert_eq!(bytes[1], 9);
    let back = Identifier::from_bytes(&bytes).unwrap();
    assert_eq!(back, id);
    assert_eq!(id.to_text(), "orders.v2");
    let parsed = Identifier::from_str("orders.v2").unwrap();
    assert_eq!(parsed, id);
}

#[test]
fn numeric_identifier_rejects_zero_and_encodes_little_endian() {
    assert!(Identifier::numeric(0).is_err());
    let id = Identifier::numeric(258).unwrap();
    let bytes = id.as_bytes();
    assert_eq!(bytes, vec![1, 4, 2, 1, 0, 0]);
    assert_eq!(id.to_text(), "258");
    assert_eq!(Identifier::from_str("258").unwrap(), id);
}

#[test]
fn get_topic_rejects_malformed_text() {
    assert!(GetTopic::from_str("1").is_err());
    assert!(GetTopic::from_str("1|2|3").is_err());
    assert!(GetTopic::from_str("|2").is_err());
}

#[test]
fn get_consumer_offset_treats_zero_partition_as_none() {
    let command = GetConsumerOffset {
        consumer: Consumer::new(7),
        stream_id: Identifier::numeric(1).unwrap(),
        topic_id: Identifier::numeric(1).unwrap(),
        partition_id: None,
    };
    let bytes = command.as_bytes();
    let decoded = GetConsumerOffset::from_bytes(&bytes).unwrap();
    assert_eq!(decoded.partition_id, None);
    let text = command.to_text();
    assert!(text.ends_with("|0"));
    let parsed = GetConsumerOffset::from_str(&text).unwrap();
    assert_eq!(parsed.partition_id, None);
}

#[test]
fn consumer_kind_text_round_trips() {
    assert_eq!(ConsumerKind::Consumer.to_text(), "consumer");
    assert_eq!(ConsumerKind::ConsumerGroup.to_text(), "consumer_group");
    assert!(ConsumerKind::from_text_bytes(b"consumer").is_ok());
    assert!(ConsumerKind::from_text_bytes(b"producer").is_err());
    assert!(ConsumerKind::from_code(3).is_err());
}
