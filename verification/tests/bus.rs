use telemetry_bridge::bus::Bus;
use telemetry_bridge::cache::LatestValues;
use telemetry_bridge::egress::EgressQueue;
use telemetry_bridge::error::ForwardError;
use telemetry_bridge::models::{MessageKind, MessageWrapper};
use telemetry_bridge::payload::{Field, FieldValue, Payload};

fn numbered(kind: MessageKind, n: u64) -> MessageWrapper {
    MessageWrapper::new(kind, Payload { fields: vec![Field { number: 1, value: FieldValue::Varint(n) }] })
}

fn number_of(message: &MessageWrapper) -> u64 {
    match message.payload().fields[0].value {
        FieldValue::Varint(n) => n,
        _ => panic!("not a numbered message"),
    }
}

fn drain(bus: &mut Bus, id: usize) -> Vec<u64> {
    let mut seen = Vec::new();
    while let Some(message) = bus.try_receive(id) {
        seen.push(number_of(&message));
    }
    seen
}

#[test]
fn messages_within_capacity_arrive_in_order() {
    let mut bus = Bus::new(5);
    let id = bus.subscribe();
    for n in 0..5 {
        bus.publish(&numbered(MessageKind::Heartbeat, n));
    }
    assert_eq!(bus.pending(id), Some(5));
    assert_eq!(drain(&mut bus, id), vec![0, 1, 2, 3, 4]);
    assert_eq!(bus.pending(id), Some(0));
}

#[test]
fn lagging_subscriber_keeps_the_most_recent() {
    let mut bus = Bus::new(3);
    let id = bus.subscribe();
    for n in 0..10 {
        bus.publish(&numbered(MessageKind::Heartbeat, n));
    }
    assert_eq!(bus.pending(id), Some(3));
    assert_eq!(drain(&mut bus, id), vec![7, 8, 9]);
}

#[test]
fn draining_between_publishes_loses_nothing() {
    let mut bus = Bus::new(2);
    let id = bus.subscribe();
    let mut seen = Vec::new();
    for n in 0..6 {
        bus.publish(&numbered(MessageKind::Ack, n));
        seen.extend(drain(&mut bus, id));
    }
    assert_eq!(seen, vec![0, 1, 2, 3, 4, 5]);
}

#[test]
fn every_subscriber_has_a_queue_of_its_own() {
    let mut bus = Bus::new(2);
    let slow = bus.subscribe();
    bus.publish(&numbered(MessageKind::Ack, 1));
    let late = bus.subscribe();
    assert_ne!(slow, late);
    assert_eq!(bus.pending(late), Some(0));
    bus.publish(&numbered(MessageKind::Ack, 2));
    bus.publish(&numbered(MessageKind::Ack, 3));
    assert_eq!(drain(&mut bus, late), vec![2, 3]);
    assert_eq!(drain(&mut bus, slow), vec![2, 3]);
}

#[test]
fn unsubscribed_ids_receive_nothing() {
    let mut bus = Bus::new(4);
    let id = bus.subscribe();
    bus.publish(&numbered(MessageKind::Ack, 1));
    bus.unsubscribe(id);
    assert!(!bus.is_subscribed(id));
    assert_eq!(bus.pending(id), None);
    assert!(bus.try_receive(id).is_none());
    bus.publish(&numbered(MessageKind::Ack, 2));
    assert!(bus.try_receive(id).is_none());
    assert!(bus.try_receive(id + 100).is_none());
    let again = bus.subscribe();
    assert_eq!(bus.pending(again), Some(0));
}

#[test]
fn publishing_without_subscribers_is_harmless() {
    let mut bus = Bus::new(1);
    bus.publish(&numbered(MessageKind::Ack, 1));
    let id = bus.subscribe();
    assert_eq!(bus.pending(id), Some(0));
    assert_eq!(bus.capacity(), 1);
}

#[test]
fn bus_without_room_drops_everything() {
    let mut bus = Bus::new(0);
    let id = bus.subscribe();
    bus.publish(&numbered(MessageKind::Ack, 1));
    assert_eq!(bus.pending(id), Some(0));
}

#[test]
fn cache_keeps_the_last_message_of_each_kind() {
    let mut cache = LatestValues::new();
    assert!(cache.get_all().is_empty());
    assert!(cache.get(MessageKind::Heartbeat).is_none());
    cache.put(numbered(MessageKind::Heartbeat, 1));
    cache.put(numbered(MessageKind::SensorBatch, 2));
    cache.put(numbered(MessageKind::Heartbeat, 3));
    let heartbeat = cache.get(MessageKind::Heartbeat).unwrap();
    assert_eq!(heartbeat.kind(), MessageKind::Heartbeat);
    assert_eq!(number_of(&heartbeat), 3);
    assert_eq!(number_of(&cache.get(MessageKind::SensorBatch).unwrap()), 2);
    assert!(cache.get(MessageKind::Ack).is_none());
    let mut all: Vec<(u8, u64)> =
        cache.get_all().iter().map(|m| (m.kind().tag(), number_of(m))).collect();
    all.sort();
    assert_eq!(all, vec![(1, 2), (11, 3)]);
}

#[test]
fn cache_snapshot_can_be_taken_again() {
    let mut cache = LatestValues::new();
    for tag in 1u8..=12 {
        cache.put(numbered(MessageKind::from_tag(tag).unwrap(), tag as u64));
    }
    for _ in 0..2 {
        let mut tags: Vec<u8> = cache.get_all().iter().map(|m| m.kind().tag()).collect();
        tags.sort();
        assert_eq!(tags, (1u8..=12).collect::<Vec<u8>>());
    }
}

#[test]
fn egress_queue_is_first_in_first_out() {
    let mut queue = EgressQueue::new(3);
    assert_eq!(queue.capacity(), 3);
    assert_eq!(queue.try_send(vec![1]), Ok(()));
    assert_eq!(queue.try_send(vec![2, 2]), Ok(()));
    assert_eq!(queue.try_send(vec![]), Ok(()));
    assert_eq!(queue.len(), 3);
    assert_eq!(queue.pop(), Some(vec![1]));
    assert_eq!(queue.pop(), Some(vec![2, 2]));
    assert_eq!(queue.pop(), Some(vec![]));
    assert_eq!(queue.pop(), None);
}

#[test]
fn full_egress_queue_refuses_and_keeps_what_it_has() {
    let mut queue = EgressQueue::new(1);
    assert_eq!(queue.try_send(vec![1]), Ok(()));
    assert_eq!(queue.try_send(vec![2]), Err(ForwardError::QueueFullOnForward));
    assert_eq!(queue.len(), 1);
    assert_eq!(queue.pop(), Some(vec![1]));
    assert_eq!(queue.try_send(vec![3]), Ok(()));
    let mut none = EgressQueue::new(0);
    assert_eq!(none.try_send(vec![1]), Err(ForwardError::QueueFullOnForward));
}

#[test]
fn closed_egress_queue_drains_but_takes_nothing() {
    let mut queue = EgressQueue::new(2);
    assert_eq!(queue.try_send(vec![9]), Ok(()));
    assert!(!queue.is_closed());
    queue.close();
    assert!(queue.is_closed());
    assert_eq!(queue.try_send(vec![8]), Err(ForwardError::QueueClosed));
    assert_eq!(queue.pop(), Some(vec![9]));
    assert_eq!(queue.pop(), None);
}
