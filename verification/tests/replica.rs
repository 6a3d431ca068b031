use dendrite::replica::{cluster_status_ready, replica_record, Transcoders};
use dendrite::command_submit::serialize_command;
use dendrite::messages::Event;
use dendrite::text_map::TextMap;

fn event(snapshot: bool, with_payload: bool) -> Event {
    Event {
        message_identifier: "ev".to_string(),
        aggregate_identifier: "a".to_string(),
        aggregate_sequence_number: 3,
        aggregate_type: "A".to_string(),
        timestamp: 77,
        payload: if with_payload { Some(serialize_command("Greeted", vec![4])) } else { None },
        meta_data: TextMap::new(),
        snapshot,
    }
}

#[test]
fn cluster_is_ready_unless_red() {
    assert!(cluster_status_ready(Some("green")));
    assert!(cluster_status_ready(Some("yellow")));
    assert!(!cluster_status_ready(Some("red")));
    assert!(!cluster_status_ready(None));
}

#[test]
fn replica_record_copies_origin() {
    let r = replica_record(event(false, true)).unwrap();
    assert_eq!(r.payload_type, "Greeted");
    assert_eq!(r.event_id, "ev");
    assert_eq!(r.aggregate_sequence_number, 3);
    assert_eq!(r.timestamp, 77);
    assert_eq!(r.is_snapshot, None);
    assert_eq!(r.data, vec![4]);
    assert_eq!(replica_record(event(true, true)).unwrap().is_snapshot, Some(true));
    assert!(replica_record(event(false, false)).is_none());
}

#[test]
fn transcoders_by_payload_type() {
    let t = Transcoders::new().insert_transcoder("A", 1u8).insert_transcoder("B", 2).insert_transcoder("A", 3);
    assert_eq!(t.get("A"), Some(&3));
    assert_eq!(t.get("B"), Some(&2));
    assert_eq!(t.get("C"), None);
}
