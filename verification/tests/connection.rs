use dendrite::connection::{aggregate_events_request, client_identification, register_instruction, server_url};
use dendrite::messages::PlatformInboundRequest;

#[test]
fn server_url_has_host_and_port() {
    assert_eq!(server_url("proxy", 8124), "http://proxy:8124");
    assert_eq!(server_url("localhost", 0), "http://localhost:0");
    assert_eq!(server_url("h", 4294967295), "http://h:4294967295");
}

#[test]
fn client_identifies_itself_by_label() {
    let c = client_identification("API", "id-1");
    assert_eq!(c.component_name, "Rust client API");
    assert_eq!(c.client_id, "id-1");
    assert_eq!(c.version, "");
    assert_eq!(c.tags.len(), 0);
    let r = register_instruction("Worker", "id-2");
    assert_eq!(r.instruction_id.len(), 36);
    match r.request {
        Some(PlatformInboundRequest::Register(c)) => {
            assert_eq!(c.component_name, "Rust client Worker");
            assert_eq!(c.client_id, "id-2");
        },
        None => panic!("no request"),
    }
}

#[test]
fn aggregate_events_request_reads_all_events() {
    let r = aggregate_events_request("a-1");
    assert_eq!(r.aggregate_id, "a-1");
    assert!(!r.allow_snapshots);
    assert_eq!(r.initial_sequence, 0);
    assert_eq!(r.max_sequence, i64::MAX);
    assert_eq!(r.min_token, 0);
}
