use v_exim::applier::{FileStore, Storage};
use v_exim::codec::encode_entity;
use v_exim::entity::Entity;
use v_exim::message::{CMD_PUT, CMD_REMOVE};
use v_exim::queue::{compute_batch_size, OutQueue};
use v_exim::router::{prepare, prepare_indv, OutValue};
use v_exim::status::ExImCode;
use v_exim::sync::{
    export_delta_step, import_delta, send_changes_to_node, Backoff, Delivery, PeerNode,
    RetryDecision, RetryState,
};
use v_exim::topology::{create_db_id, get_db_id, load_linked_nodes, NodeRegistry};

const N1: &[u8] = b"sys:n1-00000000-0000-0000-0000-000000000001";
const N2: &[u8] = b"sys:n2-00000000-0000-0000-0000-000000000002";

fn obj1() -> Entity {
    let mut e = Entity::new();
    e.set_id(b"obj:1");
    e.add_string(b"rdfs:label", b"first object");
    e
}

fn change_element(cmd: i64) -> Entity {
    let mut q = Entity::new();
    q.set_id(b"evt:1");
    q.add_integer(b"cmd", cmd);
    q.add_string(b"user_uri", b"cfg:VedaSystem");
    q.add_integer(b"date", 1700000000);
    q.add_uri(b"uri", b"obj:1");
    q.add_binary(b"new_state", encode_entity(&obj1()));
    q
}

#[test]
fn export_of_put_appends_one_record() {
    // Scenario: an accepted put of "obj:1" with one wildcard decision
    // leaves exactly one record in the outbound queue.
    let p = prepare(&change_element(CMD_PUT)).expect("the change must prepare");
    assert_eq!(p.id, b"obj:1".to_vec());
    assert_eq!(p.cmd, CMD_PUT);
    let decisions = vec![OutValue { target: b"*".to_vec(), indv: None, enable_scripts: false }];
    let files = FileStore::new();
    let mut queue = OutQueue::new();
    let r = prepare_indv(
        p.id.as_slice(),
        p.cmd,
        &p.new_state,
        p.date,
        p.msg_id.as_slice(),
        N1,
        &decisions,
        &files,
        &mut queue,
    );
    assert_eq!(r, Ok(true));
    assert_eq!(queue.pending(), 1);
    let rec = v_exim::codec::decode_entity(queue.peek().unwrap().as_slice()).unwrap();
    assert_eq!(rec.get_first_integer(b"cmd"), Some(CMD_PUT));
    assert_eq!(rec.get_first_literal(b"uri"), Some(b"obj:1".to_vec()));
    assert_eq!(rec.get_first_literal(b"target_veda"), Some(b"*".to_vec()));
    assert_eq!(rec.get_first_literal(b"source_veda"), Some(N1.to_vec()));
}

#[test]
fn empty_decision_list_replicates_nothing() {
    let p = prepare(&change_element(CMD_PUT)).unwrap();
    let decisions: Vec<OutValue> = Vec::new();
    let files = FileStore::new();
    let mut queue = OutQueue::new();
    let r = prepare_indv(
        p.id.as_slice(),
        p.cmd,
        &p.new_state,
        p.date,
        p.msg_id.as_slice(),
        N1,
        &decisions,
        &files,
        &mut queue,
    );
    assert_eq!(r, Ok(true));
    assert_eq!(queue.pending(), 0);
}

#[test]
fn engine_own_events_are_not_reexported() {
    let mut q = change_element(CMD_PUT);
    q.add_string(b"event_id", b"exim-loop");
    assert!(prepare(&q).is_none());
    let mut q2 = change_element(CMD_PUT);
    q2.remove(b"cmd");
    assert!(prepare(&q2).is_none());
}

#[test]
fn push_phase_delivers_skips_and_counts() {
    // Three records: one for everyone, one for a third node (skipped),
    // one addressed to the peer.  All end committed; two are sent.
    let files = FileStore::new();
    let mut queue = OutQueue::new();
    for target in [&b"*"[..], N1, N2] {
        let p = prepare(&change_element(CMD_PUT)).unwrap();
        let decisions =
            vec![OutValue { target: target.to_vec(), indv: None, enable_scripts: false }];
        prepare_indv(
            p.id.as_slice(),
            p.cmd,
            &p.new_state,
            p.date,
            p.msg_id.as_slice(),
            N1,
            &decisions,
            &files,
            &mut queue,
        )
        .unwrap();
    }
    let mut peer =
        PeerNode { node_id: N2.to_vec(), storage: Storage::new(), files: FileStore::new() };
    let (sent, code) = send_changes_to_node(&mut queue, &mut peer, N2);
    assert_eq!(sent, 2);
    assert!(code == ExImCode::Success);
    assert_eq!(queue.pending(), 0);
    let held = peer.storage.get(b"obj:1").expect("the put must have been applied");
    assert_eq!(held.get_first_literal(b"sys:source"), Some(N1.to_vec()));
}

#[test]
fn push_phase_aborts_on_invalid_record_leaving_cursor() {
    let mut queue = OutQueue::new();
    queue.push(b"garbage bytes");
    let mut peer =
        PeerNode { node_id: N2.to_vec(), storage: Storage::new(), files: FileStore::new() };
    let (sent, code) = send_changes_to_node(&mut queue, &mut peer, N2);
    assert_eq!(sent, 0);
    assert!(code == ExImCode::InvalidMessage);
    // The bad record's cursor stays uncommitted.
    assert_eq!(queue.pending(), 1);
}

#[test]
fn retry_exhaustion_is_ten_attempts_with_growing_delays() {
    // A permanently rejecting peer: nine growing delays, then abort.
    let mut st = RetryState::new();
    let mut last_delay: Option<u64> = None;
    for attempt in 0..10u32 {
        let d = st.step(Delivery::Rejected);
        if attempt < 9 {
            match d {
                RetryDecision::RetryAfterMs(ms) => {
                    assert_eq!(ms, attempt as u64 * 100);
                    if let Some(prev) = last_delay {
                        assert!(ms > prev);
                    }
                    last_delay = Some(ms);
                },
                _ => panic!("attempt {} must retry", attempt),
            }
        } else {
            assert!(d == RetryDecision::AbortSendFailed);
        }
    }
}

#[test]
fn pull_skips_past_malformed_and_foreign_records() {
    // A head that cannot be exported answers the sentinel and is
    // committed past, so a malformed record never blocks the stream.
    let garbage = b"not a record".to_vec();
    let (msg, commit) = export_delta_step(Some(&garbage), N2);
    assert!(msg.is_empty());
    assert!(commit);
    // A record missing a required field likewise.
    let mut q = change_element(CMD_PUT);
    q.remove(b"date");
    q.add_string(b"target_veda", b"*");
    q.add_string(b"source_veda", N1);
    let bytes = encode_entity(&q);
    let (msg, commit) = export_delta_step(Some(&bytes), N2);
    assert!(msg.is_empty());
    assert!(commit);
    // A record for a third node is skipped and committed too.
    let mut q2 = change_element(CMD_PUT);
    q2.add_string(b"target_veda", N1);
    q2.add_string(b"source_veda", N1);
    let bytes2 = encode_entity(&q2);
    let (msg2, commit2) = export_delta_step(Some(&bytes2), N2);
    assert!(msg2.is_empty());
    assert!(commit2);
}

#[test]
fn delivery_commits_at_once() {
    let mut st = RetryState::new();
    assert!(st.step(Delivery::Delivered) == RetryDecision::CommitRecord);
    assert_eq!(st.attempts, 0);
}

#[test]
fn backoff_grows_to_ceiling_and_resets() {
    let mut b = Backoff::new();
    let mut last: u32 = 0;
    for _ in 0..40 {
        let d = b.next_interval();
        assert!((1000..=30000).contains(&d));
        assert!(d >= last);
        last = d;
    }
    assert_eq!(last, 30000);
    // At the ceiling the interval stays put.
    assert_eq!(b.next_interval(), 30000);
    b.note_activity();
    assert_eq!(b.next_interval(), 1000);
    assert_eq!(b.next_interval(), 2000);
}

#[test]
fn batch_size_follows_counters_and_segments() {
    // Same segment: the counter difference is the batch.
    assert_eq!(compute_batch_size(7, 3, 1, 1), 4);
    // A new segment forces a batch of one.
    assert_eq!(compute_batch_size(7, 3, 1, 2), 1);
    assert_eq!(compute_batch_size(5, 5, 1, 2), 1);
    // Nothing new and no new segment: nothing to do.
    assert_eq!(compute_batch_size(5, 5, 1, 1), 0);
}

#[test]
fn pull_endpoint_answers_record_or_sentinel() {
    let files = FileStore::new();
    let mut queue = OutQueue::new();
    let p = prepare(&change_element(CMD_PUT)).unwrap();
    let decisions = vec![OutValue { target: b"*".to_vec(), indv: None, enable_scripts: false }];
    prepare_indv(
        p.id.as_slice(),
        p.cmd,
        &p.new_state,
        p.date,
        p.msg_id.as_slice(),
        N1,
        &decisions,
        &files,
        &mut queue,
    )
    .unwrap();
    let (msg, commit) = export_delta_step(queue.peek(), N2);
    assert!(commit);
    assert!(!msg.is_empty());
    // The answered envelope applies cleanly at the requester.
    let mut storage = Storage::new();
    let mut fs = FileStore::new();
    let res = import_delta(N2, msg.as_str(), &mut storage, &mut fs).expect("a record came");
    assert!(res.res_code == ExImCode::Success);
    assert!(storage.get(b"obj:1").is_some());
    // An empty queue answers the end-of-stream sentinel and leaves
    // the cursor alone.
    let empty = OutQueue::new();
    let (msg2, commit2) = export_delta_step(empty.peek(), N2);
    assert!(!commit2);
    assert!(msg2.is_empty());
    // The sentinel is a no-op on the push side.
    let before = storage.len();
    assert!(import_delta(N2, "", &mut storage, &mut fs).is_none());
    assert_eq!(storage.len(), before);
}

#[test]
fn registry_refreshes_only_on_counter_growth() {
    let mut cfg = Entity::new();
    cfg.set_id(b"cfg:standart_node");
    cfg.add_integer(b"v-s:updateCounter", 5);
    let mut live = Entity::new();
    live.set_id(b"cfg:node2");
    live.add_string(b"rdf:value", b"http://peer:8080");
    live.add_string(b"cfg:node_id", N2);
    let mut dead = Entity::new();
    dead.set_id(b"cfg:node3");
    dead.add_string(b"rdf:value", b"http://gone:8080");
    dead.add_string(b"cfg:node_id", b"sys:gone");
    dead.add_bool(b"v-s:delete", true);
    let linked = vec![live, dead];
    let mut counter: i64 = 0;
    let mut registry = NodeRegistry::new();
    load_linked_nodes(&cfg, &linked, &mut counter, &mut registry);
    assert_eq!(counter, 5);
    assert_eq!(registry.get(N2), Some(&b"http://peer:8080".to_vec()));
    assert!(registry.get(b"sys:gone").is_none());
    // The same counter changes nothing, even with another list.
    let empty: Vec<Entity> = Vec::new();
    load_linked_nodes(&cfg, &empty, &mut counter, &mut registry);
    assert_eq!(counter, 5);
    assert!(registry.get(N2).is_some());
}

#[test]
fn identity_is_read_or_freshly_created() {
    let mut sys = Entity::new();
    sys.set_id(b"cfg:system");
    sys.add_string(b"sys:id", N1);
    assert_eq!(get_db_id(Some(&sys)), Some(N1.to_vec()));
    assert_eq!(get_db_id(None), None);
    let boot = create_db_id();
    assert_eq!(boot.node_id.len(), 40);
    assert!(boot.node_id.starts_with(b"sys:"));
    assert_eq!(boot.node_entity.get_id(), boot.node_id);
    assert_eq!(boot.node_entity.get_first_literal(b"rdf:type"), Some(b"sys:Node".to_vec()));
    assert_eq!(boot.pointer_entity.get_id(), b"cfg:system".to_vec());
    assert_eq!(boot.pointer_entity.get_first_literal(b"sys:id"), Some(boot.node_id.clone()));
    // Two bootstraps draw different identifiers.
    let other = create_db_id();
    assert_ne!(boot.node_id, other.node_id);
}

#[test]
fn status_codes_round_trip_and_flag_transmission() {
    let all = [
        ExImCode::Unknown,
        ExImCode::Success,
        ExImCode::InvalidMessage,
        ExImCode::InvalidCmd,
        ExImCode::InvalidTarget,
        ExImCode::FailUpdate,
        ExImCode::TransmitFailed,
        ExImCode::SendFailed,
        ExImCode::ReceiveFailed,
    ];
    for c in all {
        assert!(ExImCode::from_i64(c.to_i64()) == c);
    }
    assert_eq!(ExImCode::Success.to_i64(), 1);
    assert_eq!(ExImCode::SendFailed.to_i64(), 96);
    assert_eq!(ExImCode::ReceiveFailed.to_i64(), 160);
    assert!(ExImCode::from_i64(3) == ExImCode::Unknown);
    assert!(ExImCode::SendFailed.is_transmit_failure());
    assert!(ExImCode::ReceiveFailed.is_transmit_failure());
    assert!(ExImCode::TransmitFailed.is_transmit_failure());
    assert!(!ExImCode::Success.is_transmit_failure());
    assert!(!ExImCode::InvalidTarget.is_transmit_failure());
    assert_eq!(ExImCode::Success.as_string(), "ok");
    assert_eq!(ExImCode::SendFailed.as_string(), "fail send");
    assert!(ExImCode::from(96i64) == ExImCode::SendFailed);
    assert_eq!(i64::from(ExImCode::InvalidTarget), 8);
}

#[test]
fn remove_cmd_round_trips_through_engine() {
    // A removal exported with no state still deletes at the peer.
    let files = FileStore::new();
    let mut queue = OutQueue::new();
    let p = prepare(&change_element(CMD_PUT)).unwrap();
    let decisions = vec![OutValue { target: b"*".to_vec(), indv: None, enable_scripts: false }];
    prepare_indv(
        p.id.as_slice(),
        p.cmd,
        &p.new_state,
        p.date,
        p.msg_id.as_slice(),
        N1,
        &decisions,
        &files,
        &mut queue,
    )
    .unwrap();
    let mut rm_change = change_element(CMD_REMOVE);
    rm_change.remove(b"new_state");
    let p2 = prepare(&rm_change).unwrap();
    prepare_indv(
        p2.id.as_slice(),
        p2.cmd,
        &p2.new_state,
        p2.date,
        p2.msg_id.as_slice(),
        N1,
        &decisions,
        &files,
        &mut queue,
    )
    .unwrap();
    let mut peer =
        PeerNode { node_id: N2.to_vec(), storage: Storage::new(), files: FileStore::new() };
    let (sent, code) = send_changes_to_node(&mut queue, &mut peer, N2);
    assert_eq!(sent, 2);
    assert!(code == ExImCode::Success);
    assert!(peer.storage.get(b"obj:1").is_none());
}
