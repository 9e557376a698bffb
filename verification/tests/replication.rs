use v_exim::applier::{import_actor, processing_imported_message, FileStore, Storage};
use v_exim::codec::encode_entity;
use v_exim::entity::Entity;
use v_exim::message::{create_export_message, CMD_PUT, CMD_REMOVE};
use v_exim::status::ExImCode;

// Node identifiers long enough to pass the applier's origin
// plausibility check (at least 32 bytes).
const N1: &[u8] = b"sys:n1-00000000-0000-0000-0000-000000000001";
const N2: &[u8] = b"sys:n2-00000000-0000-0000-0000-000000000002";

fn obj1() -> Entity {
    let mut e = Entity::new();
    e.set_id(b"obj:1");
    e.add_uri(b"rdf:type", b"v-s:Document");
    e.add_string(b"rdfs:label", b"first object");
    e
}

fn queue_element(target: &[u8], with_state: bool, cmd: i64) -> Entity {
    let mut q = Entity::new();
    q.set_id(b"evt:1");
    q.add_uri(b"uri", b"obj:1");
    if with_state {
        q.add_binary(b"new_state", encode_entity(&obj1()));
    }
    q.add_integer(b"cmd", cmd);
    q.add_integer(b"date", 1700000000);
    q.add_string(b"source_veda", N1);
    q.add_string(b"target_veda", target);
    q.add_bool(b"enable_scripts", false);
    q
}

#[test]
fn export_message_is_canonical() {
    // Scenario: a put of "obj:1" addressed to every node.
    let q = queue_element(b"*", true, CMD_PUT);
    let rec = create_export_message(&q, N2).expect("a complete record must export");
    assert_eq!(rec.get_id(), b"Put_obj:1".to_vec());
    assert_eq!(rec.get_first_literal(b"uri"), Some(b"obj:1".to_vec()));
    assert_eq!(rec.get_first_integer(b"cmd"), Some(CMD_PUT));
    assert_eq!(rec.get_first_literal(b"target_veda"), Some(b"*".to_vec()));
    assert_eq!(rec.get_first_literal(b"source_veda"), Some(N1.to_vec()));
    assert_eq!(rec.get_first_integer(b"date"), Some(1700000000));
    assert_eq!(rec.get_first_bool(b"enable_scripts"), Some(false));
    assert!(rec.get_first_binobj(b"new_state").is_some());
}

#[test]
fn export_skips_record_for_another_node() {
    // A record addressed to a third node is a skip, not an error.
    let q = queue_element(N1, true, CMD_PUT);
    match create_export_message(&q, N2) {
        Err(code) => assert!(code == ExImCode::Success),
        Ok(_) => panic!("a record for another node must be skipped"),
    }
}

#[test]
fn export_accepts_record_addressed_to_requester() {
    let q = queue_element(N2, true, CMD_PUT);
    assert!(create_export_message(&q, N2).is_ok());
}

#[test]
fn export_rejects_missing_fields() {
    // Leaving any required field out fails InvalidMessage.
    let keys: [&[u8]; 4] = [b"cmd", b"source_veda", b"date", b"uri"];
    for key in keys {
        let mut q = queue_element(b"*", true, CMD_PUT);
        q.remove(key);
        match create_export_message(&q, N2) {
            Err(code) => assert!(code == ExImCode::InvalidMessage),
            Ok(_) => panic!("a record without a required field must be invalid"),
        }
    }
    // A missing target is invalid too (there is nothing to match).
    let mut q = queue_element(b"*", true, CMD_PUT);
    q.remove(b"target_veda");
    match create_export_message(&q, N2) {
        Err(code) => assert!(code == ExImCode::InvalidMessage),
        Ok(_) => panic!("a record without a target must be invalid"),
    }
}

#[test]
fn export_requires_state_except_for_removal() {
    let q = queue_element(b"*", false, CMD_PUT);
    match create_export_message(&q, N2) {
        Err(code) => assert!(code == ExImCode::InvalidMessage),
        Ok(_) => panic!("a put without a state must be invalid"),
    }
    let q = queue_element(b"*", false, CMD_REMOVE);
    let rec = create_export_message(&q, N2).expect("a removal needs no state");
    assert_eq!(rec.get_id(), b"Remove_obj:1".to_vec());
    assert!(rec.get_first_binobj(b"new_state").is_none());
}

#[test]
fn import_put_stores_entity_with_provenance() {
    // Scenario: the exported record of "obj:1" lands at another node.
    let q = queue_element(b"*", true, CMD_PUT);
    let rec = create_export_message(&q, N2).unwrap();
    let mut storage = Storage::new();
    let mut files = FileStore::new();
    let res = processing_imported_message(N2, &rec, &mut storage, &mut files);
    assert_eq!(res.id, b"Put_obj:1".to_vec());
    assert!(res.res_code == ExImCode::Success);
    let held = storage.get(b"obj:1").expect("the entity must be stored");
    assert_eq!(held.get_first_literal(b"sys:source"), Some(N1.to_vec()));
    assert_eq!(held.get_first_literal(b"rdfs:label"), Some(b"first object".to_vec()));
}

#[test]
fn import_missing_cmd_changes_nothing() {
    // Scenario: a record without an operation code is acknowledged
    // with InvalidCmd and mutates no storage.
    let q = queue_element(b"*", true, CMD_PUT);
    let mut rec = create_export_message(&q, N2).unwrap();
    rec.remove(b"cmd");
    let mut storage = Storage::new();
    let mut files = FileStore::new();
    let res = processing_imported_message(N2, &rec, &mut storage, &mut files);
    assert!(res.res_code == ExImCode::InvalidCmd);
    assert_eq!(storage.len(), 0);
    assert!(storage.get(b"obj:1").is_none());
}

#[test]
fn import_rejects_implausible_source() {
    let q = queue_element(b"*", true, CMD_PUT);
    let mut rec = create_export_message(&q, N2).unwrap();
    rec.remove(b"source_veda");
    rec.add_string(b"source_veda", b"N1");
    let mut storage = Storage::new();
    let mut files = FileStore::new();
    let res = processing_imported_message(N2, &rec, &mut storage, &mut files);
    assert!(res.res_code == ExImCode::InvalidTarget);
    assert_eq!(storage.len(), 0);
}

#[test]
fn import_rejects_record_for_another_node() {
    let q = queue_element(N1, true, CMD_PUT);
    let rec = create_export_message(&q, N1).unwrap();
    let mut storage = Storage::new();
    let mut files = FileStore::new();
    let res = processing_imported_message(N2, &rec, &mut storage, &mut files);
    assert!(res.res_code == ExImCode::InvalidTarget);
    assert_eq!(storage.len(), 0);
}

#[test]
fn import_is_idempotent() {
    // Applying the same record twice leaves identical state and a
    // single provenance marker.
    let q = queue_element(b"*", true, CMD_PUT);
    let rec = create_export_message(&q, N2).unwrap();
    let mut storage = Storage::new();
    let mut files = FileStore::new();
    processing_imported_message(N2, &rec, &mut storage, &mut files);
    let once = encode_entity(storage.get(b"obj:1").unwrap());
    processing_imported_message(N2, &rec, &mut storage, &mut files);
    let twice = encode_entity(storage.get(b"obj:1").unwrap());
    assert_eq!(once, twice);
    let held = storage.get(b"obj:1").unwrap();
    let markers = held.get_literals(b"sys:source");
    assert_eq!(markers.len(), 1);
    assert_eq!(markers[0], N1.to_vec());
}

#[test]
fn import_strips_own_marker_instead_of_duplicating() {
    // Loop prevention: an entity whose marker equals the receiving
    // node's own identifier has the marker removed.
    let mut state = obj1();
    state.add_uri(b"sys:source", N2);
    let mut q = Entity::new();
    q.set_id(b"evt:2");
    q.add_uri(b"uri", b"obj:1");
    q.add_binary(b"new_state", encode_entity(&state));
    q.add_integer(b"cmd", CMD_PUT);
    q.add_integer(b"date", 1700000001);
    q.add_string(b"source_veda", N1);
    q.add_string(b"target_veda", b"*");
    let rec = create_export_message(&q, N2).unwrap();
    let mut storage = Storage::new();
    let mut files = FileStore::new();
    let res = processing_imported_message(N2, &rec, &mut storage, &mut files);
    assert!(res.res_code == ExImCode::Success);
    let held = storage.get(b"obj:1").unwrap();
    assert_eq!(held.get_literals(b"sys:source").len(), 0);
}

#[test]
fn import_unusable_state_fails_update() {
    // Valid envelope fields, but a snapshot that does not parse: the
    // apply fails and nothing is stored.
    let mut rec = Entity::new();
    rec.set_id(b"Put_obj:1");
    rec.add_uri(b"uri", b"obj:1");
    rec.add_binary(b"new_state", b"not a snapshot".to_vec());
    rec.add_integer(b"cmd", CMD_PUT);
    rec.add_integer(b"date", 1700000003);
    rec.add_string(b"source_veda", N1);
    rec.add_string(b"target_veda", b"*");
    let mut storage = Storage::new();
    let mut files = FileStore::new();
    let res = processing_imported_message(N2, &rec, &mut storage, &mut files);
    assert!(res.res_code == ExImCode::FailUpdate);
    assert_eq!(storage.len(), 0);
}

#[test]
fn actor_selection_follows_senders_intent() {
    assert_eq!(import_actor(false), b"exim".to_vec());
    assert_eq!(import_actor(true), b"?".to_vec());
}

#[test]
fn import_remove_deletes_stored_entity() {
    let q = queue_element(b"*", true, CMD_PUT);
    let rec = create_export_message(&q, N2).unwrap();
    let mut storage = Storage::new();
    let mut files = FileStore::new();
    processing_imported_message(N2, &rec, &mut storage, &mut files);
    assert!(storage.get(b"obj:1").is_some());
    let qr = queue_element(b"*", false, CMD_REMOVE);
    let rm = create_export_message(&qr, N2).unwrap();
    let res = processing_imported_message(N2, &rm, &mut storage, &mut files);
    assert!(res.res_code == ExImCode::Success);
    assert!(storage.get(b"obj:1").is_none());
}

#[test]
fn import_materializes_file_payload() {
    let mut state = Entity::new();
    state.set_id(b"file:1");
    state.add_uri(b"rdf:type", b"v-s:File");
    state.add_string(b"v-s:filePath", b"/2024");
    state.add_string(b"v-s:fileUri", b"report.bin");
    state.add_binary(b"v-s:fileData", vec![9u8, 8, 7]);
    let mut q = Entity::new();
    q.set_id(b"evt:3");
    q.add_uri(b"uri", b"file:1");
    q.add_binary(b"new_state", encode_entity(&state));
    q.add_integer(b"cmd", CMD_PUT);
    q.add_integer(b"date", 1700000002);
    q.add_string(b"source_veda", N1);
    q.add_string(b"target_veda", b"*");
    let rec = create_export_message(&q, N2).unwrap();
    let mut storage = Storage::new();
    let mut files = FileStore::new();
    let res = processing_imported_message(N2, &rec, &mut storage, &mut files);
    assert!(res.res_code == ExImCode::Success);
    let written = files.get(b"data/files/2024/report.bin").expect("the payload must be written");
    assert_eq!(written, &vec![9u8, 8, 7]);
    // The stored entity no longer carries the payload.
    let held = storage.get(b"file:1").unwrap();
    assert!(held.get_first_binobj(b"v-s:fileData").is_none());
}
