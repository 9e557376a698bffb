use v_exim::codec::{decode_entity, encode_entity};
use v_exim::entity::{Entity, Prop, Val};
use v_exim::message::{decode_message, encode_message, DecodedMsg};
use v_exim::status::ExImCode;

fn rich_entity() -> Entity {
    let mut e = Entity::new();
    e.set_id(b"doc:42");
    e.add_uri(b"rdf:type", b"v-s:Document");
    e.add_string(b"rdfs:label", b"a label with spaces");
    e.add_integer(b"v-s:count", -7);
    e.add_integer(b"v-s:big", i64::MAX);
    e.add_bool(b"v-s:deleted", false);
    e.add_bool(b"v-s:active", true);
    e.add_binary(b"v-s:payload", vec![0u8, 1, 2, 255, 254, 0]);
    e
}

fn entities_equal(a: &Entity, b: &Entity) -> bool {
    if a.get_id() != b.get_id() || a.props.len() != b.props.len() {
        return false;
    }
    for i in 0..a.props.len() {
        let pa: &Prop = &a.props[i];
        let pb: &Prop = &b.props[i];
        if pa.key != pb.key {
            return false;
        }
        let same = match (&pa.val, &pb.val) {
            (Val::Uri(x), Val::Uri(y)) => x == y,
            (Val::Txt(x), Val::Txt(y)) => x == y,
            (Val::Int(x), Val::Int(y)) => x == y,
            (Val::Flag(x), Val::Flag(y)) => x == y,
            (Val::Bin(x), Val::Bin(y)) => x == y,
            _ => false,
        };
        if !same {
            return false;
        }
    }
    true
}

#[test]
fn snapshot_round_trip() {
    let e = rich_entity();
    let bytes = encode_entity(&e);
    let back = decode_entity(bytes.as_slice()).expect("the encoding must decode");
    assert!(entities_equal(&e, &back));
}

#[test]
fn snapshot_round_trip_empty_entity() {
    let e = Entity::new();
    let bytes = encode_entity(&e);
    let back = decode_entity(bytes.as_slice()).expect("the encoding must decode");
    assert!(entities_equal(&e, &back));
}

#[test]
fn decode_rejects_garbage() {
    assert!(decode_entity(b"not an encoding").is_none());
    assert!(decode_entity(b"").is_none());
}

#[test]
fn decode_rejects_truncation_and_trailing_bytes() {
    let e = rich_entity();
    let mut bytes = encode_entity(&e);
    let mut truncated = bytes.clone();
    truncated.pop();
    assert!(decode_entity(truncated.as_slice()).is_none());
    bytes.push(0);
    assert!(decode_entity(bytes.as_slice()).is_none());
}

#[test]
fn envelope_round_trip() {
    let e = rich_entity();
    let msg = encode_message(&e);
    assert!(!msg.is_empty());
    match decode_message(msg.as_str()) {
        Ok(DecodedMsg::Record(back)) => assert!(entities_equal(&e, &back)),
        _ => panic!("the envelope must decode to the same record"),
    }
}

#[test]
fn empty_envelope_is_end_of_stream() {
    assert!(matches!(decode_message(""), Ok(DecodedMsg::EndOfStream)));
}

#[test]
fn bad_base64_envelope_fails() {
    match decode_message("!!!not base64!!!") {
        Err(code) => assert!(code == ExImCode::InvalidMessage),
        Ok(_) => panic!("junk must not decode"),
    }
}

#[test]
fn valid_base64_of_garbage_fails() {
    // "aGVsbG8=" is the base64 form of "hello", which is no snapshot.
    match decode_message("aGVsbG8=") {
        Err(code) => assert!(code == ExImCode::InvalidMessage),
        Ok(_) => panic!("bytes that are no snapshot must not decode"),
    }
}
