use crate::codec::{decode_entity, encodable, encode_entity, sdec_entity, senc_entity};
use crate::entity::{bytes_eq, copy_bytes, Entity, SpecEntity, SpecProp, SpecVal};
use crate::status::ExImCode;
use base64::Engine;
use vstd::bytes::lemma_auto_spec_u64_to_from_le_bytes;
use vstd::prelude::*;
use vstd::string::StringSliceAdditionalSpecFns;

verus! {

// Operation codes carried in a delta record's `cmd` field.
pub const CMD_PUT: i64 = 1;

pub const CMD_REMOVE: i64 = 2;

pub const CMD_ADD_TO: i64 = 3;

pub const CMD_SET_IN: i64 = 4;

pub const CMD_REMOVE_FROM: i64 = 5;

/// The name of an operation code, used in derived message identifiers.
pub open spec fn spec_cmd_name(cmd: i64) -> Seq<u8> {
    if cmd == CMD_PUT {
        "Put".spec_bytes()
    } else if cmd == CMD_REMOVE {
        "Remove".spec_bytes()
    } else if cmd == CMD_ADD_TO {
        "AddTo".spec_bytes()
    } else if cmd == CMD_SET_IN {
        "SetIn".spec_bytes()
    } else if cmd == CMD_REMOVE_FROM {
        "RemoveFrom".spec_bytes()
    } else {
        "Unknown".spec_bytes()
    }
}

pub fn cmd_name(cmd: i64) -> (r: Vec<u8>)
    ensures
        r@ == spec_cmd_name(cmd),
{
    let s: &str = if cmd == CMD_PUT {
        "Put"
    } else if cmd == CMD_REMOVE {
        "Remove"
    } else if cmd == CMD_ADD_TO {
        "AddTo"
    } else if cmd == CMD_SET_IN {
        "SetIn"
    } else if cmd == CMD_REMOVE_FROM {
        "RemoveFrom"
    } else {
        "Unknown"
    };
    copy_bytes(s.as_bytes())
}

/// What the standard base64 alphabet encodes a byte string as.  The
/// encoding is a function of the bytes alone.
pub uninterp spec fn b64_of(bytes: Seq<u8>) -> Seq<char>;

/// Relies on base64's standard engine `encode`: the result is the
/// base64 form of the input, and a non-empty input gives a non-empty
/// encoding (four output characters for every three input bytes).
#[verifier::external_body]
fn b64_encode(bytes: &[u8]) -> (r: String)
    ensures
        r@ == b64_of(bytes@),
        bytes@.len() > 0 ==> r@.len() > 0,
{
    base64::engine::general_purpose::STANDARD.encode(bytes)
}

#[verifier::external_type_specification]
#[verifier::external_body]
pub struct ExDecodeError(base64::DecodeError);

/// Relies on base64's standard engine `decode`: decoding inverts
/// encoding, so the base64 form of any byte string decodes back to it;
/// and since the engine requires canonical padding and rejects nonzero
/// trailing bits, it accepts exactly the canonical encodings, so every
/// accepted input is the base64 form of what came back.
#[verifier::external_body]
fn b64_decode(s: &str) -> (r: Result<Vec<u8>, base64::DecodeError>)
    ensures
        match r {
            Ok(v) => (forall|bs: Seq<u8>| s@ == #[trigger] b64_of(bs) ==> v@ == bs) && s@
                == b64_of(v@),
            Err(_) => forall|bs: Seq<u8>| s@ != #[trigger] b64_of(bs),
        },
{
    base64::engine::general_purpose::STANDARD.decode(s)
}

/// What one pull reply carries: one delta record, or the end-of-stream
/// sentinel (an empty message body).
pub enum DecodedMsg {
    EndOfStream,
    Record(Entity),
}

/// Serializes an entity snapshot and wraps it in base64 for the `msg`
/// field of the transport envelope.
pub fn encode_message(out_obj: &Entity) -> (r: String)
    ensures
        r@ == b64_of(senc_entity(out_obj@)),
        r@.len() > 0,
{
    let bytes = encode_entity(out_obj);
    proof {
        lemma_auto_spec_u64_to_from_le_bytes();
        assert(bytes@.len() > 0);
    }
    b64_encode(bytes.as_slice())
}

/// Reads the `msg` field of a transport envelope: the empty string is
/// the end-of-stream sentinel; anything else must be the base64 form of
/// an entity snapshot, and decodes back to exactly that entity.  The
/// decode fails — always with `InvalidMessage` — exactly on a non-empty
/// body that is the envelope of no record: not valid base64, or bytes
/// that are no snapshot.
pub fn decode_message(msg: &str) -> (r: Result<DecodedMsg, ExImCode>)
    ensures
        msg@.len() == 0 ==> r matches Ok(DecodedMsg::EndOfStream),
        msg@.len() != 0 ==> !(r matches Ok(DecodedMsg::EndOfStream)),
        forall|e: SpecEntity|
            encodable(e) && msg@ == #[trigger] b64_of(senc_entity(e)) && msg@.len() != 0 ==> (
            r matches Ok(DecodedMsg::Record(en)) && en@ == e),
        r matches Err(c) ==> c == ExImCode::InvalidMessage,
        r is Err <==> msg@.len() != 0 && !(exists|e: SpecEntity|
            encodable(e) && msg@ == #[trigger] b64_of(senc_entity(e))),
{
    if msg.is_empty() {
        return Ok(DecodedMsg::EndOfStream);
    }
    let bytes = match b64_decode(msg) {
        Ok(v) => v,
        Err(_) => {
            proof {
                assert forall|e: SpecEntity|
                    !(encodable(e) && msg@ == b64_of(senc_entity(e)) && msg@.len() != 0) by {}
            }
            return Err(ExImCode::InvalidMessage);
        },
    };
    match decode_entity(bytes.as_slice()) {
        Some(en) => {
            proof {
                assert forall|e: SpecEntity|
                    encodable(e) && msg@ == #[trigger] b64_of(senc_entity(e)) && msg@.len()
                        != 0 implies en@ == e by {
                    crate::codec::lemma_codec_round_trip(e);
                }
                crate::codec::lemma_codec_canonical(bytes@);
                assert(encodable(en@) && msg@ == b64_of(senc_entity(en@)));
            }
            Ok(DecodedMsg::Record(en))
        },
        None => {
            proof {
                assert forall|e: SpecEntity|
                    !(encodable(e) && msg@ == #[trigger] b64_of(senc_entity(e)) && msg@.len()
                        != 0) by {
                    if encodable(e) && msg@ == b64_of(senc_entity(e)) {
                        crate::codec::lemma_codec_round_trip(e);
                    }
                }
            }
            Err(ExImCode::InvalidMessage)
        },
    }
}

/// The `target_veda` field of a record.
pub open spec fn spec_target(m: SpecEntity) -> Option<Seq<u8>> {
    m.first_literal("target_veda".spec_bytes())
}

/// Whether a record addressed to `t` is for the node `node`: either the
/// wildcard, or exactly that node's identifier.
pub open spec fn spec_matches_node(t: Seq<u8>, node: Seq<u8>) -> bool {
    t == "*".spec_bytes() || t == node
}

/// Whether every field an export message needs is present and sound:
/// `cmd`, `source_veda`, `date` and `uri` always; `new_state` unless the
/// operation is a removal; and an embedded snapshot, when present, must
/// itself parse.
pub open spec fn spec_export_fields_ok(m: SpecEntity) -> bool {
    &&& m.first_integer("cmd".spec_bytes()) is Some
    &&& (m.first_integer("cmd".spec_bytes()) == Some(CMD_REMOVE) || m.first_bin(
        "new_state".spec_bytes(),
    ) is Some)
    &&& (m.first_bin("new_state".spec_bytes()) matches Some(ns) ==> sdec_entity(ns) is Some)
    &&& m.first_literal("source_veda".spec_bytes()) is Some
    &&& m.first_integer("date".spec_bytes()) is Some
    &&& m.first_literal("uri".spec_bytes()) is Some
}

/// The canonical record rebuilt from a validated queue element: message
/// identifier `<cmd>_<uri>`, the embedded snapshot re-serialized to its
/// canonical form, and every protocol field in a fixed order.
pub open spec fn spec_canonical_record(m: SpecEntity) -> SpecEntity
    recommends
        spec_export_fields_ok(m),
        spec_target(m) is Some,
{
    let cmd = m.first_integer("cmd".spec_bytes())->0;
    let uri = m.first_literal("uri".spec_bytes())->0;
    let date = m.first_integer("date".spec_bytes())->0;
    let source = m.first_literal("source_veda".spec_bytes())->0;
    let target = spec_target(m)->0;
    let es = match m.first_flag("enable_scripts".spec_bytes()) {
        Some(b) => b,
        None => false,
    };
    let head = seq![SpecProp { key: "uri".spec_bytes(), val: SpecVal::Uri(uri) }];
    let with_ns = match m.first_bin("new_state".spec_bytes()) {
        Some(ns) => head.push(
            SpecProp {
                key: "new_state".spec_bytes(),
                val: SpecVal::Bin(senc_entity(sdec_entity(ns)->0)),
            },
        ),
        None => head,
    };
    SpecEntity {
        id: spec_cmd_name(cmd) + "_".spec_bytes() + uri,
        props: with_ns + seq![
            SpecProp { key: "cmd".spec_bytes(), val: SpecVal::Int(cmd) },
            SpecProp { key: "date".spec_bytes(), val: SpecVal::Int(date) },
            SpecProp { key: "source_veda".spec_bytes(), val: SpecVal::Txt(source) },
            SpecProp { key: "target_veda".spec_bytes(), val: SpecVal::Txt(target) },
            SpecProp { key: "enable_scripts".spec_bytes(), val: SpecVal::Flag(es) },
        ],
    }
}

/// The whole verdict of export validation for one queue element and
/// one requesting node: skip, invalid, or the canonical record.
pub open spec fn spec_export_outcome(m: SpecEntity, node: Seq<u8>) -> Result<
    SpecEntity,
    ExImCode,
> {
    if spec_target(m) is None {
        Err(ExImCode::InvalidMessage)
    } else if !spec_matches_node(spec_target(m)->0, node) {
        Err(ExImCode::Success)
    } else if !spec_export_fields_ok(m) {
        Err(ExImCode::InvalidMessage)
    } else {
        Ok(spec_canonical_record(m))
    }
}

/// Validation completeness: a record addressed to this node that
/// misses any required field (`new_state` excused only under a
/// removal), or whose embedded snapshot does not parse, can never be
/// exported — the verdict is `InvalidMessage`, and nothing is produced
/// for transmission.
pub proof fn lemma_validation_completeness(m: SpecEntity, node: Seq<u8>)
    requires
        spec_target(m) is None || !spec_export_fields_ok(m),
        spec_target(m) matches Some(t) ==> spec_matches_node(t, node),
    ensures
        spec_export_outcome(m, node) == Err::<SpecEntity, ExImCode>(ExImCode::InvalidMessage),
{
}

/// Filter correctness: a record whose target is neither the wildcard
/// nor the requesting node has the non-error skip verdict — it is
/// passed over without transmission and without touching any retry
/// budget.
pub proof fn lemma_filter_correctness(m: SpecEntity, node: Seq<u8>)
    requires
        spec_target(m) matches Some(t) && !spec_matches_node(t, node),
    ensures
        spec_export_outcome(m, node) == Err::<SpecEntity, ExImCode>(ExImCode::Success),
{
}

/// Validates a queue element against a requesting node and rebuilds the
/// canonical delta record for it: exactly [`spec_export_outcome`].
///
/// `Err(Success)` is the non-error skip signal: the record is addressed
/// to another node and must be passed over without being counted as a
/// failure.  `Err(InvalidMessage)` reports a record that can never be
/// exported: a required field is missing or its snapshot does not parse.
pub fn create_export_message(queue_element: &Entity, node_id: &[u8]) -> (r: Result<
    Entity,
    ExImCode,
>)
    ensures
        ({
            match r {
                Ok(out) => spec_export_outcome(queue_element@, node_id@) == Ok::<
                    SpecEntity,
                    ExImCode,
                >(out@),
                Err(c) => spec_export_outcome(queue_element@, node_id@) == Err::<
                    SpecEntity,
                    ExImCode,
                >(c),
            }
        }),
{
    let target = match queue_element.get_first_literal("target_veda".as_bytes()) {
        Some(t) => t,
        None => {
            return Err(ExImCode::InvalidMessage);
        },
    };
    if !(bytes_eq(target.as_slice(), "*".as_bytes()) || bytes_eq(target.as_slice(), node_id)) {
        return Err(ExImCode::Success);
    }
    let cmd = match queue_element.get_first_integer("cmd".as_bytes()) {
        Some(c) => c,
        None => {
            return Err(ExImCode::InvalidMessage);
        },
    };
    let new_state = queue_element.get_first_binobj("new_state".as_bytes());
    if cmd != CMD_REMOVE && new_state.is_none() {
        return Err(ExImCode::InvalidMessage);
    }
    let source = match queue_element.get_first_literal("source_veda".as_bytes()) {
        Some(s) => s,
        None => {
            return Err(ExImCode::InvalidMessage);
        },
    };
    let date = match queue_element.get_first_integer("date".as_bytes()) {
        Some(d) => d,
        None => {
            return Err(ExImCode::InvalidMessage);
        },
    };
    let uri = match queue_element.get_first_literal("uri".as_bytes()) {
        Some(u) => u,
        None => {
            return Err(ExImCode::InvalidMessage);
        },
    };
    let enable_scripts = match queue_element.get_first_bool("enable_scripts".as_bytes()) {
        Some(b) => b,
        None => false,
    };
    let reencoded: Option<Vec<u8>> = match &new_state {
        Some(bytes) => match decode_entity(bytes.as_slice()) {
            Some(inner) => Some(encode_entity(&inner)),
            None => {
                return Err(ExImCode::InvalidMessage);
            },
        },
        None => None,
    };
    let mut out = Entity::new();
    let mut msg_id = cmd_name(cmd);
    let mut sep = copy_bytes("_".as_bytes());
    msg_id.append(&mut sep);
    let mut uri_part = copy_bytes(uri.as_slice());
    msg_id.append(&mut uri_part);
    out.set_id(msg_id.as_slice());
    out.add_uri("uri".as_bytes(), uri.as_slice());
    if let Some(raw) = reencoded {
        out.add_binary("new_state".as_bytes(), raw);
    }
    out.add_integer("cmd".as_bytes(), cmd);
    out.add_integer("date".as_bytes(), date);
    out.add_string("source_veda".as_bytes(), source.as_slice());
    out.add_string("target_veda".as_bytes(), target.as_slice());
    out.add_bool("enable_scripts".as_bytes(), enable_scripts);
    proof {
        assert(out@.props =~= spec_canonical_record(queue_element@).props);
        assert(out@.id == spec_canonical_record(queue_element@).id);
    }
    Ok(out)
}

} // verus!
