use crate::codec::{decode_entity, sdec_entity};
use crate::entity::{
    bytes_eq, copy_bytes, literal_of, spec_has_key, spec_has_literal, spec_without_key, Entity,
    SpecEntity, SpecProp, SpecVal,
};
use crate::kvstore::KvStore;
use crate::message::{spec_matches_node, CMD_REMOVE};
use crate::status::ExImCode;
use vstd::prelude::*;
use vstd::string::StringSliceAdditionalSpecFns;

verus! {

/// The in-memory model of the entity storage backend: identifier to
/// latest applied snapshot.
pub type Storage = KvStore<Entity>;

/// The in-memory model of the local file store: path to file bytes.
pub type FileStore = KvStore<Vec<u8>>;

/// What the applier answers for every processed inbound record.
pub struct IOResult {
    pub id: Vec<u8>,
    pub res_code: ExImCode,
}

impl IOResult {
    pub fn new(id: &[u8], res_code: ExImCode) -> (r: IOResult)
        ensures
            r.id@ == id@,
            r.res_code == res_code,
    {
        IOResult { id: copy_bytes(id), res_code }
    }
}

/// The validation verdict for an inbound record: `cmd` present, the
/// origin identifier present and long enough to be plausible, and the
/// record addressed to this node or to every node.
pub open spec fn spec_import_error(m: SpecEntity, my: Seq<u8>) -> Option<ExImCode> {
    if m.first_integer("cmd".spec_bytes()) is None {
        Some(ExImCode::InvalidCmd)
    } else if m.first_literal("source_veda".spec_bytes()) is None {
        Some(ExImCode::InvalidTarget)
    } else if m.first_literal("source_veda".spec_bytes())->0.len() < 32 {
        Some(ExImCode::InvalidTarget)
    } else if m.first_literal("target_veda".spec_bytes()) is None {
        Some(ExImCode::InvalidTarget)
    } else if !spec_matches_node(m.first_literal("target_veda".spec_bytes())->0, my) {
        Some(ExImCode::InvalidTarget)
    } else {
        None
    }
}

/// Loop prevention: an entity that already carries this node's own
/// provenance marker has round-tripped back to its origin, so the
/// marker is stripped; otherwise the entity is stamped with the origin
/// node of the record that carried it.
pub open spec fn spec_mark_provenance(e: SpecEntity, my: Seq<u8>, source: Seq<u8>) -> SpecEntity {
    if spec_has_literal(e.props, "sys:source".spec_bytes(), my) {
        SpecEntity { id: e.id, props: spec_without_key(e.props, "sys:source".spec_bytes()) }
    } else {
        SpecEntity {
            id: e.id,
            props: e.props.push(
                SpecProp { key: "sys:source".spec_bytes(), val: SpecVal::Uri(source) },
            ),
        }
    }
}

pub open spec fn spec_is_file_entity(e: SpecEntity) -> bool {
    spec_has_literal(e.props, "rdf:type".spec_bytes(), "v-s:File".spec_bytes())
}

pub open spec fn opt_or_empty(o: Option<Seq<u8>>) -> Seq<u8> {
    match o {
        Some(v) => v,
        None => Seq::empty(),
    }
}

/// Where an embedded file payload is materialized: the file area,
/// the declared directory, and the declared file name.
pub open spec fn spec_file_path(e: SpecEntity) -> Seq<u8> {
    "data/files".spec_bytes() + opt_or_empty(e.first_literal("v-s:filePath".spec_bytes()))
        + "/".spec_bytes() + opt_or_empty(e.first_literal("v-s:fileUri".spec_bytes()))
}

/// The status code and the state an import leaves behind.
pub struct SpecImportOutcome {
    pub code: ExImCode,
    pub store: Map<Seq<u8>, SpecEntity>,
    pub files: Map<Seq<u8>, Seq<u8>>,
}

/// The whole effect of applying one inbound record: validation,
/// loop prevention, removal identity, file materialization and the
/// idempotent storage upsert.
pub open spec fn spec_import(
    m: SpecEntity,
    my: Seq<u8>,
    store: Map<Seq<u8>, SpecEntity>,
    files: Map<Seq<u8>, Seq<u8>>,
) -> SpecImportOutcome {
    match spec_import_error(m, my) {
        Some(c) => SpecImportOutcome { code: c, store, files },
        None => {
            let cmd = m.first_integer("cmd".spec_bytes())->0;
            let source = m.first_literal("source_veda".spec_bytes())->0;
            let ns = m.first_bin("new_state".spec_bytes());
            if ns is None || sdec_entity(ns->0) is None {
                if cmd == CMD_REMOVE {
                    match m.first_literal("uri".spec_bytes()) {
                        Some(u) => SpecImportOutcome {
                            code: ExImCode::Success,
                            store: store.remove(u),
                            files,
                        },
                        None => SpecImportOutcome { code: ExImCode::FailUpdate, store, files },
                    }
                } else {
                    SpecImportOutcome { code: ExImCode::FailUpdate, store, files }
                }
            } else {
                let decoded = sdec_entity(ns->0)->0;
                let marked = spec_mark_provenance(decoded, my, source);
                let ident = if cmd == CMD_REMOVE {
                    match m.first_literal("uri".spec_bytes()) {
                        Some(u) => u,
                        None => marked.id,
                    }
                } else {
                    marked.id
                };
                let has_payload = spec_is_file_entity(marked) && marked.first_bin(
                    "v-s:fileData".spec_bytes(),
                ) is Some;
                let files2 = if has_payload {
                    files.insert(
                        spec_file_path(marked),
                        marked.first_bin("v-s:fileData".spec_bytes())->0,
                    )
                } else {
                    files
                };
                let stored = SpecEntity {
                    id: ident,
                    props: if has_payload {
                        spec_without_key(marked.props, "v-s:fileData".spec_bytes())
                    } else {
                        marked.props
                    },
                };
                if cmd == CMD_REMOVE {
                    SpecImportOutcome { code: ExImCode::Success, store: store.remove(ident), files: files2 }
                } else {
                    SpecImportOutcome {
                        code: ExImCode::Success,
                        store: store.insert(ident, stored),
                        files: files2,
                    }
                }
            }
        },
    }
}

/// Validates one inbound delta record and applies it to the storage and
/// file-store models, idempotently; answers the record's message
/// identifier with a status code.  Malformed records change nothing.
pub fn processing_imported_message(
    my_node_id: &[u8],
    recv_msg: &Entity,
    storage: &mut Storage,
    files: &mut FileStore,
) -> (r: IOResult)
    ensures
        ({
            let o = spec_import(recv_msg@, my_node_id@, old(storage)@, old(files)@);
            &&& r.res_code == o.code
            &&& r.id@ == recv_msg@.id
            &&& final(storage)@ == o.store
            &&& final(files)@ == o.files
        }),
{
    let msg_id = recv_msg.get_id();
    let cmd = match recv_msg.get_first_integer("cmd".as_bytes()) {
        Some(c) => c,
        None => {
            return IOResult::new(msg_id.as_slice(), ExImCode::InvalidCmd);
        },
    };
    let source = match recv_msg.get_first_literal("source_veda".as_bytes()) {
        Some(s) => s,
        None => {
            return IOResult::new(msg_id.as_slice(), ExImCode::InvalidTarget);
        },
    };
    if source.len() < 32 {
        return IOResult::new(msg_id.as_slice(), ExImCode::InvalidTarget);
    }
    let target = match recv_msg.get_first_literal("target_veda".as_bytes()) {
        Some(t) => t,
        None => {
            return IOResult::new(msg_id.as_slice(), ExImCode::InvalidTarget);
        },
    };
    if !(bytes_eq(target.as_slice(), "*".as_bytes()) || bytes_eq(target.as_slice(), my_node_id)) {
        return IOResult::new(msg_id.as_slice(), ExImCode::InvalidTarget);
    }
    let ns = recv_msg.get_first_binobj("new_state".as_bytes());
    let decoded: Option<Entity> = match &ns {
        Some(b) => decode_entity(b.as_slice()),
        None => None,
    };
    let mut indv = match decoded {
        Some(e) => e,
        None => {
            if cmd == CMD_REMOVE {
                match recv_msg.get_first_literal("uri".as_bytes()) {
                    Some(u) => {
                        storage.remove(u.as_slice());
                        return IOResult::new(msg_id.as_slice(), ExImCode::Success);
                    },
                    None => {
                        return IOResult::new(msg_id.as_slice(), ExImCode::FailUpdate);
                    },
                }
            }
            return IOResult::new(msg_id.as_slice(), ExImCode::FailUpdate);
        },
    };
    if indv.any_exists("sys:source".as_bytes(), my_node_id) {
        indv.remove("sys:source".as_bytes());
    } else {
        indv.add_uri("sys:source".as_bytes(), source.as_slice());
    }
    if cmd == CMD_REMOVE {
        if let Some(u) = recv_msg.get_first_literal("uri".as_bytes()) {
            indv.set_id(u.as_slice());
        }
    }
    if indv.any_exists("rdf:type".as_bytes(), "v-s:File".as_bytes()) {
        if let Some(data) = indv.get_first_binobj("v-s:fileData".as_bytes()) {
            let mut path = copy_bytes("data/files".as_bytes());
            let mut dir = match indv.get_first_literal("v-s:filePath".as_bytes()) {
                Some(v) => v,
                None => Vec::new(),
            };
            path.append(&mut dir);
            let mut sep = copy_bytes("/".as_bytes());
            path.append(&mut sep);
            let mut name = match indv.get_first_literal("v-s:fileUri".as_bytes()) {
                Some(v) => v,
                None => Vec::new(),
            };
            path.append(&mut name);
            files.upsert(path.as_slice(), data);
            indv.remove("v-s:fileData".as_bytes());
        }
    }
    let ident = indv.get_id();
    if cmd == CMD_REMOVE {
        storage.remove(ident.as_slice());
    } else {
        storage.upsert(ident.as_slice(), indv);
    }
    IOResult::new(msg_id.as_slice(), ExImCode::Success)
}

/// The actor identity an applied record is tagged with, so that
/// downstream triggers on the change fire or stay suppressed per the
/// sender's intent: the anonymous actor when scripts are enabled, the
/// replication engine's own identity when they are not.
pub fn import_actor(enable_scripts: bool) -> (r: Vec<u8>)
    ensures
        enable_scripts ==> r@ == "?".spec_bytes(),
        !enable_scripts ==> r@ == "exim".spec_bytes(),
{
    if enable_scripts {
        copy_bytes("?".as_bytes())
    } else {
        copy_bytes("exim".as_bytes())
    }
}

/// How many properties carry the key.
pub open spec fn spec_count_key(props: Seq<SpecProp>, key: Seq<u8>) -> nat
    decreases props.len(),
{
    if props.len() == 0 {
        0
    } else {
        spec_count_key(props.drop_last(), key) + (if props.last().key == key {
            1nat
        } else {
            0nat
        })
    }
}

/// Removing a key removes it entirely.
proof fn lemma_without_key_no_key(props: Seq<SpecProp>, key: Seq<u8>)
    ensures
        !spec_has_key(spec_without_key(props, key), key),
    decreases props.len(),
{
    if props.len() == 0 {
    } else {
        lemma_without_key_no_key(props.drop_last(), key);
        let front = spec_without_key(props.drop_last(), key);
        if props.last().key == key {
        } else {
            let whole = front.push(props.last());
            assert forall|i: int| 0 <= i < whole.len() implies whole[i].key != key by {
                if i < front.len() {
                    assert(whole[i] == front[i]);
                    assert(!spec_has_key(front, key));
                }
            }
        }
    }
}

/// A key nothing carries is carried zero times.
proof fn lemma_count_zero_when_no_key(props: Seq<SpecProp>, key: Seq<u8>)
    requires
        !spec_has_key(props, key),
    ensures
        spec_count_key(props, key) == 0,
    decreases props.len(),
{
    if props.len() == 0 {
    } else {
        assert(!spec_has_key(props.drop_last(), key)) by {
            assert forall|i: int| 0 <= i < props.drop_last().len() implies props.drop_last()[i].key
                != key by {
                assert(props.drop_last()[i] == props[i]);
            }
        }
        lemma_count_zero_when_no_key(props.drop_last(), key);
        assert(props.last().key != key) by {
            assert(props[props.len() - 1] == props.last());
        }
    }
}

/// Loop prevention: an entity whose provenance marker equals the
/// receiving node's own identifier has the marker removed outright,
/// never duplicated.
pub proof fn lemma_loop_prevention(e: SpecEntity, my: Seq<u8>, source: Seq<u8>)
    requires
        spec_has_literal(e.props, "sys:source".spec_bytes(), my),
    ensures
        !spec_has_key(
            spec_mark_provenance(e, my, source).props,
            "sys:source".spec_bytes(),
        ),
{
    lemma_without_key_no_key(e.props, "sys:source".spec_bytes());
}

/// Stamping an entity that carries no provenance marker yields exactly
/// one marker, holding the origin node of the record.
pub proof fn lemma_single_marker(e: SpecEntity, my: Seq<u8>, source: Seq<u8>)
    requires
        !spec_has_key(e.props, "sys:source".spec_bytes()),
    ensures
        spec_count_key(spec_mark_provenance(e, my, source).props, "sys:source".spec_bytes()) == 1,
        spec_has_literal(spec_mark_provenance(e, my, source).props, "sys:source".spec_bytes(), source),
{
    let key = "sys:source".spec_bytes();
    assert(!spec_has_literal(e.props, key, my));
    lemma_count_zero_when_no_key(e.props, key);
    let marked = spec_mark_provenance(e, my, source);
    assert(marked.props.drop_last() =~= e.props);
    assert(marked.props.last().key == key);
    assert(marked.props[marked.props.len() - 1].key == key && literal_of(
        marked.props[marked.props.len() - 1].val,
    ) == Some(source));
}

/// Idempotence: applying the same delta record twice leaves exactly the
/// state of the first application, and answers the same code.
pub proof fn lemma_import_idempotent(
    m: SpecEntity,
    my: Seq<u8>,
    store: Map<Seq<u8>, SpecEntity>,
    files: Map<Seq<u8>, Seq<u8>>,
)
    ensures
        ({
            let once = spec_import(m, my, store, files);
            let twice = spec_import(m, my, once.store, once.files);
            &&& twice.code == once.code
            &&& twice.store == once.store
            &&& twice.files == once.files
        }),
{
    let once = spec_import(m, my, store, files);
    let twice = spec_import(m, my, once.store, once.files);
    match spec_import_error(m, my) {
        Some(_) => {},
        None => {
            let cmd = m.first_integer("cmd".spec_bytes())->0;
            let ns = m.first_bin("new_state".spec_bytes());
            if ns is None || sdec_entity(ns->0) is None {
                if cmd == CMD_REMOVE {
                    match m.first_literal("uri".spec_bytes()) {
                        Some(u) => {
                            assert(once.store.remove(u) =~= once.store);
                        },
                        None => {},
                    }
                }
            } else {
                assert(twice.store =~= once.store);
                assert(twice.files =~= once.files);
            }
        },
    }
}

} // verus!
