use crate::applier::{opt_or_empty, spec_file_path, spec_is_file_entity, FileStore};
use crate::codec::{decode_entity, encode_entity, sdec_entity, senc_entity};
use crate::entity::{
    bytes_starts_with, copy_bytes, Entity, SpecEntity, SpecProp, SpecVal,
};
use crate::queue::OutQueue;
use vstd::prelude::*;
use vstd::string::StringSliceAdditionalSpecFns;

verus! {

/// One routing decision of the export-eligibility resolver: the target
/// node (or the wildcard), an optional replacement entity to send in
/// place of the new state, and whether downstream triggers should fire
/// when the record is applied.
pub struct OutValue {
    pub target: Vec<u8>,
    pub indv: Option<Entity>,
    pub enable_scripts: bool,
}

/// The mathematical value of an [`OutValue`].
pub struct SpecOutValue {
    pub target: Seq<u8>,
    pub indv: Option<SpecEntity>,
    pub enable_scripts: bool,
}

impl View for OutValue {
    type V = SpecOutValue;

    open spec fn view(&self) -> SpecOutValue {
        SpecOutValue {
            target: self.target@,
            indv: match self.indv {
                Some(ref e) => Some(e@),
                None => None,
            },
            enable_scripts: self.enable_scripts,
        }
    }
}

/// The delta record the router serializes for one accepted change: the
/// entity identifier, the operation, the outgoing snapshot (left out
/// when empty), the timestamp, and the routing envelope fields.
pub open spec fn spec_export_record(
    uri: Seq<u8>,
    cmd: i64,
    state: SpecEntity,
    msg_id: Seq<u8>,
    source: Seq<u8>,
    target: Seq<u8>,
    date: i64,
    enable_scripts: bool,
) -> SpecEntity {
    let head = seq![SpecProp { key: "uri".spec_bytes(), val: SpecVal::Uri(uri) }];
    let with_ns = if state.id.len() == 0 && state.props.len() == 0 {
        head
    } else {
        head.push(SpecProp { key: "new_state".spec_bytes(), val: SpecVal::Bin(senc_entity(state)) })
    };
    SpecEntity {
        id: msg_id,
        props: with_ns + seq![
            SpecProp { key: "cmd".spec_bytes(), val: SpecVal::Int(cmd) },
            SpecProp { key: "date".spec_bytes(), val: SpecVal::Int(date) },
            SpecProp { key: "source_veda".spec_bytes(), val: SpecVal::Txt(source) },
            SpecProp { key: "target_veda".spec_bytes(), val: SpecVal::Txt(target) },
            SpecProp { key: "enable_scripts".spec_bytes(), val: SpecVal::Flag(enable_scripts) },
        ],
    }
}

/// Serializes the canonical delta record for one accepted change and
/// appends it to the target's durable outbound queue model.
pub fn add_to_queue(
    id: &[u8],
    queue_out: &mut OutQueue,
    cmd: i64,
    new_state_indv: &Entity,
    msg_id: &[u8],
    source: &[u8],
    target: &[u8],
    date: i64,
    enable_scripts: bool,
) -> (r: Result<(), i32>)
    ensures
        r is Ok,
        final(queue_out).recs() == old(queue_out).recs().push(
            senc_entity(
                spec_export_record(
                    id@,
                    cmd,
                    new_state_indv@,
                    msg_id@,
                    source@,
                    target@,
                    date,
                    enable_scripts,
                ),
            ),
        ),
        final(queue_out).cursor == old(queue_out).cursor,
        old(queue_out).wf() ==> final(queue_out).wf(),
{
    let mut rec = Entity::new();
    rec.set_id(msg_id);
    rec.add_uri("uri".as_bytes(), id);
    if !(new_state_indv.id.len() == 0 && new_state_indv.props.len() == 0) {
        rec.add_binary("new_state".as_bytes(), encode_entity(new_state_indv));
    }
    rec.add_integer("cmd".as_bytes(), cmd);
    rec.add_integer("date".as_bytes(), date);
    rec.add_string("source_veda".as_bytes(), source);
    rec.add_string("target_veda".as_bytes(), target);
    rec.add_bool("enable_scripts".as_bytes(), enable_scripts);
    proof {
        assert(rec@.props =~= spec_export_record(
            id@,
            cmd,
            new_state_indv@,
            msg_id@,
            source@,
            target@,
            date,
            enable_scripts,
        ).props);
    }
    let bytes = encode_entity(&rec);
    queue_out.push(bytes.as_slice());
    Ok(())
}

/// The outgoing entity for one decision: the replacement entity if the
/// decision supplied one, else the change's new state; an entity whose
/// type declares a file attachment is completed with the file's bytes
/// from the local file store, when they are there (a missing file is
/// not fatal and the entity goes out without the payload).
pub open spec fn spec_route_one(
    d: SpecOutValue,
    new_state: SpecEntity,
    files: Map<Seq<u8>, Seq<u8>>,
) -> SpecEntity {
    let base = match d.indv {
        Some(e) => e,
        None => new_state,
    };
    if spec_is_file_entity(base) && files.contains_key(spec_file_path(base)) {
        SpecEntity {
            id: base.id,
            props: base.props.push(
                SpecProp {
                    key: "v-s:fileData".spec_bytes(),
                    val: SpecVal::Bin(files[spec_file_path(base)]),
                },
            ),
        }
    } else {
        base
    }
}

/// The serialized records the router appends for a decision list, in order.
pub open spec fn spec_routed_records(
    ds: Seq<SpecOutValue>,
    uri: Seq<u8>,
    cmd: i64,
    new_state: SpecEntity,
    msg_id: Seq<u8>,
    source: Seq<u8>,
    date: i64,
    files: Map<Seq<u8>, Seq<u8>>,
) -> Seq<Seq<u8>>
    decreases ds.len(),
{
    if ds.len() == 0 {
        Seq::empty()
    } else {
        let d = ds.last();
        spec_routed_records(ds.drop_last(), uri, cmd, new_state, msg_id, source, date, files).push(
            senc_entity(
                spec_export_record(
                    uri,
                    cmd,
                    spec_route_one(d, new_state, files),
                    msg_id,
                    source,
                    d.target,
                    date,
                    d.enable_scripts,
                ),
            ),
        )
    }
}

/// Turns one accepted change and the resolver's ordered decision list
/// into per-target queue entries.  An empty decision list replicates
/// nothing.  Success always answers `Ok(true)`: the queue model cannot
/// fail an append, which is the one fatal path of the real router.
pub fn prepare_indv(
    id: &[u8],
    cmd: i64,
    new_state: &Entity,
    date: i64,
    msg_id: &[u8],
    db_id: &[u8],
    export_list: &Vec<OutValue>,
    files: &FileStore,
    queue_out: &mut OutQueue,
) -> (r: Result<bool, i32>)
    ensures
        r == Result::<bool, i32>::Ok(true),
        final(queue_out).recs() == old(queue_out).recs() + spec_routed_records(
            export_list@.map_values(|o: OutValue| o@),
            id@,
            cmd,
            new_state@,
            msg_id@,
            db_id@,
            date,
            files@,
        ),
        final(queue_out).cursor == old(queue_out).cursor,
        old(queue_out).wf() ==> final(queue_out).wf(),
{
    let ghost ds = export_list@.map_values(|o: OutValue| o@);
    let n = export_list.len();
    let mut i: usize = 0;
    proof {
        assert(old(queue_out).recs() + spec_routed_records(
            ds.take(0),
            id@,
            cmd,
            new_state@,
            msg_id@,
            db_id@,
            date,
            files@,
        ) =~= old(queue_out).recs());
    }
    while i < n
        invariant
            0 <= i <= n,
            n == export_list@.len(),
            ds == export_list@.map_values(|o: OutValue| o@),
            ds.len() == n,
            queue_out.recs() == old(queue_out).recs() + spec_routed_records(
                ds.take(i as int),
                id@,
                cmd,
                new_state@,
                msg_id@,
                db_id@,
                date,
                files@,
            ),
            queue_out.cursor == old(queue_out).cursor,
            old(queue_out).wf() ==> queue_out.wf(),
        decreases n - i,
    {
        proof {
            assert(ds[i as int] == export_list@[i as int]@);
        }
        let el = &export_list[i];
        let base: &Entity = match &el.indv {
            Some(e) => e,
            None => new_state,
        };
        let mut outgoing = base.duplicate();
        if outgoing.any_exists("rdf:type".as_bytes(), "v-s:File".as_bytes()) {
            let mut path = copy_bytes("data/files".as_bytes());
            let mut dir = match outgoing.get_first_literal("v-s:filePath".as_bytes()) {
                Some(v) => v,
                None => Vec::new(),
            };
            path.append(&mut dir);
            let mut sep = copy_bytes("/".as_bytes());
            path.append(&mut sep);
            let mut name = match outgoing.get_first_literal("v-s:fileUri".as_bytes()) {
                Some(v) => v,
                None => Vec::new(),
            };
            path.append(&mut name);
            match files.get(path.as_slice()) {
                Some(data) => {
                    let payload = copy_bytes(data.as_slice());
                    outgoing.add_binary("v-s:fileData".as_bytes(), payload);
                },
                None => (),
            }
        }
        proof {
            assert(outgoing@ == spec_route_one(ds[i as int], new_state@, files@));
        }
        let res = add_to_queue(
            id,
            queue_out,
            cmd,
            &outgoing,
            msg_id,
            db_id,
            el.target.as_slice(),
            date,
            el.enable_scripts,
        );
        let _ok = res;
        proof {
            let t = ds.take(i + 1);
            assert(t.drop_last() =~= ds.take(i as int));
            assert(t.last() == ds[i as int]);
            assert(queue_out.recs() =~= old(queue_out).recs() + spec_routed_records(
                ds.take(i + 1),
                id@,
                cmd,
                new_state@,
                msg_id@,
                db_id@,
                date,
                files@,
            ));
        }
        i = i + 1;
    }
    proof {
        assert(ds.take(n as int) =~= ds);
    }
    Ok(true)
}

/// One local change lifted off the change queue, ready for the
/// export-eligibility resolver.
pub struct PreparedChange {
    pub id: Vec<u8>,
    pub cmd: i64,
    pub prev_state: Option<Entity>,
    pub new_state: Entity,
    pub user_id: Vec<u8>,
    pub date: i64,
    pub msg_id: Vec<u8>,
}

/// Whether a change-queue element is skipped outright: no operation
/// code, or an event produced by this replication engine itself (its
/// event identifier starts with the engine's own tag), which must not
/// be re-exported.
pub open spec fn spec_prepare_skip(m: SpecEntity) -> bool {
    ||| m.first_integer("cmd".spec_bytes()) is None
    ||| ({
        let ev = opt_or_empty(m.first_literal("event_id".spec_bytes()));
        ev.len() >= "exim".spec_bytes().len() && ev.subrange(
            0,
            "exim".spec_bytes().len() as int,
        ) == "exim".spec_bytes()
    })
}

/// The snapshot a binary property carries, as an entity: an absent or
/// unparseable snapshot reads as the empty entity.
pub open spec fn spec_inner_state(m: SpecEntity, key: Seq<u8>) -> SpecEntity {
    match m.first_bin(key) {
        Some(b) => match sdec_entity(b) {
            Some(e) => e,
            None => SpecEntity { id: Seq::empty(), props: Seq::empty() },
        },
        None => SpecEntity { id: Seq::empty(), props: Seq::empty() },
    }
}

/// Lifts one element of the local change queue into a prepared change,
/// or skips it.
pub fn prepare(queue_element: &Entity) -> (r: Option<PreparedChange>)
    ensures
        ({
            let m = queue_element@;
            match r {
                None => spec_prepare_skip(m),
                Some(p) => {
                    &&& !spec_prepare_skip(m)
                    &&& Some(p.cmd) == m.first_integer("cmd".spec_bytes())
                    &&& p.id@ == opt_or_empty(m.first_literal("uri".spec_bytes()))
                    &&& p.user_id@ == opt_or_empty(m.first_literal("user_uri".spec_bytes()))
                    &&& p.date == (match m.first_integer("date".spec_bytes()) {
                        Some(d) => d,
                        None => 0i64,
                    })
                    &&& p.msg_id@ == m.id
                    &&& p.new_state@ == spec_inner_state(m, "new_state".spec_bytes())
                    &&& (match p.prev_state {
                        Some(ref e) => m.first_bin("prev_state".spec_bytes()) matches Some(b)
                            && sdec_entity(b) == Some(e@),
                        None => m.first_bin("prev_state".spec_bytes()) matches Some(b) ==>
                            sdec_entity(b) is None,
                    })
                },
            }
        }),
{
    let cmd = match queue_element.get_first_integer("cmd".as_bytes()) {
        Some(c) => c,
        None => {
            return None;
        },
    };
    let event_id = match queue_element.get_first_literal("event_id".as_bytes()) {
        Some(v) => v,
        None => Vec::new(),
    };
    if bytes_starts_with(event_id.as_slice(), "exim".as_bytes()) {
        return None;
    }
    let prev_state = match queue_element.get_first_binobj("prev_state".as_bytes()) {
        Some(b) => decode_entity(b.as_slice()),
        None => None,
    };
    let new_state = match queue_element.get_first_binobj("new_state".as_bytes()) {
        Some(b) => match decode_entity(b.as_slice()) {
            Some(e) => e,
            None => Entity::new(),
        },
        None => Entity::new(),
    };
    let id = match queue_element.get_first_literal("uri".as_bytes()) {
        Some(v) => v,
        None => Vec::new(),
    };
    let user_id = match queue_element.get_first_literal("user_uri".as_bytes()) {
        Some(v) => v,
        None => Vec::new(),
    };
    let date = match queue_element.get_first_integer("date".as_bytes()) {
        Some(d) => d,
        None => 0,
    };
    let msg_id = queue_element.get_id();
    Some(
        PreparedChange {
            id,
            cmd,
            prev_state,
            new_state,
            user_id,
            date,
            msg_id,
        },
    )
}

} // verus!
