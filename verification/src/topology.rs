use crate::entity::{copy_bytes, spec_has_key, Entity, SpecEntity, SpecProp, SpecVal};
use crate::kvstore::KvStore;
use vstd::prelude::*;
use vstd::string::StringSliceAdditionalSpecFns;

verus! {

/// The linked-node registry: logical peer identifier to transport address.
pub type NodeRegistry = KvStore<Vec<u8>>;

/// The registry a list of linked-node entities describes: entries
/// flagged deleted are skipped, an entry without an address is skipped,
/// and the rest map the declared node identifier to the address.
pub open spec fn spec_registry_of(linked: Seq<SpecEntity>) -> Map<Seq<u8>, Seq<u8>>
    decreases linked.len(),
{
    if linked.len() == 0 {
        Map::empty()
    } else {
        let front = spec_registry_of(linked.drop_last());
        let e = linked.last();
        if spec_has_key(e.props, "v-s:delete".spec_bytes()) {
            front
        } else {
            match e.first_literal("rdf:value".spec_bytes()) {
                Some(addr) => front.insert(
                    match e.first_literal("cfg:node_id".spec_bytes()) {
                        Some(idv) => idv,
                        None => Seq::empty(),
                    },
                    addr,
                ),
                None => front,
            }
        }
    }
}

/// Refreshes the peer registry from the configuration entity's
/// monotonic counter: only a counter strictly above the last observed
/// one rebuilds the registry, wholesale, from the linked-node entities.
pub fn load_linked_nodes(
    cfg_node: &Entity,
    linked: &Vec<Entity>,
    node_upd_counter: &mut i64,
    registry: &mut NodeRegistry,
)
    ensures
        ({
            match cfg_node@.first_integer("v-s:updateCounter".spec_bytes()) {
                Some(c) => {
                    if c > *old(node_upd_counter) {
                        &&& *final(node_upd_counter) == c
                        &&& final(registry)@ == spec_registry_of(
                            linked@.map_values(|e: Entity| e@),
                        )
                    } else {
                        &&& *final(node_upd_counter) == *old(node_upd_counter)
                        &&& final(registry)@ == old(registry)@
                    }
                },
                None => {
                    &&& *final(node_upd_counter) == *old(node_upd_counter)
                    &&& final(registry)@ == old(registry)@
                },
            }
        }),
{
    let c = match cfg_node.get_first_integer("v-s:updateCounter".as_bytes()) {
        Some(c) => c,
        None => {
            return ;
        },
    };
    if c <= *node_upd_counter {
        return ;
    }
    let ghost es = linked@.map_values(|e: Entity| e@);
    let mut fresh: NodeRegistry = KvStore::new();
    let n = linked.len();
    let mut i: usize = 0;
    proof {
        assert(fresh@ =~= spec_registry_of(es.take(0)));
    }
    while i < n
        invariant
            0 <= i <= n,
            n == linked@.len(),
            es == linked@.map_values(|e: Entity| e@),
            es.len() == n,
            fresh@ == spec_registry_of(es.take(i as int)),
        decreases n - i,
    {
        proof {
            assert(es[i as int] == linked@[i as int]@);
        }
        let e = &linked[i];
        if !e.is_exists("v-s:delete".as_bytes()) {
            match e.get_first_literal("rdf:value".as_bytes()) {
                Some(addr) => {
                    let key = match e.get_first_literal("cfg:node_id".as_bytes()) {
                        Some(v) => v,
                        None => Vec::new(),
                    };
                    fresh.upsert(key.as_slice(), addr);
                },
                None => (),
            }
        }
        proof {
            let t = es.take(i + 1);
            assert(t.drop_last() =~= es.take(i as int));
            assert(t.last() == es[i as int]);
            assert(fresh@ =~= spec_registry_of(es.take(i + 1)));
        }
        i = i + 1;
    }
    proof {
        assert(es.take(n as int) =~= es);
    }
    *node_upd_counter = c;
    *registry = fresh;
}

/// Reads the persisted node identity off the identity-pointer entity,
/// when the store held one.
pub fn get_db_id(sys_entity: Option<&Entity>) -> (r: Option<Vec<u8>>)
    ensures
        ({
            match sys_entity {
                Some(e) => match r {
                    Some(v) => e@.first_literal("sys:id".spec_bytes()) == Some(v@),
                    None => e@.first_literal("sys:id".spec_bytes()) is None,
                },
                None => r is None,
            }
        }),
{
    match sys_entity {
        Some(e) => e.get_first_literal("sys:id".as_bytes()),
        None => None,
    }
}

/// Relies on uuid's `new_v4` and its hyphenated text form: a fresh
/// random identifier, 36 characters long.  Nothing else is promised of
/// the value: it depends on the process's entropy source.
#[verifier::external_body]
fn gen_uuid_hyphenated() -> (r: Vec<u8>)
    ensures
        r@.len() == 36,
{
    uuid::Uuid::new_v4().hyphenated().to_string().into_bytes()
}

/// The two writes of the identity bootstrap, prepared: a fresh node
/// entity, and the identity-pointer entity referencing it.  No rollback
/// ties the two writes together; a caller that fails the second write
/// must retry the bootstrap.
pub struct IdentityBootstrap {
    pub node_id: Vec<u8>,
    pub node_entity: Entity,
    pub pointer_entity: Entity,
}

/// Draws a fresh random node identity and builds the two entities its
/// persistence takes.  The identity is the `sys:` prefix followed by
/// the hyphenated form of a fresh random identifier — 40 bytes in all,
/// long enough to pass the applier's origin plausibility check.
pub fn create_db_id() -> (r: IdentityBootstrap)
    ensures
        r.node_id@.len() == 40,
        r.node_id@.subrange(0, 4) == "sys:".spec_bytes(),
        r.node_entity@.id == r.node_id@,
        r.node_entity@.props == seq![
            SpecProp { key: "rdf:type".spec_bytes(), val: SpecVal::Uri("sys:Node".spec_bytes()) },
        ],
        r.pointer_entity@.id == "cfg:system".spec_bytes(),
        r.pointer_entity@.props == seq![
            SpecProp { key: "sys:id".spec_bytes(), val: SpecVal::Txt(r.node_id@) },
        ],
{
    let mut node_id = copy_bytes("sys:".as_bytes());
    let mut tail = gen_uuid_hyphenated();
    node_id.append(&mut tail);
    proof {
        reveal_strlit("sys:");
        assert(vstd::string::is_ascii("sys:"));
        vstd::string::is_ascii_spec_bytes("sys:");
        assert("sys:".spec_bytes().len() == 4);
        assert(node_id@.subrange(0, 4) =~= "sys:".spec_bytes());
    }
    let mut node_entity = Entity::new();
    node_entity.set_id(node_id.as_slice());
    node_entity.add_uri("rdf:type".as_bytes(), "sys:Node".as_bytes());
    let mut pointer_entity = Entity::new();
    pointer_entity.set_id("cfg:system".as_bytes());
    pointer_entity.add_string("sys:id".as_bytes(), node_id.as_slice());
    proof {
        assert(node_entity@.props =~= seq![
            SpecProp { key: "rdf:type".spec_bytes(), val: SpecVal::Uri("sys:Node".spec_bytes()) },
        ]);
        assert(pointer_entity@.props =~= seq![
            SpecProp { key: "sys:id".spec_bytes(), val: SpecVal::Txt(node_id@) },
        ]);
    }
    IdentityBootstrap { node_id, node_entity, pointer_entity }
}

} // verus!
