use crate::entity::{Entity, Prop, SpecEntity, SpecProp, SpecVal, Val};
use vstd::bytes::{
    lemma_auto_spec_u64_to_from_le_bytes, spec_u64_from_le_bytes, spec_u64_to_le_bytes,
    u64_from_le_bytes, u64_to_le_bytes,
};
use vstd::prelude::*;
use vstd::slice::{slice_subrange, slice_to_vec};

verus! {

// The compact binary form of an entity snapshot.  Every length is a
// 64-bit little-endian count of bytes; every value starts with one tag
// byte.  The form is self-delimiting, and decoding rejects any input
// that is not exactly the encoding of one entity.
pub const TAG_URI: u8 = 0;

pub const TAG_TXT: u8 = 1;

pub const TAG_INT: u8 = 2;

pub const TAG_FLAG: u8 = 3;

pub const TAG_BIN: u8 = 4;

pub open spec fn senc_u64(x: u64) -> Seq<u8> {
    spec_u64_to_le_bytes(x)
}

pub open spec fn senc_bytes(b: Seq<u8>) -> Seq<u8> {
    senc_u64(b.len() as u64) + b
}

pub open spec fn senc_val(v: SpecVal) -> Seq<u8> {
    match v {
        SpecVal::Uri(b) => seq![TAG_URI] + senc_bytes(b),
        SpecVal::Txt(b) => seq![TAG_TXT] + senc_bytes(b),
        SpecVal::Int(i) => seq![TAG_INT] + senc_u64(i as u64),
        SpecVal::Flag(f) => seq![TAG_FLAG, if f { 1u8 } else { 0u8 }],
        SpecVal::Bin(b) => seq![TAG_BIN] + senc_bytes(b),
    }
}

pub open spec fn senc_prop(p: SpecProp) -> Seq<u8> {
    senc_bytes(p.key) + senc_val(p.val)
}

pub open spec fn senc_props(ps: Seq<SpecProp>) -> Seq<u8>
    decreases ps.len(),
{
    if ps.len() == 0 {
        Seq::empty()
    } else {
        senc_prop(ps[0]) + senc_props(ps.drop_first())
    }
}

/// The compact binary form of an entity snapshot.
pub open spec fn senc_entity(e: SpecEntity) -> Seq<u8> {
    senc_bytes(e.id) + senc_u64(e.props.len() as u64) + senc_props(e.props)
}

/// Whether every byte string of the entity is small enough for its
/// length to be handled exactly on this machine.  Every entity held in
/// memory satisfies this; only unboundedly large mathematical entities
/// do not.
pub open spec fn val_encodable(v: SpecVal) -> bool {
    match v {
        SpecVal::Uri(b) => b.len() <= usize::MAX,
        SpecVal::Txt(b) => b.len() <= usize::MAX,
        SpecVal::Int(_) => true,
        SpecVal::Flag(_) => true,
        SpecVal::Bin(b) => b.len() <= usize::MAX,
    }
}

pub open spec fn encodable(e: SpecEntity) -> bool {
    &&& e.id.len() <= usize::MAX
    &&& e.props.len() <= usize::MAX
    &&& forall|i: int|
        0 <= i < e.props.len() ==> #[trigger] e.props[i].key.len() <= usize::MAX && val_encodable(
            e.props[i].val,
        )
}

// Cursor-style mathematical decoders.  Each takes the whole buffer and
// a position, and yields the decoded value with the position after it,
// or nothing if the bytes there are not a well-formed encoding.
pub open spec fn sdec_u64(b: Seq<u8>, pos: int) -> Option<(u64, int)> {
    if 0 <= pos && pos + 8 <= b.len() {
        Some((spec_u64_from_le_bytes(b.subrange(pos, pos + 8)), pos + 8))
    } else {
        None
    }
}

pub open spec fn sdec_bytes(b: Seq<u8>, pos: int) -> Option<(Seq<u8>, int)> {
    match sdec_u64(b, pos) {
        Some((n, p)) => if n <= usize::MAX && p + n <= b.len() {
            Some((b.subrange(p, p + n), p + n))
        } else {
            None
        },
        None => None,
    }
}

pub open spec fn sdec_val(b: Seq<u8>, pos: int) -> Option<(SpecVal, int)> {
    if !(0 <= pos && pos + 1 <= b.len()) {
        None
    } else {
        let tag = b[pos];
        if tag == TAG_URI {
            match sdec_bytes(b, pos + 1) {
                Some((v, p)) => Some((SpecVal::Uri(v), p)),
                None => None,
            }
        } else if tag == TAG_TXT {
            match sdec_bytes(b, pos + 1) {
                Some((v, p)) => Some((SpecVal::Txt(v), p)),
                None => None,
            }
        } else if tag == TAG_INT {
            match sdec_u64(b, pos + 1) {
                Some((x, p)) => Some((SpecVal::Int(x as i64), p)),
                None => None,
            }
        } else if tag == TAG_FLAG {
            if pos + 2 <= b.len() && (b[pos + 1] == 0 || b[pos + 1] == 1) {
                Some((SpecVal::Flag(b[pos + 1] == 1), pos + 2))
            } else {
                None
            }
        } else if tag == TAG_BIN {
            match sdec_bytes(b, pos + 1) {
                Some((v, p)) => Some((SpecVal::Bin(v), p)),
                None => None,
            }
        } else {
            None
        }
    }
}

pub open spec fn sdec_prop(b: Seq<u8>, pos: int) -> Option<(SpecProp, int)> {
    match sdec_bytes(b, pos) {
        Some((k, p)) => match sdec_val(b, p) {
            Some((v, q)) => Some((SpecProp { key: k, val: v }, q)),
            None => None,
        },
        None => None,
    }
}

pub open spec fn sdec_props(b: Seq<u8>, pos: int, n: nat) -> Option<(Seq<SpecProp>, int)>
    decreases n,
{
    if n == 0 {
        Some((Seq::empty(), pos))
    } else {
        match sdec_prop(b, pos) {
            Some((p, q)) => match sdec_props(b, q, (n - 1) as nat) {
                Some((rest, r)) => Some((seq![p] + rest, r)),
                None => None,
            },
            None => None,
        }
    }
}

/// The entity a byte string is the encoding of, if it is one.
pub open spec fn sdec_entity(b: Seq<u8>) -> Option<SpecEntity> {
    match sdec_bytes(b, 0) {
        Some((id, p)) => match sdec_u64(b, p) {
            Some((n, q)) => if n <= usize::MAX {
                match sdec_props(b, q, n as nat) {
                    Some((ps, r)) => if r == b.len() {
                        Some(SpecEntity { id, props: ps })
                    } else {
                        None
                    },
                    None => None,
                }
            } else {
                None
            },
            None => None,
        },
        None => None,
    }
}

/// Whether the bytes of `part` stand in `b` at position `pos`.
pub open spec fn at_pos(b: Seq<u8>, pos: int, part: Seq<u8>) -> bool {
    &&& 0 <= pos
    &&& pos + part.len() <= b.len()
    &&& b.subrange(pos, pos + part.len()) == part
}

/// A concatenation standing at a position splits into its two parts.
proof fn lemma_at_pos_split(b: Seq<u8>, pos: int, x: Seq<u8>, y: Seq<u8>)
    requires
        at_pos(b, pos, x + y),
    ensures
        at_pos(b, pos, x),
        at_pos(b, pos + x.len(), y),
{
    let whole = b.subrange(pos, pos + x.len() + y.len());
    assert(b.subrange(pos, pos + x.len()) =~= x) by {
        assert forall|i: int| 0 <= i < x.len() implies b.subrange(pos, pos + x.len())[i] == x[i] by {
            assert(whole[i] == (x + y)[i]);
        }
    }
    assert(b.subrange(pos + x.len(), pos + x.len() + y.len()) =~= y) by {
        assert forall|i: int|
            0 <= i < y.len() implies b.subrange(pos + x.len(), pos + x.len() + y.len())[i]
            == y[i] by {
            assert(whole[x.len() + i] == (x + y)[x.len() + i]);
        }
    }
}

proof fn lemma_sdec_u64_at(b: Seq<u8>, pos: int, x: u64)
    requires
        at_pos(b, pos, senc_u64(x)),
    ensures
        sdec_u64(b, pos) == Some((x, pos + 8)),
{
    lemma_auto_spec_u64_to_from_le_bytes();
    assert(senc_u64(x).len() == 8);
    assert(b.subrange(pos, pos + 8) == senc_u64(x));
}

proof fn lemma_sdec_bytes_at(b: Seq<u8>, pos: int, v: Seq<u8>)
    requires
        at_pos(b, pos, senc_bytes(v)),
        v.len() <= usize::MAX,
    ensures
        sdec_bytes(b, pos) == Some((v, pos + 8 + v.len())),
{
    lemma_auto_spec_u64_to_from_le_bytes();
    lemma_at_pos_split(b, pos, senc_u64(v.len() as u64), v);
    lemma_sdec_u64_at(b, pos, v.len() as u64);
    assert(v.len() as u64 as int == v.len() as int);
    assert(b.subrange(pos + 8, pos + 8 + v.len()) == v);
}

proof fn lemma_sdec_val_at(b: Seq<u8>, pos: int, v: SpecVal)
    requires
        at_pos(b, pos, senc_val(v)),
        val_encodable(v),
    ensures
        sdec_val(b, pos) == Some((v, pos + senc_val(v).len())),
{
    lemma_auto_spec_u64_to_from_le_bytes();
    match v {
        SpecVal::Uri(bs) => {
            lemma_at_pos_split(b, pos, seq![TAG_URI], senc_bytes(bs));
            assert(b[pos] == b.subrange(pos, pos + 1)[0]);
            lemma_sdec_bytes_at(b, pos + 1, bs);
        },
        SpecVal::Txt(bs) => {
            lemma_at_pos_split(b, pos, seq![TAG_TXT], senc_bytes(bs));
            assert(b[pos] == b.subrange(pos, pos + 1)[0]);
            lemma_sdec_bytes_at(b, pos + 1, bs);
        },
        SpecVal::Int(i) => {
            lemma_at_pos_split(b, pos, seq![TAG_INT], senc_u64(i as u64));
            assert(b[pos] == b.subrange(pos, pos + 1)[0]);
            lemma_sdec_u64_at(b, pos + 1, i as u64);
            assert(((i as u64) as i64) == i) by (bit_vector);
        },
        SpecVal::Flag(f) => {
            let enc = senc_val(v);
            assert(enc.len() == 2);
            assert(b[pos] == b.subrange(pos, pos + 2)[0]);
            assert(b[pos + 1] == b.subrange(pos, pos + 2)[1]);
            assert(b[pos] == TAG_FLAG);
            assert(b[pos + 1] == (if f { 1u8 } else { 0u8 }));
        },
        SpecVal::Bin(bs) => {
            lemma_at_pos_split(b, pos, seq![TAG_BIN], senc_bytes(bs));
            assert(b[pos] == b.subrange(pos, pos + 1)[0]);
            lemma_sdec_bytes_at(b, pos + 1, bs);
        },
    }
}

proof fn lemma_sdec_prop_at(b: Seq<u8>, pos: int, p: SpecProp)
    requires
        at_pos(b, pos, senc_prop(p)),
        p.key.len() <= usize::MAX,
        val_encodable(p.val),
    ensures
        sdec_prop(b, pos) == Some((p, pos + senc_prop(p).len())),
{
    lemma_at_pos_split(b, pos, senc_bytes(p.key), senc_val(p.val));
    lemma_sdec_bytes_at(b, pos, p.key);
    lemma_auto_spec_u64_to_from_le_bytes();
    lemma_sdec_val_at(b, pos + senc_bytes(p.key).len(), p.val);
}

proof fn lemma_sdec_props_at(b: Seq<u8>, pos: int, ps: Seq<SpecProp>)
    requires
        at_pos(b, pos, senc_props(ps)),
        forall|i: int|
            0 <= i < ps.len() ==> #[trigger] ps[i].key.len() <= usize::MAX && val_encodable(
                ps[i].val,
            ),
    ensures
        sdec_props(b, pos, ps.len()) == Some((ps, pos + senc_props(ps).len())),
    decreases ps.len(),
{
    if ps.len() == 0 {
    } else {
        lemma_at_pos_split(b, pos, senc_prop(ps[0]), senc_props(ps.drop_first()));
        lemma_sdec_prop_at(b, pos, ps[0]);
        let q = pos + senc_prop(ps[0]).len();
        assert(forall|i: int|
            0 <= i < ps.drop_first().len() ==> #[trigger] ps.drop_first()[i].key.len()
                <= usize::MAX && val_encodable(ps.drop_first()[i].val)) by {
            assert(forall|i: int|
                0 <= i < ps.drop_first().len() ==> ps.drop_first()[i] == ps[i + 1]);
        }
        lemma_sdec_props_at(b, q, ps.drop_first());
        assert(seq![ps[0]] + ps.drop_first() =~= ps);
    }
}

/// Round trip of the snapshot codec: decoding the encoding of any
/// entity that fits in memory yields that entity again, exactly.
pub proof fn lemma_codec_round_trip(e: SpecEntity)
    requires
        encodable(e),
    ensures
        sdec_entity(senc_entity(e)) == Some(e),
{
    let b = senc_entity(e);
    lemma_auto_spec_u64_to_from_le_bytes();
    assert(b.subrange(0, b.len() as int) =~= b);
    assert(at_pos(b, 0, senc_bytes(e.id) + (senc_u64(e.props.len() as u64) + senc_props(e.props))))
        by {
        assert(senc_bytes(e.id) + (senc_u64(e.props.len() as u64) + senc_props(e.props)) =~= b);
    }
    lemma_at_pos_split(
        b,
        0,
        senc_bytes(e.id),
        senc_u64(e.props.len() as u64) + senc_props(e.props),
    );
    lemma_sdec_bytes_at(b, 0, e.id);
    let p = 8 + e.id.len() as int;
    lemma_at_pos_split(b, p, senc_u64(e.props.len() as u64), senc_props(e.props));
    lemma_sdec_u64_at(b, p, e.props.len() as u64);
    let q = p + 8;
    lemma_sdec_props_at(b, q, e.props);
}

// Canonicity: the compact form is strict, so a parse can succeed only
// on the exact encoding of its result.
proof fn lemma_sdec_u64_canon(b: Seq<u8>, pos: int)
    requires
        sdec_u64(b, pos) is Some,
    ensures
        ({
            let t = sdec_u64(b, pos)->0;
            &&& t.1 == pos + 8
            &&& pos + 8 <= b.len()
            &&& b.subrange(pos, t.1) == senc_u64(t.0)
        }),
{
    lemma_auto_spec_u64_to_from_le_bytes();
    let sub = b.subrange(pos, pos + 8);
    assert(spec_u64_to_le_bytes(spec_u64_from_le_bytes(sub)) == sub);
}

proof fn lemma_sdec_bytes_canon(b: Seq<u8>, pos: int)
    requires
        sdec_bytes(b, pos) is Some,
    ensures
        ({
            let t = sdec_bytes(b, pos)->0;
            &&& pos < t.1 <= b.len()
            &&& t.0.len() <= usize::MAX
            &&& b.subrange(pos, t.1) == senc_bytes(t.0)
        }),
{
    lemma_sdec_u64_canon(b, pos);
    let len_field = sdec_u64(b, pos)->0;
    let n = len_field.0 as int;
    let t = sdec_bytes(b, pos)->0;
    let v = t.0;
    assert(v.len() == n);
    assert(v.len() as u64 == len_field.0);
    assert(b.subrange(pos, t.1) =~= senc_bytes(v)) by {
        assert forall|i: int| 0 <= i < 8 + n implies b.subrange(pos, pos + 8 + n)[i] == senc_bytes(
            v,
        )[i] by {
            if i < 8 {
                assert(b.subrange(pos, pos + 8)[i] == senc_u64(v.len() as u64)[i]);
            } else {
                assert(v[i - 8] == b[pos + i]);
            }
        }
    }
}

proof fn lemma_sdec_val_canon(b: Seq<u8>, pos: int)
    requires
        sdec_val(b, pos) is Some,
    ensures
        ({
            let t = sdec_val(b, pos)->0;
            &&& pos < t.1 <= b.len()
            &&& val_encodable(t.0)
            &&& b.subrange(pos, t.1) == senc_val(t.0)
        }),
{
    let t = sdec_val(b, pos)->0;
    let tag = b[pos];
    if tag == TAG_URI || tag == TAG_TXT || tag == TAG_BIN {
        lemma_sdec_bytes_canon(b, pos + 1);
        let inner = sdec_bytes(b, pos + 1)->0;
        assert(b.subrange(pos, t.1) =~= senc_val(t.0)) by {
            assert forall|i: int| 0 <= i < t.1 - pos implies b.subrange(pos, t.1)[i] == senc_val(
                t.0,
            )[i] by {
                if i >= 1 {
                    assert(b.subrange(pos + 1, t.1)[i - 1] == senc_bytes(inner.0)[i - 1]);
                }
            }
        }
    } else if tag == TAG_INT {
        lemma_sdec_u64_canon(b, pos + 1);
        let word = sdec_u64(b, pos + 1)->0;
        let x = word.0;
        assert(((x as i64) as u64) == x) by (bit_vector);
        assert(b.subrange(pos, t.1) =~= senc_val(t.0)) by {
            assert forall|i: int| 0 <= i < t.1 - pos implies b.subrange(pos, t.1)[i] == senc_val(
                t.0,
            )[i] by {
                if i >= 1 {
                    assert(b.subrange(pos + 1, t.1)[i - 1] == senc_u64(x)[i - 1]);
                }
            }
        }
    } else {
        assert(tag == TAG_FLAG);
        assert(b.subrange(pos, pos + 2) =~= senc_val(t.0));
    }
}

proof fn lemma_sdec_prop_canon(b: Seq<u8>, pos: int)
    requires
        sdec_prop(b, pos) is Some,
    ensures
        ({
            let t = sdec_prop(b, pos)->0;
            &&& pos < t.1 <= b.len()
            &&& t.0.key.len() <= usize::MAX
            &&& val_encodable(t.0.val)
            &&& b.subrange(pos, t.1) == senc_prop(t.0)
        }),
{
    lemma_sdec_bytes_canon(b, pos);
    let k = sdec_bytes(b, pos)->0;
    lemma_sdec_val_canon(b, k.1);
    let v = sdec_val(b, k.1)->0;
    let t = sdec_prop(b, pos)->0;
    assert(b.subrange(pos, t.1) =~= senc_prop(t.0)) by {
        assert forall|i: int| 0 <= i < t.1 - pos implies b.subrange(pos, t.1)[i] == senc_prop(
            t.0,
        )[i] by {
            if i < k.1 - pos {
                assert(b.subrange(pos, k.1)[i] == senc_bytes(k.0)[i]);
            } else {
                assert(b.subrange(k.1, t.1)[i - (k.1 - pos)] == senc_val(v.0)[i - (k.1 - pos)]);
            }
        }
    }
}

proof fn lemma_sdec_props_canon(b: Seq<u8>, pos: int, n: nat)
    requires
        sdec_props(b, pos, n) is Some,
        0 <= pos <= b.len(),
    ensures
        ({
            let t = sdec_props(b, pos, n)->0;
            &&& t.0.len() == n
            &&& pos <= t.1 <= b.len()
            &&& b.subrange(pos, t.1) == senc_props(t.0)
            &&& forall|i: int|
                0 <= i < t.0.len() ==> #[trigger] t.0[i].key.len() <= usize::MAX && val_encodable(
                    t.0[i].val,
                )
        }),
    decreases n,
{
    if n == 0 {
        let t = sdec_props(b, pos, n)->0;
        assert(b.subrange(pos, pos) =~= senc_props(t.0));
    } else {
        lemma_sdec_prop_canon(b, pos);
        let first = sdec_prop(b, pos)->0;
        lemma_sdec_props_canon(b, first.1, (n - 1) as nat);
        let rest = sdec_props(b, first.1, (n - 1) as nat)->0;
        let t = sdec_props(b, pos, n)->0;
        assert(t.0 == seq![first.0] + rest.0);
        assert(t.0[0] == first.0);
        assert(t.0.drop_first() =~= rest.0);
        assert(b.subrange(pos, t.1) =~= senc_props(t.0)) by {
            assert forall|i: int| 0 <= i < t.1 - pos implies b.subrange(pos, t.1)[i] == senc_props(
                t.0,
            )[i] by {
                if i < first.1 - pos {
                    assert(b.subrange(pos, first.1)[i] == senc_prop(first.0)[i]);
                } else {
                    assert(b.subrange(first.1, t.1)[i - (first.1 - pos)] == senc_props(rest.0)[i - (
                    first.1 - pos)]);
                }
            }
        }
        assert forall|i: int|
            0 <= i < t.0.len() implies #[trigger] t.0[i].key.len() <= usize::MAX && val_encodable(
            t.0[i].val,
        ) by {
            if i >= 1 {
                assert(t.0[i] == rest.0[i - 1]);
            }
        }
    }
}

/// Canonicity of the snapshot codec: a byte string that parses at all
/// is exactly the encoding of the entity it parses to.  Together with
/// the round trip this makes the compact form strict: encodings and
/// parseable strings are the same set, in one-to-one correspondence
/// with entities.
pub proof fn lemma_codec_canonical(b: Seq<u8>)
    requires
        sdec_entity(b) is Some,
    ensures
        encodable(sdec_entity(b)->0),
        b == senc_entity(sdec_entity(b)->0),
{
    let e = sdec_entity(b)->0;
    lemma_sdec_bytes_canon(b, 0);
    let idt = sdec_bytes(b, 0)->0;
    lemma_sdec_u64_canon(b, idt.1);
    let cnt = sdec_u64(b, idt.1)->0;
    lemma_sdec_props_canon(b, cnt.1, cnt.0 as nat);
    let pst = sdec_props(b, cnt.1, cnt.0 as nat)->0;
    assert(pst.1 == b.len());
    assert(e.props.len() as u64 == cnt.0);
    assert(b =~= senc_entity(e)) by {
        assert forall|i: int| 0 <= i < b.len() implies b[i] == senc_entity(e)[i] by {
            if i < idt.1 {
                assert(b.subrange(0, idt.1)[i] == senc_bytes(idt.0)[i]);
            } else if i < cnt.1 {
                assert(b.subrange(idt.1, cnt.1)[i - idt.1] == senc_u64(cnt.0)[i - idt.1]);
            } else {
                assert(b.subrange(cnt.1, pst.1)[i - cnt.1] == senc_props(pst.0)[i - cnt.1]);
            }
        }
    }
}

// Executable encoder.
fn push_u64(out: &mut Vec<u8>, x: u64)
    ensures
        final(out)@ == old(out)@ + senc_u64(x),
{
    let mut piece = u64_to_le_bytes(x);
    out.append(&mut piece);
}

fn push_bytes_field(out: &mut Vec<u8>, v: &[u8])
    ensures
        final(out)@ == old(out)@ + senc_bytes(v@),
{
    push_u64(out, v.len() as u64);
    let mut piece = slice_to_vec(v);
    out.append(&mut piece);
    proof {
        assert(out@ =~= old(out)@ + senc_bytes(v@));
    }
}

fn push_val(out: &mut Vec<u8>, v: &Val)
    ensures
        final(out)@ == old(out)@ + senc_val(v@),
{
    match v {
        Val::Uri(b) => {
            out.push(TAG_URI);
            push_bytes_field(out, b.as_slice());
        },
        Val::Txt(b) => {
            out.push(TAG_TXT);
            push_bytes_field(out, b.as_slice());
        },
        Val::Int(i) => {
            out.push(TAG_INT);
            push_u64(out, *i as u64);
        },
        Val::Flag(f) => {
            out.push(TAG_FLAG);
            out.push(if *f { 1u8 } else { 0u8 });
        },
        Val::Bin(b) => {
            out.push(TAG_BIN);
            push_bytes_field(out, b.as_slice());
        },
    }
    proof {
        assert(out@ =~= old(out)@ + senc_val(v@));
    }
}

/// Encoding one more property extends the encoding of those before it.
proof fn lemma_senc_props_push(ps: Seq<SpecProp>, p: SpecProp)
    ensures
        senc_props(ps.push(p)) == senc_props(ps) + senc_prop(p),
    decreases ps.len(),
{
    let l = ps.push(p);
    if ps.len() == 0 {
        assert(l.drop_first() =~= Seq::<SpecProp>::empty());
        assert(l[0] == p);
        assert(senc_props(l) == senc_prop(p) + senc_props(Seq::<SpecProp>::empty()));
        assert(senc_props(Seq::<SpecProp>::empty()) == Seq::<u8>::empty());
        assert(senc_prop(p) + Seq::<u8>::empty() =~= senc_prop(p));
        assert(senc_props(ps) == Seq::<u8>::empty());
        assert(Seq::<u8>::empty() + senc_prop(p) =~= senc_prop(p));
    } else {
        assert(l.drop_first() =~= ps.drop_first().push(p));
        lemma_senc_props_push(ps.drop_first(), p);
        assert(l[0] == ps[0]);
        assert(senc_props(l) == senc_prop(ps[0]) + senc_props(ps.drop_first().push(p)));
        assert(senc_props(ps.drop_first().push(p)) == senc_props(ps.drop_first()) + senc_prop(p));
        assert(senc_prop(ps[0]) + (senc_props(ps.drop_first()) + senc_prop(p)) =~= (senc_prop(
            ps[0],
        ) + senc_props(ps.drop_first())) + senc_prop(p));
        assert(senc_props(ps) == senc_prop(ps[0]) + senc_props(ps.drop_first()));
    }
}

/// Serializes an entity snapshot to its compact binary form.
pub fn encode_entity(e: &Entity) -> (r: Vec<u8>)
    ensures
        r@ == senc_entity(e@),
{
    let mut out: Vec<u8> = Vec::new();
    push_bytes_field(&mut out, e.id.as_slice());
    push_u64(&mut out, e.props.len() as u64);
    let ghost head = senc_bytes(e@.id) + senc_u64(e@.props.len() as u64);
    proof {
        assert(out@ =~= head + senc_props(e@.props.take(0)));
    }
    let n = e.props.len();
    let mut i: usize = 0;
    while i < n
        invariant
            0 <= i <= n,
            n == e.props.len(),
            e@.props.len() == n,
            out@ == head + senc_props(e@.props.take(i as int)),
        decreases n - i,
    {
        proof {
            assert(e@.props[i as int] == e.props@[i as int]@);
        }
        push_bytes_field(&mut out, e.props[i].key.as_slice());
        push_val(&mut out, &e.props[i].val);
        proof {
            let taken = e@.props.take(i + 1);
            assert(taken =~= e@.props.take(i as int).push(e@.props[i as int]));
            lemma_senc_props_push(e@.props.take(i as int), e@.props[i as int]);
            assert(out@ =~= head + senc_props(e@.props.take(i + 1)));
        }
        i = i + 1;
    }
    proof {
        assert(e@.props.take(n as int) =~= e@.props);
        assert(out@ =~= senc_entity(e@));
    }
    out
}

// Executable decoder.
fn read_u64(b: &[u8], pos: usize) -> (r: Option<(u64, usize)>)
    ensures
        match r {
            Some((x, p)) => sdec_u64(b@, pos as int) == Some((x, p as int)) && pos < p <= b@.len(),
            None => sdec_u64(b@, pos as int) is None,
        },
{
    if pos <= b.len() && b.len() - pos >= 8 {
        let s = slice_subrange(b, pos, pos + 8);
        Some((u64_from_le_bytes(s), pos + 8))
    } else {
        None
    }
}

fn read_bytes_field(b: &[u8], pos: usize) -> (r: Option<(Vec<u8>, usize)>)
    ensures
        match r {
            Some((v, p)) => sdec_bytes(b@, pos as int) == Some((v@, p as int)) && pos < p
                <= b@.len(),
            None => sdec_bytes(b@, pos as int) is None,
        },
{
    match read_u64(b, pos) {
        Some((n, p)) => {
            if n <= (b.len() - p) as u64 {
                let m = n as usize;
                let s = slice_subrange(b, p, p + m);
                Some((slice_to_vec(s), p + m))
            } else {
                None
            }
        },
        None => None,
    }
}

fn read_val(b: &[u8], pos: usize) -> (r: Option<(Val, usize)>)
    ensures
        match r {
            Some((v, p)) => sdec_val(b@, pos as int) == Some((v@, p as int)) && pos < p <= b@.len(),
            None => sdec_val(b@, pos as int) is None,
        },
{
    if pos >= b.len() {
        return None;
    }
    let tag = b[pos];
    if tag == TAG_URI {
        match read_bytes_field(b, pos + 1) {
            Some((v, p)) => Some((Val::Uri(v), p)),
            None => None,
        }
    } else if tag == TAG_TXT {
        match read_bytes_field(b, pos + 1) {
            Some((v, p)) => Some((Val::Txt(v), p)),
            None => None,
        }
    } else if tag == TAG_INT {
        match read_u64(b, pos + 1) {
            Some((x, p)) => Some((Val::Int(x as i64), p)),
            None => None,
        }
    } else if tag == TAG_FLAG {
        if pos + 1 < b.len() && (b[pos + 1] == 0 || b[pos + 1] == 1) {
            Some((Val::Flag(b[pos + 1] == 1), pos + 2))
        } else {
            None
        }
    } else if tag == TAG_BIN {
        match read_bytes_field(b, pos + 1) {
            Some((v, p)) => Some((Val::Bin(v), p)),
            None => None,
        }
    } else {
        None
    }
}

fn read_prop(b: &[u8], pos: usize) -> (r: Option<(Prop, usize)>)
    ensures
        match r {
            Some((p, q)) => sdec_prop(b@, pos as int) == Some((p@, q as int)) && pos < q
                <= b@.len(),
            None => sdec_prop(b@, pos as int) is None,
        },
{
    match read_bytes_field(b, pos) {
        Some((k, p)) => match read_val(b, p) {
            Some((v, q)) => Some((Prop { key: k, val: v }, q)),
            None => None,
        },
        None => None,
    }
}

/// What following a successful parse with more parsing yields.
spec fn sdec_props_cont(pre: Seq<SpecProp>, r: Option<(Seq<SpecProp>, int)>) -> Option<
    (Seq<SpecProp>, int),
> {
    match r {
        Some((s, p)) => Some((pre + s, p)),
        None => None,
    }
}

/// Parses the compact binary form back into an entity snapshot.
/// Yields nothing unless the input is exactly the encoding of one entity.
pub fn decode_entity(b: &[u8]) -> (r: Option<Entity>)
    ensures
        match r {
            Some(e) => sdec_entity(b@) == Some(e@),
            None => sdec_entity(b@) is None,
        },
{
    let (id, p) = match read_bytes_field(b, 0) {
        Some(x) => x,
        None => {
            return None;
        },
    };
    let (count, q0) = match read_u64(b, p) {
        Some(x) => x,
        None => {
            return None;
        },
    };
    if count > usize::MAX as u64 {
        return None;
    }
    let n = count as usize;
    let mut props: Vec<Prop> = Vec::new();
    let mut cur: usize = q0;
    let mut i: usize = 0;
    proof {
        assert(props@.map_values(|p: Prop| p@) =~= Seq::<SpecProp>::empty());
        let start = sdec_props(b@, q0 as int, n as nat);
        match start {
            Some((s, p)) => {
                assert(Seq::<SpecProp>::empty() + s =~= s);
            },
            None => {},
        }
        assert(sdec_props(b@, q0 as int, n as nat) == sdec_props_cont(
            props@.map_values(|p: Prop| p@),
            sdec_props(b@, cur as int, (n - i) as nat),
        ));
    }
    while i < n
        invariant
            0 <= i <= n,
            cur <= b@.len(),
            sdec_bytes(b@, 0) == Some((id@, p as int)),
            sdec_u64(b@, p as int) == Some((count, q0 as int)),
            count <= usize::MAX,
            n == count,
            sdec_props(b@, q0 as int, n as nat) == sdec_props_cont(
                props@.map_values(|p: Prop| p@),
                sdec_props(b@, cur as int, (n - i) as nat),
            ),
        decreases n - i,
    {
        let ghost pre = props@.map_values(|p: Prop| p@);
        match read_prop(b, cur) {
            Some((pr, next)) => {
                let ghost prv = pr@;
                props.push(pr);
                proof {
                    assert(props@.map_values(|p: Prop| p@) =~= pre.push(prv));
                    let rest = sdec_props(b@, next as int, (n - i - 1) as nat);
                    assert(sdec_props(b@, cur as int, (n - i) as nat) == sdec_props_cont(
                        seq![prv],
                        rest,
                    ));
                    match rest {
                        Some((s, e)) => {
                            assert(pre + (seq![prv] + s) =~= pre.push(prv) + s);
                        },
                        None => {},
                    }
                }
                cur = next;
            },
            None => {
                proof {
                    assert(sdec_props(b@, cur as int, (n - i) as nat) is None);
                }
                return None;
            },
        }
        i = i + 1;
    }
    proof {
        assert(sdec_props(b@, cur as int, 0) == Some((Seq::<SpecProp>::empty(), cur as int)));
        assert(props@.map_values(|p: Prop| p@) + Seq::<SpecProp>::empty() =~= props@.map_values(
            |p: Prop| p@,
        ));
    }
    if cur != b.len() {
        return None;
    }
    let e = Entity { id, props };
    proof {
        assert(e@.props =~= props@.map_values(|p: Prop| p@));
    }
    Some(e)
}

} // verus!
