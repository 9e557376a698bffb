use vstd::prelude::*;

verus! {

/// One property value of an entity.  Identifiers and text are byte
/// strings; binary objects carry embedded snapshots or file payloads.
#[derive(Debug)]
pub enum Val {
    Uri(Vec<u8>),
    Txt(Vec<u8>),
    Int(i64),
    Flag(bool),
    Bin(Vec<u8>),
}

/// The mathematical value of a [`Val`].
pub enum SpecVal {
    Uri(Seq<u8>),
    Txt(Seq<u8>),
    Int(i64),
    Flag(bool),
    Bin(Seq<u8>),
}

impl View for Val {
    type V = SpecVal;

    open spec fn view(&self) -> SpecVal {
        match self {
            Val::Uri(b) => SpecVal::Uri(b@),
            Val::Txt(b) => SpecVal::Txt(b@),
            Val::Int(i) => SpecVal::Int(*i),
            Val::Flag(b) => SpecVal::Flag(*b),
            Val::Bin(b) => SpecVal::Bin(b@),
        }
    }
}

/// A keyed property of an entity.
#[derive(Debug)]
pub struct Prop {
    pub key: Vec<u8>,
    pub val: Val,
}

/// The mathematical value of a [`Prop`].
pub struct SpecProp {
    pub key: Seq<u8>,
    pub val: SpecVal,
}

impl View for Prop {
    type V = SpecProp;

    open spec fn view(&self) -> SpecProp {
        SpecProp { key: self.key@, val: self.val@ }
    }
}

/// An entity: an identifier together with an ordered list of keyed
/// properties.  A key may occur several times; that is how multi-valued
/// properties are represented.
#[derive(Debug)]
pub struct Entity {
    pub id: Vec<u8>,
    pub props: Vec<Prop>,
}

/// The mathematical value of an [`Entity`].
pub struct SpecEntity {
    pub id: Seq<u8>,
    pub props: Seq<SpecProp>,
}

impl View for Entity {
    type V = SpecEntity;

    open spec fn view(&self) -> SpecEntity {
        SpecEntity { id: self.id@, props: self.props@.map_values(|p: Prop| p@) }
    }
}

/// The byte string a value stands for when read as a literal:
/// identifiers and text read literally, other kinds do not.
pub open spec fn literal_of(v: SpecVal) -> Option<Seq<u8>> {
    match v {
        SpecVal::Uri(b) => Some(b),
        SpecVal::Txt(b) => Some(b),
        SpecVal::Int(_) => None,
        SpecVal::Flag(_) => None,
        SpecVal::Bin(_) => None,
    }
}

/// The value of the first property with the given key, if any.
pub open spec fn spec_first_prop(props: Seq<SpecProp>, key: Seq<u8>) -> Option<SpecVal>
    decreases props.len(),
{
    if props.len() == 0 {
        None
    } else if props[0].key == key {
        Some(props[0].val)
    } else {
        spec_first_prop(props.drop_first(), key)
    }
}

/// Looking for a key past a prefix that does not hold it looks in the rest.
pub proof fn lemma_first_prop_skip(props: Seq<SpecProp>, key: Seq<u8>, k: int)
    requires
        0 <= k <= props.len(),
        forall|j: int| 0 <= j < k ==> props[j].key != key,
    ensures
        spec_first_prop(props, key) == spec_first_prop(props.skip(k), key),
    decreases k,
{
    if k > 0 {
        assert(props[0].key != key);
        lemma_first_prop_skip(props.drop_first(), key, k - 1);
        assert(props.drop_first().skip(k - 1) =~= props.skip(k));
    } else {
        assert(props.skip(0) =~= props);
    }
}

/// All properties except those with the given key, in order.
pub open spec fn spec_without_key(props: Seq<SpecProp>, key: Seq<u8>) -> Seq<SpecProp>
    decreases props.len(),
{
    if props.len() == 0 {
        Seq::empty()
    } else {
        let front = spec_without_key(props.drop_last(), key);
        if props.last().key == key {
            front
        } else {
            front.push(props.last())
        }
    }
}

/// The literal values of all properties with the given key, in order.
pub open spec fn spec_literals(props: Seq<SpecProp>, key: Seq<u8>) -> Seq<Seq<u8>>
    decreases props.len(),
{
    if props.len() == 0 {
        Seq::empty()
    } else {
        let front = spec_literals(props.drop_last(), key);
        if props.last().key == key && literal_of(props.last().val) is Some {
            front.push(literal_of(props.last().val)->0)
        } else {
            front
        }
    }
}

/// Whether some property has the given key and the given literal value.
pub open spec fn spec_has_literal(props: Seq<SpecProp>, key: Seq<u8>, value: Seq<u8>) -> bool {
    exists|i: int|
        0 <= i < props.len() && #[trigger] props[i].key == key && literal_of(props[i].val)
            == Some(value)
}

/// Whether some property has the given key.
pub open spec fn spec_has_key(props: Seq<SpecProp>, key: Seq<u8>) -> bool {
    exists|i: int| 0 <= i < props.len() && #[trigger] props[i].key == key
}

/// Byte-string equality, decided element by element.
pub fn bytes_eq(a: &[u8], b: &[u8]) -> (r: bool)
    ensures
        r == (a@ == b@),
{
    if a.len() != b.len() {
        assert(a@.len() != b@.len());
        return false;
    }
    let n = a.len();
    let mut i: usize = 0;
    while i < n
        invariant
            0 <= i <= n,
            n == a@.len() == b@.len(),
            forall|j: int| 0 <= j < i ==> a@[j] == b@[j],
        decreases n - i,
    {
        if a[i] != b[i] {
            return false;
        }
        i = i + 1;
    }
    proof {
        assert(a@ =~= b@);
    }
    true
}

/// An owned copy of a byte string.
pub fn copy_bytes(v: &[u8]) -> (r: Vec<u8>)
    ensures
        r@ == v@,
{
    vstd::slice::slice_to_vec(v)
}

/// Whether `a` begins with `prefix`.
pub fn bytes_starts_with(a: &[u8], prefix: &[u8]) -> (r: bool)
    ensures
        r == (a@.len() >= prefix@.len() && a@.subrange(0, prefix@.len() as int) == prefix@),
{
    if a.len() < prefix.len() {
        return false;
    }
    let head = vstd::slice::slice_subrange(a, 0, prefix.len());
    bytes_eq(head, prefix)
}

impl SpecEntity {
    /// The first literal under the key.
    pub open spec fn first_literal(self, key: Seq<u8>) -> Option<Seq<u8>> {
        match spec_first_prop(self.props, key) {
            Some(v) => literal_of(v),
            None => None,
        }
    }

    /// The first integer under the key.
    pub open spec fn first_integer(self, key: Seq<u8>) -> Option<i64> {
        match spec_first_prop(self.props, key) {
            Some(SpecVal::Int(i)) => Some(i),
            _ => None,
        }
    }

    /// The first boolean under the key.
    pub open spec fn first_flag(self, key: Seq<u8>) -> Option<bool> {
        match spec_first_prop(self.props, key) {
            Some(SpecVal::Flag(b)) => Some(b),
            _ => None,
        }
    }

    /// The first binary object under the key.
    pub open spec fn first_bin(self, key: Seq<u8>) -> Option<Seq<u8>> {
        match spec_first_prop(self.props, key) {
            Some(SpecVal::Bin(b)) => Some(b),
            _ => None,
        }
    }
}

impl Entity {
    /// A fresh entity with an empty identifier and no properties.
    pub fn new() -> (r: Entity)
        ensures
            r@.id == Seq::<u8>::empty(),
            r@.props == Seq::<SpecProp>::empty(),
    {
        let r = Entity { id: Vec::new(), props: Vec::new() };
        proof {
            assert(r@.props =~= Seq::<SpecProp>::empty());
        }
        r
    }

    /// The identifier, as an owned byte string.
    pub fn get_id(&self) -> (r: Vec<u8>)
        ensures
            r@ == self@.id,
    {
        copy_bytes(self.id.as_slice())
    }

    pub fn set_id(&mut self, id: &[u8])
        ensures
            final(self)@.id == id@,
            final(self)@.props == old(self)@.props,
    {
        self.id = copy_bytes(id);
    }

    /// The index of the first property with the key, if any.
    fn find_first(&self, key: &[u8]) -> (r: Option<usize>)
        ensures
            match r {
                Some(i) => 0 <= i < self@.props.len() && self@.props[i as int].key == key@
                    && spec_first_prop(self@.props, key@) == Some(self@.props[i as int].val),
                None => spec_first_prop(self@.props, key@) is None,
            },
    {
        let n = self.props.len();
        let mut i: usize = 0;
        while i < n
            invariant
                0 <= i <= n,
                n == self.props.len(),
                self@.props.len() == n,
                forall|j: int| 0 <= j < i ==> #[trigger] self@.props[j].key != key@,
            decreases n - i,
        {
            if bytes_eq(self.props[i].key.as_slice(), key) {
                proof {
                    lemma_first_prop_skip(self@.props, key@, i as int);
                    assert(self@.props.skip(i as int)[0] == self@.props[i as int]);
                }
                return Some(i);
            }
            i = i + 1;
        }
        proof {
            lemma_first_prop_skip(self@.props, key@, n as int);
        }
        None
    }

    /// The first literal (identifier or text) under the key.
    pub fn get_first_literal(&self, key: &[u8]) -> (r: Option<Vec<u8>>)
        ensures
            match r {
                Some(v) => self@.first_literal(key@) == Some(v@),
                None => self@.first_literal(key@) is None,
            },
    {
        match self.find_first(key) {
            Some(i) => match &self.props[i].val {
                Val::Uri(b) => Some(copy_bytes(b.as_slice())),
                Val::Txt(b) => Some(copy_bytes(b.as_slice())),
                _ => None,
            },
            None => None,
        }
    }

    /// The first integer under the key.
    pub fn get_first_integer(&self, key: &[u8]) -> (r: Option<i64>)
        ensures
            r == self@.first_integer(key@),
    {
        match self.find_first(key) {
            Some(i) => match &self.props[i].val {
                Val::Int(v) => Some(*v),
                _ => None,
            },
            None => None,
        }
    }

    /// The first boolean under the key.
    pub fn get_first_bool(&self, key: &[u8]) -> (r: Option<bool>)
        ensures
            r == self@.first_flag(key@),
    {
        match self.find_first(key) {
            Some(i) => match &self.props[i].val {
                Val::Flag(v) => Some(*v),
                _ => None,
            },
            None => None,
        }
    }

    /// The first binary object under the key.
    pub fn get_first_binobj(&self, key: &[u8]) -> (r: Option<Vec<u8>>)
        ensures
            match r {
                Some(v) => self@.first_bin(key@) == Some(v@),
                None => self@.first_bin(key@) is None,
            },
    {
        match self.find_first(key) {
            Some(i) => match &self.props[i].val {
                Val::Bin(b) => Some(copy_bytes(b.as_slice())),
                _ => None,
            },
            None => None,
        }
    }

    /// All literals under the key, in order.
    pub fn get_literals(&self, key: &[u8]) -> (r: Vec<Vec<u8>>)
        ensures
            r@.map_values(|v: Vec<u8>| v@) == spec_literals(self@.props, key@),
    {
        let n = self.props.len();
        let mut out: Vec<Vec<u8>> = Vec::new();
        let mut i: usize = 0;
        proof {
            assert(out@.map_values(|v: Vec<u8>| v@) =~= spec_literals(
                self@.props.take(0),
                key@,
            ));
        }
        while i < n
            invariant
                0 <= i <= n,
                n == self.props.len(),
                self@.props.len() == n,
                out@.map_values(|v: Vec<u8>| v@) == spec_literals(self@.props.take(i as int), key@),
            decreases n - i,
        {
            proof {
                assert(self@.props[i as int] == self.props@[i as int]@);
            }
            if bytes_eq(self.props[i].key.as_slice(), key) {
                match &self.props[i].val {
                    Val::Uri(b) => out.push(copy_bytes(b.as_slice())),
                    Val::Txt(b) => out.push(copy_bytes(b.as_slice())),
                    _ => (),
                }
            }
            proof {
                let taken = self@.props.take(i + 1);
                assert(taken.drop_last() =~= self@.props.take(i as int));
                assert(taken.last() == self@.props[i as int]);
                assert(out@.map_values(|v: Vec<u8>| v@) =~= spec_literals(
                    self@.props.take(i + 1),
                    key@,
                ));
            }
            i = i + 1;
        }
        proof {
            assert(self@.props.take(n as int) =~= self@.props);
        }
        out
    }

    /// Whether some property carries the key with the given literal value.
    pub fn any_exists(&self, key: &[u8], value: &[u8]) -> (r: bool)
        ensures
            r == spec_has_literal(self@.props, key@, value@),
    {
        let n = self.props.len();
        let mut i: usize = 0;
        while i < n
            invariant
                0 <= i <= n,
                n == self.props.len(),
                self@.props.len() == n,
                forall|j: int| 0 <= j < i ==> !(#[trigger] self@.props[j].key == key@
                    && literal_of(self@.props[j].val) == Some(value@)),
            decreases n - i,
        {
            proof {
                assert(self@.props[i as int] == self.props@[i as int]@);
            }
            if bytes_eq(self.props[i].key.as_slice(), key) {
                let hit = match &self.props[i].val {
                    Val::Uri(b) => bytes_eq(b.as_slice(), value),
                    Val::Txt(b) => bytes_eq(b.as_slice(), value),
                    _ => false,
                };
                if hit {
                    proof {
                        assert(self@.props[i as int].key == key@ && literal_of(
                            self@.props[i as int].val,
                        ) == Some(value@));
                    }
                    return true;
                }
            }
            i = i + 1;
        }
        false
    }

    /// Whether some property carries the key.
    pub fn is_exists(&self, key: &[u8]) -> (r: bool)
        ensures
            r == spec_has_key(self@.props, key@),
    {
        let n = self.props.len();
        let mut i: usize = 0;
        while i < n
            invariant
                0 <= i <= n,
                n == self.props.len(),
                self@.props.len() == n,
                forall|j: int| 0 <= j < i ==> #[trigger] self@.props[j].key != key@,
            decreases n - i,
        {
            if bytes_eq(self.props[i].key.as_slice(), key) {
                proof {
                    assert(self@.props[i as int] == self.props@[i as int]@);
                    assert(self@.props[i as int].key == key@);
                }
                return true;
            }
            i = i + 1;
        }
        false
    }

    fn push_prop(&mut self, key: &[u8], val: Val)
        ensures
            final(self)@.id == old(self)@.id,
            final(self)@.props == old(self)@.props.push(SpecProp { key: key@, val: val@ }),
    {
        let p = Prop { key: copy_bytes(key), val };
        self.props.push(p);
        proof {
            assert(final(self)@.props =~= old(self)@.props.push(
                SpecProp { key: key@, val: val@ },
            ));
        }
    }

    pub fn add_uri(&mut self, key: &[u8], value: &[u8])
        ensures
            final(self)@.id == old(self)@.id,
            final(self)@.props == old(self)@.props.push(
                SpecProp { key: key@, val: SpecVal::Uri(value@) },
            ),
    {
        self.push_prop(key, Val::Uri(copy_bytes(value)));
    }

    pub fn add_string(&mut self, key: &[u8], value: &[u8])
        ensures
            final(self)@.id == old(self)@.id,
            final(self)@.props == old(self)@.props.push(
                SpecProp { key: key@, val: SpecVal::Txt(value@) },
            ),
    {
        self.push_prop(key, Val::Txt(copy_bytes(value)));
    }

    pub fn add_integer(&mut self, key: &[u8], value: i64)
        ensures
            final(self)@.id == old(self)@.id,
            final(self)@.props == old(self)@.props.push(
                SpecProp { key: key@, val: SpecVal::Int(value) },
            ),
    {
        self.push_prop(key, Val::Int(value));
    }

    pub fn add_bool(&mut self, key: &[u8], value: bool)
        ensures
            final(self)@.id == old(self)@.id,
            final(self)@.props == old(self)@.props.push(
                SpecProp { key: key@, val: SpecVal::Flag(value) },
            ),
    {
        self.push_prop(key, Val::Flag(value));
    }

    pub fn add_binary(&mut self, key: &[u8], value: Vec<u8>)
        ensures
            final(self)@.id == old(self)@.id,
            final(self)@.props == old(self)@.props.push(
                SpecProp { key: key@, val: SpecVal::Bin(value@) },
            ),
    {
        self.push_prop(key, Val::Bin(value));
    }

    /// Removes every property with the key.
    pub fn remove(&mut self, key: &[u8])
        ensures
            final(self)@.id == old(self)@.id,
            final(self)@.props == spec_without_key(old(self)@.props, key@),
    {
        let n = self.props.len();
        let mut out: Vec<Prop> = Vec::new();
        let mut i: usize = 0;
        proof {
            assert(out@.map_values(|p: Prop| p@) =~= spec_without_key(
                self@.props.take(0),
                key@,
            ));
        }
        while i < n
            invariant
                0 <= i <= n,
                n == self.props.len(),
                self@.props.len() == n,
                out@.map_values(|p: Prop| p@) == spec_without_key(
                    self@.props.take(i as int),
                    key@,
                ),
            decreases n - i,
        {
            if !bytes_eq(self.props[i].key.as_slice(), key) {
                let p = &self.props[i];
                let copied = Prop {
                    key: copy_bytes(p.key.as_slice()),
                    val: match &p.val {
                        Val::Uri(b) => Val::Uri(copy_bytes(b.as_slice())),
                        Val::Txt(b) => Val::Txt(copy_bytes(b.as_slice())),
                        Val::Int(v) => Val::Int(*v),
                        Val::Flag(v) => Val::Flag(*v),
                        Val::Bin(b) => Val::Bin(copy_bytes(b.as_slice())),
                    },
                };
                assert(copied@ == self@.props[i as int]);
                out.push(copied);
            }
            proof {
                let taken = self@.props.take(i + 1);
                assert(taken.drop_last() =~= self@.props.take(i as int));
                assert(taken.last() == self@.props[i as int]);
                assert(out@.map_values(|p: Prop| p@) =~= spec_without_key(
                    self@.props.take(i + 1),
                    key@,
                ));
            }
            i = i + 1;
        }
        proof {
            assert(self@.props.take(n as int) =~= self@.props);
        }
        self.props = out;
    }

    /// An owned copy of the whole entity.
    pub fn duplicate(&self) -> (r: Entity)
        ensures
            r@ == self@,
    {
        let n = self.props.len();
        let mut props: Vec<Prop> = Vec::new();
        let mut i: usize = 0;
        while i < n
            invariant
                0 <= i <= n,
                n == self.props.len(),
                self@.props.len() == n,
                props@.map_values(|p: Prop| p@) == self@.props.take(i as int),
            decreases n - i,
        {
            let p = &self.props[i];
            let copied = Prop {
                key: copy_bytes(p.key.as_slice()),
                val: match &p.val {
                    Val::Uri(b) => Val::Uri(copy_bytes(b.as_slice())),
                    Val::Txt(b) => Val::Txt(copy_bytes(b.as_slice())),
                    Val::Int(v) => Val::Int(*v),
                    Val::Flag(v) => Val::Flag(*v),
                    Val::Bin(b) => Val::Bin(copy_bytes(b.as_slice())),
                },
            };
            proof {
                assert(self@.props[i as int] == self.props@[i as int]@);
            }
            assert(copied@ == self@.props[i as int]);
            props.push(copied);
            proof {
                let taken = self@.props.take(i + 1);
                assert(taken.drop_last() =~= self@.props.take(i as int));
                assert(taken.last() == self@.props[i as int]);
                assert(props@.map_values(|p: Prop| p@) =~= self@.props.take(i + 1));
            }
            i = i + 1;
        }
        let r = Entity { id: copy_bytes(self.id.as_slice()), props };
        proof {
            assert(self@.props.take(n as int) =~= self@.props);
            assert(r@ =~= self@);
        }
        r
    }
}

} // verus!
