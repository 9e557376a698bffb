use crate::entity::{bytes_eq, copy_bytes};
use vstd::prelude::*;

verus! {

/// One keyed entry of a [`KvStore`].
pub struct KvPair<T> {
    pub key: Vec<u8>,
    pub value: T,
}

/// The mapping a list of entries stands for: a later entry with the
/// same key overrides an earlier one.
pub open spec fn kv_map<T: View>(s: Seq<KvPair<T>>) -> Map<Seq<u8>, T::V>
    decreases s.len(),
{
    if s.len() == 0 {
        Map::empty()
    } else {
        kv_map(s.drop_last()).insert(s.last().key@, s.last().value@)
    }
}

/// The entries without a given key, in order.
pub open spec fn kv_without<T>(s: Seq<KvPair<T>>, key: Seq<u8>) -> Seq<KvPair<T>>
    decreases s.len(),
{
    if s.len() == 0 {
        Seq::empty()
    } else {
        let front = kv_without(s.drop_last(), key);
        if s.last().key@ == key {
            front
        } else {
            front.push(s.last())
        }
    }
}

/// A simple mutable mapping from byte-string keys to values, the
/// in-memory model of an external keyed store.
pub struct KvStore<T> {
    pub entries: Vec<KvPair<T>>,
}

impl<T: View> View for KvStore<T> {
    type V = Map<Seq<u8>, T::V>;

    open spec fn view(&self) -> Map<Seq<u8>, T::V> {
        kv_map(self.entries@)
    }
}

/// Entries holding other keys do not matter at `k`.
proof fn lemma_kv_map_prefix<T: View>(s: Seq<KvPair<T>>, k: Seq<u8>, i: int)
    requires
        0 <= i <= s.len(),
        forall|j: int| i <= j < s.len() ==> #[trigger] s[j].key@ != k,
    ensures
        kv_map(s).contains_key(k) == kv_map(s.take(i)).contains_key(k),
        kv_map(s).contains_key(k) ==> kv_map(s)[k] == kv_map(s.take(i))[k],
    decreases s.len() - i,
{
    if i == s.len() {
        assert(s.take(i) =~= s);
    } else {
        lemma_kv_map_prefix(s, k, i + 1);
        let t = s.take(i + 1);
        assert(t.drop_last() =~= s.take(i));
        assert(t.last() == s[i]);
    }
}

/// Dropping the entries of one key removes exactly that key from the mapping.
proof fn lemma_kv_without<T: View>(s: Seq<KvPair<T>>, k: Seq<u8>)
    ensures
        kv_map(kv_without(s, k)) == kv_map(s).remove(k),
    decreases s.len(),
{
    if s.len() == 0 {
        assert(kv_map(kv_without(s, k)) =~= kv_map(s).remove(k));
    } else {
        lemma_kv_without(s.drop_last(), k);
        if s.last().key@ == k {
            assert(kv_map(kv_without(s, k)) =~= kv_map(s).remove(k));
        } else {
            assert(kv_without(s, k) == kv_without(s.drop_last(), k).push(s.last()));
            assert(kv_without(s, k).drop_last() =~= kv_without(s.drop_last(), k));
            assert(kv_map(kv_without(s, k)) =~= kv_map(s).remove(k));
        }
    }
}

impl<T: View> KvStore<T> {
    /// An empty store.
    pub fn new() -> (r: KvStore<T>)
        ensures
            r@ == Map::<Seq<u8>, T::V>::empty(),
    {
        let r = KvStore { entries: Vec::new() };
        proof {
            assert(r@ =~= Map::<Seq<u8>, T::V>::empty());
        }
        r
    }

    /// Looks a key up; yields the value a later write bound to it.
    pub fn get(&self, key: &[u8]) -> (r: Option<&T>)
        ensures
            match r {
                Some(v) => self@.contains_key(key@) && self@[key@] == v@,
                None => !self@.contains_key(key@),
            },
    {
        let n = self.entries.len();
        let mut i: usize = n;
        while i > 0
            invariant
                0 <= i <= n,
                n == self.entries.len(),
                forall|j: int| i <= j < n ==> #[trigger] self.entries@[j].key@ != key@,
            decreases i,
        {
            i = i - 1;
            if bytes_eq(self.entries[i].key.as_slice(), key) {
                proof {
                    lemma_kv_map_prefix(self.entries@, key@, i + 1);
                    let t = self.entries@.take(i + 1);
                    assert(t.drop_last() =~= self.entries@.take(i as int));
                    assert(t.last() == self.entries@[i as int]);
                }
                return Some(&self.entries[i].value);
            }
        }
        proof {
            lemma_kv_map_prefix(self.entries@, key@, 0);
            assert(self.entries@.take(0) =~= Seq::<KvPair<T>>::empty());
        }
        None
    }

    /// Removes every binding of the key.
    pub fn remove(&mut self, key: &[u8])
        ensures
            final(self)@ == old(self)@.remove(key@),
    {
        let n = self.entries.len();
        let mut kept: Vec<KvPair<T>> = Vec::new();
        let ghost all = self.entries@;
        proof {
            assert(kept@ =~= kv_without(all.take(0), key@));
        }
        let mut i: usize = 0;
        while i < n
            invariant
                0 <= i <= n,
                n == all.len(),
                self.entries@ == all.skip(i as int),
                kept@ == kv_without(all.take(i as int), key@),
            decreases n - i,
        {
            let e = self.entries.remove(0);
            proof {
                assert(e == all[i as int]);
                assert(self.entries@ =~= all.skip(i + 1));
            }
            if !bytes_eq(e.key.as_slice(), key) {
                kept.push(e);
            }
            proof {
                let t = all.take(i + 1);
                assert(t.drop_last() =~= all.take(i as int));
                assert(t.last() == all[i as int]);
                assert(kept@ =~= kv_without(all.take(i + 1), key@));
            }
            i = i + 1;
        }
        proof {
            assert(all.take(n as int) =~= all);
            lemma_kv_without::<T>(all, key@);
        }
        self.entries = kept;
    }

    /// Binds the key to the value, replacing any earlier binding.
    pub fn upsert(&mut self, key: &[u8], value: T)
        ensures
            final(self)@ == old(self)@.insert(key@, value@),
    {
        self.remove(key);
        let ghost mid = self.entries@;
        self.entries.push(KvPair { key: copy_bytes(key), value });
        proof {
            assert(self.entries@.drop_last() =~= mid);
            assert(self.entries@.last().key@ == key@);
            assert(kv_map(self.entries@) =~= old(self)@.insert(key@, value@));
        }
    }

    /// How many distinct keys have been kept is not tracked; this is
    /// the raw number of entries held.
    pub fn len(&self) -> (r: usize)
        ensures
            r == self.entries@.len(),
    {
        self.entries.len()
    }
}

} // verus!
