//! A mutable key→value table that keeps its values compressed at rest.
//! Compression is eager on insert; decompression happens afresh on every
//! read, so the table never stores a decompressed value.

use core::marker::PhantomData;

use vstd::prelude::*;

use crate::com::{Compress, Compressor};
use crate::de::{compatible, Decompress, Decompressor};
use crate::error::CodecError;
use crate::table::{has_key, key_index, keys_distinct, lemma_key_index_unique, str_eq, table_view};

verus! {

/// Whether `stored` is a compressed byte sequence that decompresses (through
/// `D`) to the byte representation of some value of type `V` — the shape
/// every stored entry keeps, so that every read can decompress and decode.
pub open spec fn valid_entry<V: Compress, D: Decompressor>(stored: Seq<u8>) -> bool {
    &&& D::spec_inverse(stored) is Some
    &&& exists|v: V| D::spec_inverse(stored)->0 == v.byte_repr()
}

/// Find the position of the entry keyed by `k`, if any.
fn find_key(entries: &Vec<(String, Vec<u8>)>, k: &str) -> (r: Option<usize>)
    ensures
        r matches Some(i) ==> i < entries@.len() && entries@[i as int].0@ == k@,
        r is None ==> !has_key(entries@, k@),
{
    let n = entries.len();
    let mut i: usize = 0;
    while i < n
        invariant
            n == entries@.len(),
            0 <= i <= n,
            forall|j: int| 0 <= j < i ==> entries@[j].0@ != k@,
        decreases n - i,
    {
        if str_eq(entries[i].0.as_str(), k) {
            return Some(i);
        }
        i += 1;
    }
    None
}

/// A key→compressed-bytes table with one compressor and one decompressor of
/// the same algorithm.  Values are compressed when inserted and decompressed
/// on every lookup; the table never caches a decoded value.
///
/// Its view is the map from each key to the byte representation of the value
/// stored under it.
pub struct CompressedHashMap<V: Compress + Decompress, C: Compressor, D: Decompressor> {
    entries: Vec<(String, Vec<u8>)>,
    compressor: C,
    decompressor: D,
    value: PhantomData<V>,
}

impl<V: Compress + Decompress, C: Compressor, D: Decompressor> View
    for CompressedHashMap<V, C, D> {
    type V = Map<Seq<char>, Seq<u8>>;

    closed spec fn view(&self) -> Map<Seq<char>, Seq<u8>> {
        table_view::<D>(self.entries@)
    }
}

impl<V: Compress + Decompress, C: Compressor, D: Decompressor> Default for CompressedHashMap<
    V,
    C,
    D,
> {
    /// An empty table, as [`CompressedHashMap::new`] builds it.
    fn default() -> (r: Self)
        ensures
            r.wf(),
            r@ == Map::<Seq<char>, Seq<u8>>::empty(),
    {
        Self::new()
    }
}

impl<V: Compress + Decompress, C: Compressor, D: Decompressor> CompressedHashMap<V, C, D> {
    /// Well-formed: keys are unique and every stored byte sequence
    /// decompresses to the representation of a value.
    pub closed spec fn wf(&self) -> bool {
        &&& keys_distinct(self.entries@)
        &&& forall|i: int|
            0 <= i < self.entries@.len() ==> valid_entry::<V, D>(#[trigger] self.entries@[i].1@)
    }

    /// Create an empty table.
    pub fn new() -> (r: Self)
        ensures
            r.wf(),
            r@ == Map::<Seq<char>, Seq<u8>>::empty(),
    {
        let r = CompressedHashMap {
            entries: Vec::new(),
            compressor: C::new(),
            decompressor: D::new(),
            value: PhantomData,
        };
        proof {
            assert(r@ =~= Map::<Seq<char>, Seq<u8>>::empty());
        }
        r
    }

    /// Compress `v` with the table's compressor and store the result under
    /// `k`, replacing any prior entry; a replaced value is decompressed and
    /// handed back.  When compression fails the table is left unchanged.
    ///
    /// Requires the table's compressor and decompressor to implement the
    /// same algorithm, as they are constructed in pairs.
    pub fn insert(&mut self, k: String, v: V) -> (r: Result<Option<V>, CodecError>)
        requires
            old(self).wf(),
            compatible::<C, D>(),
        ensures
            final(self).wf(),
            r is Ok ==> final(self)@ == old(self)@.insert(k@, v.byte_repr()),
            r matches Ok(prior) ==> (prior matches Some(p) ==> old(self)@.contains_key(k@)
                && p.byte_repr() == old(self)@[k@]),
            r matches Ok(prior) ==> (prior is None <==> !old(self)@.contains_key(k@)),
            r is Err ==> final(self)@ == old(self)@,
            C::spec_infallible() ==> r is Ok,
    {
        let bytes = match self.compressor.to_vec(v) {
            Ok(b) => b,
            Err(e) => {
                return Err(e);
            },
        };
        let ghost entries0 = self.entries@;
        match find_key(&self.entries, k.as_str()) {
            Some(i) => {
                let pair = self.entries.remove(i);
                let prior: V = match self.decompressor.from_vec::<V>(pair.1.as_slice()) {
                    Ok(p) => p,
                    Err(_) => {
                        proof {
                            assert(valid_entry::<V, D>(entries0[i as int].1@));
                            assert(false);
                        }
                        return Err(CodecError::Decode);
                    },
                };
                self.entries.push((k, bytes));
                proof {
                    lemma_key_index_unique(entries0, k@, i as int);
                    self.lemma_insert_view(entries0, i as int, v);
                }
                Ok(Some(prior))
            },
            None => {
                self.entries.push((k, bytes));
                proof {
                    assert forall|x: Seq<char>| has_key(self.entries@, x) <==> (has_key(
                        entries0,
                        x,
                    ) || x == k@) by {
                        if has_key(self.entries@, x) {
                            let ix = choose|ix: int|
                                0 <= ix < self.entries@.len() && self.entries@[ix].0@ == x;
                            if ix < entries0.len() {
                                assert(has_key(entries0, x));
                            }
                        }
                        if has_key(entries0, x) {
                            let ix = choose|ix: int|
                                0 <= ix < entries0.len() && entries0[ix].0@ == x;
                            assert(self.entries@[ix].0@ == x);
                        }
                        if x == k@ {
                            assert(self.entries@[entries0.len() as int].0@ == x);
                        }
                    }
                    assert forall|x: Seq<char>| #[trigger]
                        has_key(entries0, x) implies self.entries@[key_index(self.entries@, x)].1@
                        == entries0[key_index(entries0, x)].1@ by {
                        let ix = key_index(entries0, x);
                        assert(self.entries@[ix].0@ == x);
                        lemma_key_index_unique(self.entries@, x, ix);
                    }
                    lemma_key_index_unique(self.entries@, k@, entries0.len() as int);
                    assert(self@ =~= old(self)@.insert(k@, v.byte_repr()));
                }
                Ok(None)
            },
        }
    }

    /// Look up `k`, decompress the stored bytes and rebuild the value.  An
    /// absent key yields nothing; decompression is performed afresh on every
    /// call.
    pub fn get(&self, k: &str) -> (r: Option<V>)
        requires
            self.wf(),
        ensures
            r is Some <==> self@.contains_key(k@),
            r matches Some(w) ==> w.byte_repr() == self@[k@],
    {
        match find_key(&self.entries, k) {
            Some(i) => {
                proof {
                    lemma_key_index_unique(self.entries@, k@, i as int);
                    assert(valid_entry::<V, D>(self.entries@[i as int].1@));
                }
                match self.decompressor.from_vec::<V>(self.entries[i].1.as_slice()) {
                    Ok(w) => Some(w),
                    Err(_) => {
                        proof {
                            assert(false);
                        }
                        None
                    },
                }
            },
            None => None,
        }
    }

    /// Remove the entry keyed by `k`, decompressing and handing back the
    /// value it held.  An absent key leaves the table unchanged.
    pub fn remove(&mut self, k: &str) -> (r: Option<V>)
        requires
            old(self).wf(),
        ensures
            final(self).wf(),
            final(self)@ == old(self)@.remove(k@),
            r is Some <==> old(self)@.contains_key(k@),
            r matches Some(p) ==> p.byte_repr() == old(self)@[k@],
    {
        let ghost entries0 = self.entries@;
        match find_key(&self.entries, k) {
            Some(i) => {
                let pair = self.entries.remove(i);
                proof {
                    lemma_key_index_unique(entries0, k@, i as int);
                    assert(valid_entry::<V, D>(entries0[i as int].1@));
                }
                let prior: V = match self.decompressor.from_vec::<V>(pair.1.as_slice()) {
                    Ok(p) => p,
                    Err(_) => {
                        proof {
                            assert(false);
                        }
                        return None;
                    },
                };
                proof {
                    self.lemma_remove_view(entries0, i as int);
                }
                Some(prior)
            },
            None => {
                proof {
                    assert(self@ =~= old(self)@.remove(k@));
                }
                None
            },
        }
    }

    /// After removing position `i`, the view is the old view without the
    /// key that stood there.
    proof fn lemma_remove_view(&self, entries0: Seq<(String, Vec<u8>)>, i: int)
        requires
            keys_distinct(entries0),
            0 <= i < entries0.len(),
            self.entries@ == entries0.remove(i),
            forall|j: int|
                0 <= j < entries0.len() ==> valid_entry::<V, D>(#[trigger] entries0[j].1@),
        ensures
            self.wf(),
            self@ == table_view::<D>(entries0).remove(entries0[i].0@),
    {
        let s1 = self.entries@;
        let k = entries0[i].0@;
        assert forall|a: int| 0 <= a < s1.len() implies s1[a] == entries0[if a < i {
            a
        } else {
            a + 1
        }] by {}
        assert forall|a: int, b: int| 0 <= a < b < s1.len() implies s1[a].0@ != s1[b].0@ by {
            let a0: int = if a < i {
                a
            } else {
                a + 1
            };
            let b0: int = if b < i {
                b
            } else {
                b + 1
            };
            assert(entries0[a0].0@ != entries0[b0].0@);
        }
        assert forall|a: int| 0 <= a < s1.len() implies valid_entry::<V, D>(
            #[trigger] s1[a].1@,
        ) by {
            let a0: int = if a < i {
                a
            } else {
                a + 1
            };
            assert(valid_entry::<V, D>(entries0[a0].1@));
        }
        assert forall|x: Seq<char>| has_key(s1, x) <==> (has_key(entries0, x) && x != k) by {
            if has_key(s1, x) {
                let a = key_index(s1, x);
                let a0: int = if a < i {
                    a
                } else {
                    a + 1
                };
                assert(entries0[a0].0@ == x);
                assert(a0 != i);
                if x == k {
                    lemma_key_index_unique(entries0, x, a0);
                    lemma_key_index_unique(entries0, x, i);
                }
            }
            if has_key(entries0, x) && x != k {
                let b = key_index(entries0, x);
                assert(entries0[b].0@ == x);
                assert(b != i);
                let a: int = if b < i {
                    b
                } else {
                    b - 1
                };
                assert(s1[a].0@ == x);
            }
        }
        assert forall|x: Seq<char>| #[trigger] has_key(s1, x) implies self@[x] == table_view::<
            D,
        >(entries0)[x] by {
            let a = key_index(s1, x);
            assert(0 <= a < s1.len() && s1[a].0@ == x);
            let a0: int = if a < i {
                a
            } else {
                a + 1
            };
            assert(entries0[a0].0@ == x);
            lemma_key_index_unique(entries0, x, a0);
            assert(s1[a].1@ == entries0[a0].1@);
        }
        assert(self@ =~= table_view::<D>(entries0).remove(k));
    }

    /// Look up `k` and return the stored compressed bytes without
    /// decompressing them.
    pub fn get_raw(&self, k: &str) -> (r: Option<&Vec<u8>>)
        requires
            self.wf(),
        ensures
            r is Some <==> self@.contains_key(k@),
            r matches Some(b) ==> D::spec_inverse(b@) == Some(self@[k@]),
    {
        match find_key(&self.entries, k) {
            Some(i) => {
                proof {
                    lemma_key_index_unique(self.entries@, k@, i as int);
                    assert(valid_entry::<V, D>(self.entries@[i as int].1@));
                }
                Some(&self.entries[i].1)
            },
            None => None,
        }
    }

    /// After removing position `i` (which held `k`) and pushing the fresh
    /// entry for `k`, the view is the old view with `k` remapped.
    proof fn lemma_insert_view(&self, entries0: Seq<(String, Vec<u8>)>, i: int, v: V)
        requires
            keys_distinct(entries0),
            0 <= i < entries0.len(),
            self.entries@ == entries0.remove(i).push(self.entries@.last()),
            self.entries@.last().0@ == entries0[i].0@,
            D::spec_inverse(self.entries@.last().1@) == Some(v.byte_repr()),
            forall|j: int|
                0 <= j < entries0.len() ==> valid_entry::<V, D>(#[trigger] entries0[j].1@),
        ensures
            self.wf(),
            self@ == Map::new(
                |k: Seq<char>| has_key(entries0, k),
                |k: Seq<char>| D::spec_inverse(entries0[key_index(entries0, k)].1@)->0,
            ).insert(entries0[i].0@, v.byte_repr()),
    {
        let s1 = self.entries@;
        let k = entries0[i].0@;
        assert forall|a: int, b: int| 0 <= a < b < s1.len() implies s1[a].0@ != s1[b].0@ by {
            self.lemma_remove_push_key(entries0, i, a);
            self.lemma_remove_push_key(entries0, i, b);
        }
        assert forall|a: int| 0 <= a < s1.len() implies valid_entry::<V, D>(
            #[trigger] s1[a].1@,
        ) by {
            self.lemma_remove_push_key(entries0, i, a);
        }
        let m0 = Map::new(
            |x: Seq<char>| has_key(entries0, x),
            |x: Seq<char>| D::spec_inverse(entries0[key_index(entries0, x)].1@)->0,
        );
        assert forall|x: Seq<char>| has_key(s1, x) <==> has_key(entries0, x) by {
            if has_key(s1, x) {
                let a = key_index(s1, x);
                self.lemma_remove_push_key(entries0, i, a);
            }
            if has_key(entries0, x) {
                let a = key_index(entries0, x);
                if a == i {
                    assert(s1[s1.len() - 1].0@ == x);
                } else if a < i {
                    assert(s1[a].0@ == x);
                } else {
                    assert(s1[a - 1].0@ == x);
                }
            }
        }
        assert forall|x: Seq<char>| #[trigger] has_key(s1, x) implies self@[x] == m0.insert(
            k,
            v.byte_repr(),
        )[x] by {
            let a = key_index(s1, x);
            assert(0 <= a < s1.len() && s1[a].0@ == x);
            self.lemma_remove_push_key(entries0, i, a);
            if a == s1.len() - 1 {
                assert(x == k);
                assert(self@[x] == D::spec_inverse(s1[a].1@)->0);
            } else {
                let b: int = if a < i {
                    a
                } else {
                    a + 1
                };
                assert(entries0[b].0@ == x);
                assert(b != i);
                lemma_key_index_unique(entries0, x, b);
                assert(x != k);
                assert(self@[x] == D::spec_inverse(s1[a].1@)->0);
                assert(s1[a].1@ == entries0[b].1@);
            }
        }
        assert(self@ =~= m0.insert(k, v.byte_repr()));
    }

    /// Every position of the remove-then-push sequence carries an entry of
    /// the old sequence, or the freshly pushed one.
    proof fn lemma_remove_push_key(&self, entries0: Seq<(String, Vec<u8>)>, i: int, a: int)
        requires
            0 <= i < entries0.len(),
            self.entries@ == entries0.remove(i).push(self.entries@.last()),
            0 <= a < self.entries@.len(),
        ensures
            a < self.entries@.len() - 1 && a < i ==> self.entries@[a] == entries0[a],
            a < self.entries@.len() - 1 && a >= i ==> self.entries@[a] == entries0[a + 1],
            a == self.entries@.len() - 1 ==> self.entries@[a] == self.entries@.last(),
    {
    }
}

} // verus!
