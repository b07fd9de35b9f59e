//! The build-time table builder: it accumulates key/value pairs, compresses
//! each value eagerly, lays the pairs out as a perfect-hash table, and
//! emits either a ready [`CompressedPhfMap`] or the source text of one for
//! embedding in a consuming program.  It never runs at serving time.

use core::marker::PhantomData;

use vstd::arithmetic::div_mod::{lemma_div_is_ordered, lemma_div_multiples_vanish};
use vstd::prelude::*;
use vstd::slice::slice_to_vec;
use vstd::string::{StringExecFns, StringSliceAdditionalSpecFns};
use vstd::utf8::encode_utf8;

use crate::com::{Compress, Compressor};
use crate::de::{compatible, Decompress, Decompressor};
use crate::error::CodecError;
use crate::hash_map::valid_entry;
use crate::phf::{
    check_slots, lemma_slots_distinct, slots_law, spec_slot, valid_parts, CompressedPhfMap,
};
use crate::render::{
    bin_escaped, dec_digits, push_bin_escaped, push_bytes, push_decimal, push_text_escaped,
    text_escaped,
};
use crate::table::{
    key_index, keys_distinct, lemma_key_index_unique, lemma_pair_index_unique, pair_has_key,
    pair_index, pair_keys_distinct, pairs_of, str_eq, table_view,
};

verus! {

/// Whether `stored` is a compressed byte sequence whose decompressed form,
/// under the compressor's own inverse, is the representation of a value of
/// type `V`.
pub open spec fn compressed_entry<V: Compress, C: Compressor>(stored: Seq<u8>) -> bool {
    &&& C::spec_inverse(stored) is Some
    &&& exists|v: V| C::spec_inverse(stored)->0 == v.byte_repr()
}

/// Whether every stored byte sequence of `s` is the compressed form of some
/// value's representation.
pub open spec fn all_compressed<V: Compress, C: Compressor>(s: Seq<(Seq<char>, Seq<u8>)>) -> bool {
    forall|i: int| 0 <= i < s.len() ==> compressed_entry::<V, C>(#[trigger] s[i].1)
}

/// The map described by a builder's pairs, once the stored bytes are
/// decompressed through `C`'s inverse.
pub open spec fn builder_map<C: Compressor>(s: Seq<(Seq<char>, Seq<u8>)>) -> Map<
    Seq<char>,
    Seq<u8>,
> {
    Map::new(
        |k: Seq<char>| pair_has_key(s, k),
        |k: Seq<char>| C::spec_inverse(s[pair_index(s, k)].1)->0,
    )
}

/// Whether the pair `x` occurs in `b`.
pub open spec fn pair_in(x: (Seq<char>, Seq<u8>), b: Seq<(Seq<char>, Seq<u8>)>) -> bool {
    exists|j: int| 0 <= j < b.len() && b[j] == x
}

/// Whether `a` and `b` hold the same pairs, in whatever order.
pub open spec fn same_pairs(a: Seq<(Seq<char>, Seq<u8>)>, b: Seq<(Seq<char>, Seq<u8>)>) -> bool {
    &&& a.len() == b.len()
    &&& forall|p: int| 0 <= p < a.len() ==> pair_in(#[trigger] a[p], b)
    &&& forall|j: int| 0 <= j < b.len() ==> pair_in(#[trigger] b[j], a)
}

/// Whether `j` occurs in `perm`.
pub open spec fn appears(perm: Seq<usize>, j: int) -> bool {
    exists|p: int| 0 <= p < perm.len() && perm[p] == j
}

/// Relies on `phf_generator::generate_hash`: from hashes of the (distinct)
/// keys it searches out a seed and a displacement table, and reports in
/// which order the keys fill the table's slots — each key taking exactly
/// one slot, the one the scheme assigns to it under the found seed and
/// displacements.  It retries seeds until a layout works, so it returns
/// only with a working one.
#[verifier::external_body]
fn generate_phf(keys: &Vec<String>) -> (r: (u64, Vec<(u32, u32)>, Vec<usize>))
    requires
        forall|i: int, j: int| 0 <= i < j < keys@.len() ==> keys@[i]@ != keys@[j]@,
        keys@.len() <= u32::MAX,
    ensures
        r.1@.len() == (keys@.len() + 2) / 3,
        r.2@.len() == keys@.len(),
        forall|p: int| 0 <= p < r.2@.len() ==> #[trigger] r.2@[p] < keys@.len(),
        forall|p: int, q: int| 0 <= p < q < r.2@.len() ==> r.2@[p] != r.2@[q],
        forall|j: int| 0 <= j < keys@.len() ==> #[trigger] appears(r.2@, j),
        forall|p: int|
            0 <= p < r.2@.len() ==> #[trigger] spec_slot(
                r.0,
                r.1@,
                keys@.len() as nat,
                keys@[r.2@[p] as int]@,
            ) == p,
{
    let state = phf_generator::generate_hash(keys.as_slice());
    (state.key, state.disps, state.map)
}

/// The rows of the emitted displacement table, each `(d1u32, d2u32), `.
pub open spec fn render_disps(disps: Seq<(u32, u32)>) -> Seq<u8>
    decreases disps.len(),
{
    if disps.len() == 0 {
        Seq::empty()
    } else {
        render_disps(disps.drop_last()) + encode_utf8("("@) + dec_digits(disps.last().0 as nat)
            + encode_utf8("u32, "@) + dec_digits(disps.last().1 as nat) + encode_utf8("u32), "@)
    }
}

/// The rows of the emitted entry list: each key as a string literal beside
/// its compressed bytes as a byte-string literal.
pub open spec fn render_entries(pairs: Seq<(Seq<char>, Seq<u8>)>) -> Seq<u8>
    decreases pairs.len(),
{
    if pairs.len() == 0 {
        Seq::empty()
    } else {
        render_entries(pairs.drop_last()) + encode_utf8("(String::from(\""@) + text_escaped(
            encode_utf8(pairs.last().0),
        ) + encode_utf8("\"), b\""@) + bin_escaped(pairs.last().1) + encode_utf8(
            "\".to_vec()), "@,
        )
    }
}

/// The head of the emitted source: the constructor path with the
/// configured type names, and the seed.
pub open spec fn render_head(path: Seq<char>, vty: Seq<char>, dty: Seq<char>, seed: u64) -> Seq<
    u8,
> {
    encode_utf8(path) + encode_utf8("::phf::CompressedPhfMap::<"@) + encode_utf8(vty)
        + encode_utf8(", "@) + encode_utf8(dty) + encode_utf8(">::new("@) + dec_digits(
        seed as nat,
    ) + encode_utf8("u64, vec!["@)
}

/// The source text the builder emits: a constructor call for a
/// [`CompressedPhfMap`], carrying the table layout, the compressed entries
/// and the configured type names.
pub open spec fn render(
    path: Seq<char>,
    vty: Seq<char>,
    dty: Seq<char>,
    seed: u64,
    disps: Seq<(u32, u32)>,
    pairs: Seq<(Seq<char>, Seq<u8>)>,
) -> Seq<u8> {
    render_head(path, vty, dty, seed) + render_disps(disps) + encode_utf8("], vec!["@)
        + render_entries(pairs) + encode_utf8("])"@)
}

/// Append the rendering of the displacement table to `out`.
fn push_disps(out: &mut Vec<u8>, disps: &Vec<(u32, u32)>)
    ensures
        final(out)@ == old(out)@ + render_disps(disps@),
{
    let n = disps.len();
    let mut i: usize = 0;
    while i < n
        invariant
            n == disps@.len(),
            0 <= i <= n,
            out@ == old(out)@ + render_disps(disps@.take(i as int)),
        decreases n - i,
    {
        push_bytes(out, "(".as_bytes());
        push_decimal(out, disps[i].0 as u64);
        push_bytes(out, "u32, ".as_bytes());
        push_decimal(out, disps[i].1 as u64);
        push_bytes(out, "u32), ".as_bytes());
        proof {
            assert(disps@.take(i + 1).drop_last() =~= disps@.take(i as int));
            assert(out@ =~= old(out)@ + render_disps(disps@.take(i + 1)));
        }
        i += 1;
    }
    proof {
        assert(disps@.take(n as int) =~= disps@);
    }
}

/// Append the rendering of the entry list to `out`.
fn push_entry_list(out: &mut Vec<u8>, entries: &Vec<(String, Vec<u8>)>)
    ensures
        final(out)@ == old(out)@ + render_entries(pairs_of(entries@)),
{
    let n = entries.len();
    let mut i: usize = 0;
    while i < n
        invariant
            n == entries@.len(),
            0 <= i <= n,
            out@ == old(out)@ + render_entries(pairs_of(entries@).take(i as int)),
        decreases n - i,
    {
        push_bytes(out, "(String::from(\"".as_bytes());
        push_text_escaped(out, entries[i].0.as_str().as_bytes());
        push_bytes(out, "\"), b\"".as_bytes());
        push_bin_escaped(out, entries[i].1.as_slice());
        push_bytes(out, "\".to_vec()), ".as_bytes());
        proof {
            assert(pairs_of(entries@).take(i + 1).drop_last() =~= pairs_of(entries@).take(
                i as int,
            ));
            assert(pairs_of(entries@).take(i + 1).last() == (
                entries@[i as int].0@,
                entries@[i as int].1@,
            ));
            assert(out@ =~= old(out)@ + render_entries(pairs_of(entries@).take(i + 1)));
        }
        i += 1;
    }
    proof {
        assert(pairs_of(entries@).take(n as int) =~= pairs_of(entries@));
    }
}

/// Whether `out` is the emitted source of a well-laid-out table holding
/// exactly the pairs of `view`, under the given configuration.
pub open spec fn emitted(
    path: Seq<char>,
    vty: Seq<char>,
    dty: Seq<char>,
    view: Seq<(Seq<char>, Seq<u8>)>,
    seed: u64,
    disps: Seq<(u32, u32)>,
    pairs: Seq<(Seq<char>, Seq<u8>)>,
    out: Seq<u8>,
) -> bool {
    &&& out == render(path, vty, dty, seed, disps, pairs)
    &&& slots_law(seed, disps, pairs)
    &&& same_pairs(pairs, view)
}

/// Whether `out` is the emitted source of some well-laid-out table holding
/// exactly the pairs of `view`, under the given configuration: the seed,
/// the displacement table and the slot order are whatever the layout
/// search produced.
#[verifier::opaque]
pub open spec fn built_from(
    path: Seq<char>,
    vty: Seq<char>,
    dty: Seq<char>,
    view: Seq<(Seq<char>, Seq<u8>)>,
    out: Seq<u8>,
) -> bool {
    exists|seed: u64, disps: Seq<(u32, u32)>, pairs: Seq<(Seq<char>, Seq<u8>)>|
        #[trigger] emitted(path, vty, dty, view, seed, disps, pairs, out)
}

/// A build-time accumulator of key/value pairs.  Each value is compressed
/// with `C` as it is recorded; `build_map` lays the pairs out as a ready
/// perfect-hash map, and `build` emits the source text of one instead.
///
/// Its view is the sequence of recorded pairs: each key's characters beside
/// the compressed bytes stored for it.
pub struct MapBuilder<V: Compress, C: Compressor> {
    entries: Vec<(String, Vec<u8>)>,
    compressor: C,
    decompressor_type: String,
    value_type: String,
    path: String,
    value: PhantomData<V>,
}

impl<V: Compress, C: Compressor> View for MapBuilder<V, C> {
    type V = Seq<(Seq<char>, Seq<u8>)>;

    closed spec fn view(&self) -> Seq<(Seq<char>, Seq<u8>)> {
        pairs_of(self.entries@)
    }
}

impl<V: Compress, C: Compressor> MapBuilder<V, C> {
    /// The crate path written into the emitted source.
    pub closed spec fn spec_path(&self) -> Seq<char> {
        self.path@
    }

    /// The value type name written into the emitted source.
    pub closed spec fn spec_value_type(&self) -> Seq<char> {
        self.value_type@
    }

    /// The decompressor type name written into the emitted source.
    pub closed spec fn spec_decompressor_type(&self) -> Seq<char> {
        self.decompressor_type@
    }

    /// Well-formed: every recorded byte sequence is the compressed form of
    /// some value's representation.
    pub closed spec fn wf(&self) -> bool {
        all_compressed::<V, C>(self@)
    }

    /// Create an empty builder that will emit the given decompressor and
    /// value type names.
    pub fn new(decompressor_type: &str, value_type: &str) -> (r: Self)
        ensures
            r.wf(),
            r@ == Seq::<(Seq<char>, Seq<u8>)>::empty(),
            r.spec_path() == "::comde"@,
            r.spec_value_type() == value_type@,
            r.spec_decompressor_type() == decompressor_type@,
    {
        let r = MapBuilder {
            entries: Vec::new(),
            compressor: C::new(),
            decompressor_type: String::from_str(decompressor_type),
            value_type: String::from_str(value_type),
            path: String::from_str("::comde"),
            value: PhantomData,
        };
        proof {
            assert(r@ =~= Seq::<(Seq<char>, Seq<u8>)>::empty());
        }
        r
    }

    /// Compress `value` with the builder's compressor and record the result
    /// under `key`.  When compression fails nothing is recorded.
    pub fn entry(&mut self, key: String, value: V) -> (r: Result<(), CodecError>)
        requires
            old(self).wf(),
        ensures
            final(self).wf(),
            final(self).spec_path() == old(self).spec_path(),
            final(self).spec_value_type() == old(self).spec_value_type(),
            final(self).spec_decompressor_type() == old(self).spec_decompressor_type(),
            r is Ok ==> ({
                &&& final(self)@.len() == old(self)@.len() + 1
                &&& final(self)@.drop_last() == old(self)@
                &&& final(self)@.last().0 == key@
                &&& C::spec_inverse(final(self)@.last().1) == Some(value.byte_repr())
            }),
            r is Err ==> final(self)@ == old(self)@,
            C::spec_infallible() ==> r is Ok,
    {
        match self.compressor.to_vec(value) {
            Ok(bytes) => {
                let ghost b = bytes@;
                self.entries.push((key, bytes));
                proof {
                    assert(self@.drop_last() =~= pairs_of(old(self).entries@));
                    assert forall|i: int| 0 <= i < self@.len() implies compressed_entry::<V, C>(
                        #[trigger] self@[i].1,
                    ) by {
                        if i < self@.len() - 1 {
                            assert(self@[i] == old(self)@[i]);
                            assert(compressed_entry::<V, C>(old(self)@[i].1));
                        } else {
                            assert(self@[i].1 == b);
                            assert(C::spec_inverse(b)->0 == value.byte_repr());
                        }
                    }
                }
                Ok(())
            },
            Err(e) => Err(e),
        }
    }

    /// Set the crate path under which the emitted source names this
    /// library.
    pub fn phf_path(&mut self, path: &str)
        ensures
            final(self)@ == old(self)@,
            final(self).wf() == old(self).wf(),
            final(self).spec_path() == path@,
            final(self).spec_value_type() == old(self).spec_value_type(),
            final(self).spec_decompressor_type() == old(self).spec_decompressor_type(),
    {
        self.path = String::from_str(path);
    }

    /// Lay the recorded pairs out as a perfect-hash table: reject duplicate
    /// keys, derive seed and displacements, reorder the pairs into slot
    /// order and check the layout law.
    fn arranged(&self) -> (r: Result<(u64, Vec<(u32, u32)>, Vec<(String, Vec<u8>)>), CodecError>)
        requires
            self.wf(),
        ensures
            !pair_keys_distinct(self@) ==> (r matches Err(e) && e == CodecError::DuplicateKey),
            pair_keys_distinct(self@) && self@.len() <= u32::MAX ==> r is Ok,
            r matches Ok(t) ==> ({
                &&& pair_keys_distinct(self@)
                &&& slots_law(t.0, t.1@, pairs_of(t.2@))
                &&& same_pairs(pairs_of(t.2@), self@)
                &&& forall|i: int|
                    0 <= i < t.2@.len() ==> compressed_entry::<V, C>(
                        #[trigger] pairs_of(t.2@)[i].1,
                    )
            }),
    {
        let n = self.entries.len();
        let mut i: usize = 0;
        while i < n
            invariant
                n == self.entries@.len(),
                0 <= i <= n,
                forall|a: int, b: int|
                    0 <= a < b < n && a < i ==> self.entries@[a].0@ != self.entries@[b].0@,
            decreases n - i,
        {
            let mut j: usize = i + 1;
            while j < n
                invariant
                    n == self.entries@.len(),
                    i < n,
                    i + 1 <= j <= n,
                    forall|a: int, b: int|
                        0 <= a < b < n && a < i ==> self.entries@[a].0@ != self.entries@[b].0@,
                    forall|b: int| i < b < j ==> self.entries@[i as int].0@ != self.entries@[b].0@,
                decreases n - j,
            {
                if str_eq(self.entries[i].0.as_str(), self.entries[j].0.as_str()) {
                    proof {
                        assert(self@[i as int].0 == self@[j as int].0);
                        assert(!pair_keys_distinct(self@));
                    }
                    return Err(CodecError::DuplicateKey);
                }
                j += 1;
            }
            i += 1;
        }
        proof {
            assert(keys_distinct(self.entries@));
            assert forall|a: int, b: int| 0 <= a < b < self@.len() implies self@[a].0
                != self@[b].0 by {
                assert(self.entries@[a].0@ != self.entries@[b].0@);
            }
        }
        if n > (u32::MAX as usize) {
            return Err(CodecError::Codec);
        }
        let mut keys: Vec<String> = Vec::new();
        let mut i: usize = 0;
        while i < n
            invariant
                n == self.entries@.len(),
                0 <= i <= n,
                keys@.len() == i,
                forall|j: int| 0 <= j < i ==> keys@[j] == self.entries@[j].0,
            decreases n - i,
        {
            keys.push(self.entries[i].0.clone());
            i += 1;
        }
        let (seed, disps, perm) = generate_phf(&keys);
        let mut ordered: Vec<(String, Vec<u8>)> = Vec::new();
        let mut p: usize = 0;
        while p < n
            invariant
                n == self.entries@.len(),
                perm@.len() == n,
                forall|q: int| 0 <= q < n ==> #[trigger] perm@[q] < n,
                0 <= p <= n,
                ordered@.len() == p,
                forall|q: int|
                    0 <= q < p ==> #[trigger] pairs_of(ordered@)[q] == self@[perm@[q] as int],
            decreases n - p,
        {
            let idx = perm[p];
            let e = &self.entries[idx];
            let ghost ordered0 = ordered@;
            ordered.push((e.0.clone(), slice_to_vec(e.1.as_slice())));
            proof {
                assert forall|q: int| 0 <= q < p + 1 implies #[trigger] pairs_of(ordered@)[q]
                    == self@[perm@[q] as int] by {
                    if q < p {
                        assert(pairs_of(ordered0)[q] == self@[perm@[q] as int]);
                        assert(ordered@[q] == ordered0[q]);
                    } else {
                        assert(ordered@[q].0@ == self.entries@[idx as int].0@);
                        assert(ordered@[q].1@ == self.entries@[idx as int].1@);
                    }
                }
            }
            p += 1;
        }
        proof {
            assert forall|q: int| 0 <= q < pairs_of(ordered@).len() implies pair_in(
                #[trigger] pairs_of(ordered@)[q],
                self@,
            ) by {
                assert(self@[perm@[q] as int] == pairs_of(ordered@)[q]);
            }
            assert forall|j: int| 0 <= j < self@.len() implies pair_in(
                #[trigger] self@[j],
                pairs_of(ordered@),
            ) by {
                assert(appears(perm@, j));
                let q = choose|q: int| 0 <= q < perm@.len() && perm@[q] == j;
                assert(pairs_of(ordered@)[q] == self@[j]);
            }
            assert(same_pairs(pairs_of(ordered@), self@));
            assert forall|i2: int| 0 <= i2 < ordered@.len() implies compressed_entry::<V, C>(
                #[trigger] pairs_of(ordered@)[i2].1,
            ) by {
                assert(pairs_of(ordered@)[i2] == self@[perm@[i2] as int]);
                assert(compressed_entry::<V, C>(self@[perm@[i2] as int].1));
            }
        }
        proof {
            if n > 0 {
                lemma_div_is_ordered(3, n + 2, 3);
                lemma_div_is_ordered(n + 2, 3 * (n as int), 3);
                lemma_div_multiples_vanish(n as int, 3);
            }
            assert forall|i2: int|
                0 <= i2 < pairs_of(ordered@).len() implies spec_slot(
                seed,
                disps@,
                pairs_of(ordered@).len() as nat,
                pairs_of(ordered@)[i2].0,
            ) == i2 by {
                assert(pairs_of(ordered@)[i2] == self@[perm@[i2] as int]);
                assert(keys@[perm@[i2] as int] == self.entries@[perm@[i2] as int].0);
                assert(spec_slot(seed, disps@, keys@.len() as nat, keys@[perm@[i2] as int]@)
                    == i2);
            }
            assert(slots_law(seed, disps@, pairs_of(ordered@)));
        }
        if !check_slots(seed, &disps, &ordered) {
            proof {
                assert(false);
            }
            return Err(CodecError::Codec);
        }
        Ok((seed, disps, ordered))
    }

    /// Lay the recorded pairs out and assemble a ready map that pairs this
    /// builder's compressor with the decompressor `D` for the same
    /// algorithm.  Duplicate keys are rejected.
    pub fn build_map<D: Decompressor>(&self) -> (r: Result<CompressedPhfMap<V, D>, CodecError>) where
        V: Decompress,

        requires
            self.wf(),
            compatible::<C, D>(),
        ensures
            !pair_keys_distinct(self@) ==> (r matches Err(e) && e == CodecError::DuplicateKey),
            pair_keys_distinct(self@) && self@.len() <= u32::MAX ==> r is Ok,
            r matches Ok(m) ==> m.wf() && m@ == builder_map::<C>(self@),
    {
        let (seed, disps, ordered) = match self.arranged() {
            Ok(t) => t,
            Err(e) => {
                return Err(e);
            },
        };
        let ghost disps_view = disps@;
        let ghost ordered_view = ordered@;
        proof {
            assert forall|i: int| 0 <= i < ordered@.len() implies valid_entry::<V, D>(
                #[trigger] ordered@[i].1@,
            ) by {
                assert(compressed_entry::<V, C>(pairs_of(ordered@)[i].1));
                assert(pairs_of(ordered@)[i].1 == ordered@[i].1@);
                assert(C::spec_inverse(ordered@[i].1@) == D::spec_inverse(ordered@[i].1@));
            }
            assert(valid_parts::<V, D>(seed, disps@, ordered@));
        }
        match CompressedPhfMap::<V, D>::new(seed, disps, ordered) {
            Ok(m) => {
                proof {
                    self.lemma_built_map_view::<D>(m@, seed, disps_view, ordered_view);
                }
                Ok(m)
            },
            Err(_) => {
                proof {
                    assert(false);
                }
                Err(CodecError::Codec)
            },
        }
    }

    /// The view of the assembled table equals the map the builder's pairs
    /// describe.
    proof fn lemma_built_map_view<D: Decompressor>(
        &self,
        m: Map<Seq<char>, Seq<u8>>,
        seed: u64,
        disps: Seq<(u32, u32)>,
        ordered: Seq<(String, Vec<u8>)>,
    )
        requires
            compatible::<C, D>(),
            pair_keys_distinct(self@),
            slots_law(seed, disps, pairs_of(ordered)),
            same_pairs(pairs_of(ordered), self@),
            m == table_view::<D>(ordered),
        ensures
            m == builder_map::<C>(self@),
    {
        lemma_slots_distinct(seed, disps, ordered);
        let po = pairs_of(ordered);
        assert forall|k: Seq<char>| crate::table::has_key(ordered, k) <==> pair_has_key(
            self@,
            k,
        ) by {
            if crate::table::has_key(ordered, k) {
                let q = key_index(ordered, k);
                assert(0 <= q < ordered.len() && ordered[q].0@ == k);
                assert(pair_in(po[q], self@));
                let j = choose|j: int| 0 <= j < self@.len() && self@[j] == po[q];
                assert(self@[j].0 == k);
            }
            if pair_has_key(self@, k) {
                let j = pair_index(self@, k);
                assert(0 <= j < self@.len() && self@[j].0 == k);
                assert(pair_in(self@[j], po));
                let q = choose|q: int| 0 <= q < po.len() && po[q] == self@[j];
                assert(ordered[q].0@ == k);
                assert(crate::table::has_key(ordered, k));
            }
        }
        assert forall|k: Seq<char>| #[trigger]
            crate::table::has_key(ordered, k) implies table_view::<D>(ordered)[k]
            == builder_map::<C>(self@)[k] by {
            let q = key_index(ordered, k);
            lemma_key_index_unique(ordered, k, q);
            assert(pair_in(po[q], self@));
            let j = choose|j: int| 0 <= j < self@.len() && self@[j] == po[q];
            assert(self@[j].0 == k);
            lemma_pair_index_unique(self@, k, j);
            assert(ordered[q].1@ == self@[j].1);
            assert(C::spec_inverse(self@[j].1) == D::spec_inverse(self@[j].1));
        }
        assert(table_view::<D>(ordered) =~= builder_map::<C>(self@));
    }

    /// Emit the head of the source text: the constructor path, the
    /// configured type names and the seed.
    fn head_vec(&self, seed: u64) -> (out: Vec<u8>)
        ensures
            out@ == render_head(
                self.spec_path(),
                self.spec_value_type(),
                self.spec_decompressor_type(),
                seed,
            ),
    {
        let mut out: Vec<u8> = Vec::new();
        push_bytes(&mut out, self.path.as_str().as_bytes());
        push_bytes(&mut out, "::phf::CompressedPhfMap::<".as_bytes());
        push_bytes(&mut out, self.value_type.as_str().as_bytes());
        push_bytes(&mut out, ", ".as_bytes());
        push_bytes(&mut out, self.decompressor_type.as_str().as_bytes());
        push_bytes(&mut out, ">::new(".as_bytes());
        push_decimal(&mut out, seed);
        push_bytes(&mut out, "u64, vec![".as_bytes());
        proof {
            assert(out@ =~= render_head(
                self.spec_path(),
                self.spec_value_type(),
                self.spec_decompressor_type(),
                seed,
            ));
        }
        out
    }

    /// Lay the recorded pairs out and emit the source text of the map: the
    /// layout, each compressed entry as a byte-string literal, and the
    /// configured type names.  Duplicate keys are rejected.
    #[verifier::rlimit(100)]
    pub fn build(&self) -> (r: Result<Vec<u8>, CodecError>)
        requires
            self.wf(),
        ensures
            !pair_keys_distinct(self@) ==> (r matches Err(e) && e == CodecError::DuplicateKey),
            pair_keys_distinct(self@) && self@.len() <= u32::MAX ==> r is Ok,
            r matches Ok(out) ==> built_from(
                self.spec_path(),
                self.spec_value_type(),
                self.spec_decompressor_type(),
                self@,
                out@,
            ),
    {
        let (seed, disps, ordered) = match self.arranged() {
            Ok(t) => t,
            Err(e) => {
                return Err(e);
            },
        };
        let mut out = self.head_vec(seed);
        push_disps(&mut out, &disps);
        push_bytes(&mut out, "], vec![".as_bytes());
        push_entry_list(&mut out, &ordered);
        push_bytes(&mut out, "])".as_bytes());
        proof {
            assert(out@ == render(
                self.spec_path(),
                self.spec_value_type(),
                self.spec_decompressor_type(),
                seed,
                disps@,
                pairs_of(ordered@),
            ));
            assert(built_from(
                self.spec_path(),
                self.spec_value_type(),
                self.spec_decompressor_type(),
                self@,
                out@,
            )) by {
                reveal(built_from);
                assert(emitted(
                    self.spec_path(),
                    self.spec_value_type(),
                    self.spec_decompressor_type(),
                    self@,
                    seed,
                    disps@,
                    pairs_of(ordered@),
                    out@,
                ));
            }
        }
        Ok(out)
    }
}

} // verus!
