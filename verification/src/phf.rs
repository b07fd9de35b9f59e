//! An immutable perfect-hash map from string keys to compressed entries.
//!
//! The table is built once, ahead of time (see [`crate::codegen`]), as a
//! flat array indexed by a hash-computed slot: a seed, a displacement table
//! and the entries in slot order.  A lookup hashes the key, probes the one
//! slot the scheme assigns to it, compares the stored key — an unknown key
//! can hash into an occupied slot, a known one cannot collide — and only
//! then decompresses the slot's bytes.  Nothing is ever mutated.

use core::marker::PhantomData;

use vstd::arithmetic::div_mod::{
    lemma_add_mod_noop, lemma_add_mod_noop_right, lemma_fundamental_div_mod_converse_mod,
    lemma_mod_division_less_than_divisor, lemma_small_mod,
};
use vstd::prelude::*;

use crate::com::Compress;
use crate::de::{Decompress, Decompressor};
use crate::error::CodecError;
use crate::hash_map::valid_entry;
use crate::table::{
    has_key, key_index, keys_distinct, lemma_key_index_unique, pairs_of, str_eq, table_view,
};

verus! {

/// The `(g, f1, f2)` triple that the perfect-hash scheme's hash function
/// computes for a key under a seed.
pub uninterp spec fn phf_hashes(k: Seq<char>, seed: u64) -> (u32, u32, u32);

/// Relies on `phf_shared::hash`: a portable SipHash-1-3 of the key's bytes,
/// so the triple depends on the key's characters and the seed alone.
#[verifier::external_body]
pub(crate) fn hash_str(k: &str, seed: u64) -> (r: (u32, u32, u32))
    ensures
        r == phf_hashes(k@, seed),
{
    let h = phf_shared::hash(k, &seed);
    (h.g, h.f1, h.f2)
}

/// The displacement function of the perfect-hash scheme: `d2 + f1 * d1 +
/// f2`, wrapping modulo `2^32`.
pub open spec fn spec_displace(f1: u32, f2: u32, d1: u32, d2: u32) -> int {
    (d2 + f1 * d1 + f2) % 0x1_0000_0000
}

fn displace(f1: u32, f2: u32, d1: u32, d2: u32) -> (r: u32)
    ensures
        r == spec_displace(f1, f2, d1, d2),
{
    let m = d2.wrapping_add(f1.wrapping_mul(d1));
    let r = m.wrapping_add(f2);
    proof {
        let w: int = 0x1_0000_0000;
        let a: int = (f1 * d1) as int;
        assert(m == (d2 + a % w) % w) by {
            lemma_mod_division_less_than_divisor(a % w, w);
            lemma_fundamental_div_mod_converse_mod(
                d2 + a % w,
                w,
                if d2 + a % w > u32::MAX {
                    1int
                } else {
                    0int
                },
                m as int,
            );
        }
        assert((d2 + a % w) % w == (d2 + a) % w) by {
            lemma_add_mod_noop_right(d2 as int, a, w);
        }
        assert(r == (m + f2) % w) by {
            lemma_fundamental_div_mod_converse_mod(
                m + f2,
                w,
                if m + f2 > u32::MAX {
                    1int
                } else {
                    0int
                },
                r as int,
            );
        }
        assert(((d2 + a) % w + (f2 as int) % w) % w == (d2 + a + f2) % w) by {
            lemma_add_mod_noop(d2 + a, f2 as int, w);
        }
        assert((f2 as int) % w == f2) by {
            lemma_small_mod(f2 as nat, w as nat);
        }
    }
    r
}

/// The slot the scheme assigns to key `k` in a table of `len` entries with
/// displacement table `disps` under `seed`.
pub open spec fn spec_slot(seed: u64, disps: Seq<(u32, u32)>, len: nat, k: Seq<char>) -> int
    recommends
        disps.len() > 0,
        len > 0,
{
    let (g, f1, f2) = phf_hashes(k, seed);
    let d = disps[(g as int) % (disps.len() as int)];
    spec_displace(f1, f2, d.0, d.1) % (len as int)
}

/// Whether the perfect-hash layout holds of a table: the scheme sends the
/// key of every pair to exactly the position holding it.
pub open spec fn slots_law(seed: u64, disps: Seq<(u32, u32)>, pairs: Seq<(Seq<char>, Seq<u8>)>) -> bool {
    &&& pairs.len() <= u32::MAX
    &&& disps.len() <= u32::MAX
    &&& pairs.len() > 0 ==> disps.len() > 0
    &&& forall|i: int|
        0 <= i < pairs.len() ==> spec_slot(seed, disps, pairs.len() as nat, pairs[i].0) == i
}

/// A key held by two positions would be sent to both, so the slot law makes
/// the keys of an entry sequence pairwise distinct.
pub proof fn lemma_slots_distinct(seed: u64, disps: Seq<(u32, u32)>, entries: Seq<(String, Vec<u8>)>)
    requires
        slots_law(seed, disps, pairs_of(entries)),
    ensures
        keys_distinct(entries),
{
    let pairs = pairs_of(entries);
    assert forall|i: int, j: int| 0 <= i < j < entries.len() implies entries[i].0@
        != entries[j].0@ by {
        if entries[i].0@ == entries[j].0@ {
            assert(spec_slot(seed, disps, pairs.len() as nat, pairs[i].0) == i);
            assert(spec_slot(seed, disps, pairs.len() as nat, pairs[j].0) == j);
        }
    }
}

/// Check, slot by slot, that `(seed, disps, entries)` satisfy the
/// perfect-hash layout law.
pub(crate) fn check_slots(seed: u64, disps: &Vec<(u32, u32)>, entries: &Vec<(String, Vec<u8>)>) -> (r:
    bool)
    ensures
        r <==> slots_law(seed, disps@, pairs_of(entries@)),
{
    let n = entries.len();
    if n > (u32::MAX as usize) || disps.len() > (u32::MAX as usize) {
        return false;
    }
    if n > 0 && disps.len() == 0 {
        return false;
    }
    let mut i: usize = 0;
    while i < n
        invariant
            n == entries@.len(),
            n <= u32::MAX,
            disps@.len() <= u32::MAX,
            n > 0 ==> disps@.len() > 0,
            0 <= i <= n,
            forall|j: int|
                0 <= j < i ==> spec_slot(seed, disps@, n as nat, pairs_of(entries@)[j].0) == j,
        decreases n - i,
    {
        let (g, f1, f2) = hash_str(entries[i].0.as_str(), seed);
        let di = (g % (disps.len() as u32)) as usize;
        let (d1, d2) = disps[di];
        let slot = (displace(f1, f2, d1, d2) % (n as u32)) as usize;
        if slot != i {
            proof {
                assert(spec_slot(seed, disps@, n as nat, pairs_of(entries@)[i as int].0)
                    != i as int);
            }
            return false;
        }
        i += 1;
    }
    true
}

/// Whether `(seed, disps, entries)` form a well-laid-out table for value
/// type `V` and decompressor `D`: the perfect-hash layout holds, and every
/// entry's bytes decompress through `D` to the representation of a value.
pub open spec fn valid_parts<V: Compress, D: Decompressor>(
    seed: u64,
    disps: Seq<(u32, u32)>,
    entries: Seq<(String, Vec<u8>)>,
) -> bool {
    &&& slots_law(seed, disps, pairs_of(entries))
    &&& forall|i: int| 0 <= i < entries.len() ==> valid_entry::<V, D>(#[trigger] entries[i].1@)
}

/// An immutable map from string keys to values stored as compressed byte
/// sequences, indexed by a minimal perfect hash function over its fixed key
/// set.  Lookup probes a single slot and decompresses lazily; there is no
/// chaining, no resizing and no mutation.
///
/// Its view is the map from each key to the byte representation of the
/// value stored under it.
pub struct CompressedPhfMap<V: Decompress, D: Decompressor> {
    key: u64,
    disps: Vec<(u32, u32)>,
    entries: Vec<(String, Vec<u8>)>,
    value: PhantomData<V>,
    decompressor: PhantomData<D>,
}

impl<V: Decompress, D: Decompressor> View for CompressedPhfMap<V, D> {
    type V = Map<Seq<char>, Seq<u8>>;

    closed spec fn view(&self) -> Map<Seq<char>, Seq<u8>> {
        table_view::<D>(self.entries@)
    }
}

impl<V: Decompress, D: Decompressor> CompressedPhfMap<V, D> {
    /// Well-formed: the parts form a valid perfect-hash layout over entries
    /// that decompress and decode.
    pub closed spec fn wf(&self) -> bool {
        valid_parts::<V, D>(self.key, self.disps@, self.entries@)
    }

    /// Assemble a table from its parts, checking the perfect-hash layout
    /// slot by slot and checking that every entry decompresses and decodes.
    /// It succeeds on exactly the well-laid-out inputs; a failed check
    /// builds nothing.
    pub fn new(seed: u64, disps: Vec<(u32, u32)>, entries: Vec<(String, Vec<u8>)>) -> (r: Result<
        Self,
        CodecError,
    >)
        ensures
            r is Ok <==> valid_parts::<V, D>(seed, disps@, entries@),
            r matches Ok(m) ==> m.wf() && m@ == table_view::<D>(entries@),
    {
        if !check_slots(seed, &disps, &entries) {
            return Err(CodecError::Codec);
        }
        let n = entries.len();
        let d = D::new();
        let mut i: usize = 0;
        while i < n
            invariant
                n == entries@.len(),
                0 <= i <= n,
                forall|j: int| 0 <= j < i ==> valid_entry::<V, D>(#[trigger] entries@[j].1@),
            decreases n - i,
        {
            match d.from_vec::<V>(entries[i].1.as_slice()) {
                Ok(_) => (),
                Err(e) => {
                    return Err(e);
                },
            }
            i += 1;
        }
        Ok(
            CompressedPhfMap {
                key: seed,
                disps,
                entries,
                value: PhantomData,
                decompressor: PhantomData,
            },
        )
    }

    /// Hash `key`, probe the one slot the scheme assigns to it, compare the
    /// stored key, and — only on a match — decompress the slot's bytes into
    /// a value.  A key outside the fixed set yields nothing, even when it
    /// hashes into an occupied slot.
    pub fn get(&self, key: &str) -> (r: Option<V>)
        requires
            self.wf(),
        ensures
            r is Some <==> self@.contains_key(key@),
            r matches Some(w) ==> w.byte_repr() == self@[key@],
    {
        let n = self.entries.len();
        if n == 0 {
            return None;
        }
        let (g, f1, f2) = hash_str(key, self.key);
        let di = (g % (self.disps.len() as u32)) as usize;
        let (d1, d2) = self.disps[di];
        let slot = (displace(f1, f2, d1, d2) % (n as u32)) as usize;
        proof {
            assert(slot == spec_slot(self.key, self.disps@, n as nat, key@));
        }
        let entry = &self.entries[slot];
        if str_eq(entry.0.as_str(), key) {
            proof {
                lemma_slots_distinct(self.key, self.disps@, self.entries@);
                lemma_key_index_unique(self.entries@, key@, slot as int);
                assert(valid_entry::<V, D>(self.entries@[slot as int].1@));
            }
            let d = D::new();
            match d.from_vec::<V>(entry.1.as_slice()) {
                Ok(w) => Some(w),
                Err(_) => {
                    proof {
                        assert(false);
                    }
                    None
                },
            }
        } else {
            proof {
                if self@.contains_key(key@) {
                    let ix = key_index(self.entries@, key@);
                    assert(spec_slot(self.key, self.disps@, n as nat, pairs_of(self.entries@)[ix].0)
                        == ix);
                }
            }
            None
        }
    }
}

} // verus!
