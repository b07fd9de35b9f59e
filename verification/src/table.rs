//! Helpers shared by the keyed containers: lookup specifications over a
//! sequence of keyed entries, and verified string comparison.

use vstd::prelude::*;
use vstd::string::StringSliceAdditionalSpecFns;
use vstd::utf8::encode_utf8_decode_utf8;

use crate::de::Decompressor;

verus! {

/// Whether some entry of `s` carries the key `k`.
pub open spec fn has_key(s: Seq<(String, Vec<u8>)>, k: Seq<char>) -> bool {
    exists|i: int| 0 <= i < s.len() && s[i].0@ == k
}

/// The position of the entry of `s` carrying the key `k`.
pub open spec fn key_index(s: Seq<(String, Vec<u8>)>, k: Seq<char>) -> int {
    choose|i: int| 0 <= i < s.len() && s[i].0@ == k
}

/// Whether the keys of `s` are pairwise distinct.
pub open spec fn keys_distinct(s: Seq<(String, Vec<u8>)>) -> bool {
    forall|i: int, j: int| 0 <= i < j < s.len() ==> s[i].0@ != s[j].0@
}

/// Under distinct keys, the entry holding `k` is the only one, so its
/// position is exactly `key_index`.
pub proof fn lemma_key_index_unique(s: Seq<(String, Vec<u8>)>, k: Seq<char>, i: int)
    requires
        keys_distinct(s),
        0 <= i < s.len(),
        s[i].0@ == k,
    ensures
        has_key(s, k),
        key_index(s, k) == i,
{
    assert(has_key(s, k));
    let j = key_index(s, k);
    if i < j {
        assert(s[i].0@ != s[j].0@);
    } else if j < i {
        assert(s[j].0@ != s[i].0@);
    }
}

/// The view pairs of an entry sequence: each key's characters beside the
/// stored bytes.
pub open spec fn pairs_of(s: Seq<(String, Vec<u8>)>) -> Seq<(Seq<char>, Seq<u8>)> {
    Seq::new(s.len(), |i: int| (s[i].0@, s[i].1@))
}

/// Whether some pair of `s` carries the key `k`.
pub open spec fn pair_has_key(s: Seq<(Seq<char>, Seq<u8>)>, k: Seq<char>) -> bool {
    exists|i: int| 0 <= i < s.len() && s[i].0 == k
}

/// The position of the pair of `s` carrying the key `k`.
pub open spec fn pair_index(s: Seq<(Seq<char>, Seq<u8>)>, k: Seq<char>) -> int {
    choose|i: int| 0 <= i < s.len() && s[i].0 == k
}

/// Whether the keys of the pairs of `s` are pairwise distinct.
pub open spec fn pair_keys_distinct(s: Seq<(Seq<char>, Seq<u8>)>) -> bool {
    forall|i: int, j: int| 0 <= i < j < s.len() ==> s[i].0 != s[j].0
}

/// Under distinct keys, the pair holding `k` is the only one, so its
/// position is exactly `pair_index`.
pub proof fn lemma_pair_index_unique(s: Seq<(Seq<char>, Seq<u8>)>, k: Seq<char>, i: int)
    requires
        pair_keys_distinct(s),
        0 <= i < s.len(),
        s[i].0 == k,
    ensures
        pair_has_key(s, k),
        pair_index(s, k) == i,
{
    assert(pair_has_key(s, k));
    let j = pair_index(s, k);
    if i < j {
        assert(s[i].0 != s[j].0);
    } else if j < i {
        assert(s[j].0 != s[i].0);
    }
}

/// The map an entry sequence stands for, once decompressed through `D`:
/// each key goes to what `D` recovers from the bytes stored beside it.
pub open spec fn table_view<D: Decompressor>(s: Seq<(String, Vec<u8>)>) -> Map<
    Seq<char>,
    Seq<u8>,
> {
    Map::new(
        |k: Seq<char>| has_key(s, k),
        |k: Seq<char>| D::spec_inverse(s[key_index(s, k)].1@)->0,
    )
}

/// Whether two strings hold the same characters, decided by comparing their
/// UTF-8 bytes.
pub fn str_eq(a: &str, b: &str) -> (r: bool)
    ensures
        r <==> a@ == b@,
{
    let ab = a.as_bytes();
    let bb = b.as_bytes();
    proof {
        encode_utf8_decode_utf8(a@);
        encode_utf8_decode_utf8(b@);
    }
    if ab.len() != bb.len() {
        return false;
    }
    let n = ab.len();
    let mut i: usize = 0;
    while i < n
        invariant
            n == ab@.len() == bb@.len(),
            0 <= i <= n,
            forall|j: int| 0 <= j < i ==> ab@[j] == bb@[j],
            ab@ == a.spec_bytes(),
            bb@ == b.spec_bytes(),
        decreases n - i,
    {
        if ab[i] != bb[i] {
            return false;
        }
        i += 1;
    }
    proof {
        assert(ab@ =~= bb@);
    }
    true
}

} // verus!
