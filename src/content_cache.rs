use std::hash::BuildHasherDefault;
use std::hash::Hasher;

use hashbrown::HashMap;
use twox_hash::XxHash64;
use vstd::prelude::*;

verus! {

#[verifier::external_type_specification]
#[verifier::external_body]
pub struct ExXxHash64(XxHash64);

#[verifier::external_type_specification]
#[verifier::external_body]
#[verifier::reject_recursive_types(H)]
pub struct ExBuildHasherDefault<H>(BuildHasherDefault<H>);

#[verifier::external_type_specification]
#[verifier::external_body]
#[verifier::reject_recursive_types(K)]
#[verifier::reject_recursive_types(V)]
#[verifier::reject_recursive_types(S)]
pub struct ExHashMap<K, V, S>(HashMap<K, V, S>);

/// Hash map from 64-bit keys to indices or counts, hashed with xxHash64.
pub type HashTable = HashMap<u64, usize, BuildHasherDefault<XxHash64>>;

/// The entries of such a hash map.
pub uninterp spec fn table_entries(m: HashTable) -> Map<u64, usize>;

/// The 64-bit xxHash digest (seed 0) of a byte string.
pub uninterp spec fn xxhash64_of(bytes: Seq<u8>) -> u64;

/// Byte `k` (0 = least significant) of a 32-bit word.
pub open spec fn byte_of(w: u32, k: int) -> u8 {
    if k == 0 {
        (w & 0xff) as u8
    } else if k == 1 {
        ((w >> 8u32) & 0xff) as u8
    } else if k == 2 {
        ((w >> 16u32) & 0xff) as u8
    } else {
        (w >> 24u32) as u8
    }
}

/// The little-endian byte encoding of a sequence of words.
pub open spec fn le_bytes(words: Seq<u32>) -> Seq<u8> {
    Seq::new(words.len() * 4, |i: int| byte_of(words[i / 4], i % 4))
}

/// The content hash of a payload: the xxHash64 digest of its little-endian bytes.
pub open spec fn content_hash_of(words: Seq<u32>) -> u64 {
    xxhash64_of(le_bytes(words))
}

/// Relies on `twox_hash::XxHash64` (seeded with 0, fed the bytes in one `write`, then `finish`):
/// a digest that depends on the bytes alone.
#[verifier::external_body]
fn xxhash64(bytes: &[u8]) -> (r: u64)
    ensures
        r == xxhash64_of(bytes@),
{
    let mut hasher = XxHash64::with_seed(0);
    hasher.write(bytes);
    hasher.finish()
}

/// Relies on `hashbrown::HashMap`'s `Default`: a map with no entries.
#[verifier::external_body]
pub(crate) fn new_map() -> (m: HashTable)
    ensures
        forall|k: u64| !table_entries(m).contains_key(k),
{
    HashMap::default()
}

/// Relies on `hashbrown::HashMap::get`: the value stored under the key, if any.
#[verifier::external_body]
pub(crate) fn map_get(m: &HashTable, key: u64) -> (r: Option<usize>)
    ensures
        r is Some <==> table_entries(*m).contains_key(key),
        r is Some ==> r->0 == table_entries(*m)[key],
{
    m.get(&key).copied()
}

/// Relies on `hashbrown::HashMap::insert`: the key maps to the value afterwards, other keys are kept.
#[verifier::external_body]
pub(crate) fn map_insert(m: &mut HashTable, key: u64, value: usize)
    ensures
        table_entries(*final(m)) == table_entries(*old(m)).insert(key, value),
{
    m.insert(key, value);
}

/// Relies on `hashbrown::HashMap::remove`: the key is gone afterwards, other keys are kept.
#[verifier::external_body]
fn map_remove(m: &mut HashTable, key: u64)
    ensures
        table_entries(*final(m)) == table_entries(*old(m)).remove(key),
{
    m.remove(&key);
}

/// Little-endian bytes of the words, four per word.
pub fn words_to_le_bytes(words: &[u32]) -> (r: Vec<u8>)
    requires
        words@.len() * 4 <= usize::MAX,
    ensures
        r@ == le_bytes(words@),
{
    let mut out: Vec<u8> = Vec::new();
    let mut i: usize = 0;
    while i < words.len()
        invariant
            i <= words@.len(),
            words@.len() * 4 <= usize::MAX,
            out@.len() == 4 * i,
            forall|j: int| 0 <= j < 4 * i ==> out@[j] == byte_of(words@[j / 4], j % 4),
        decreases words.len() - i,
    {
        let w = words[i];
        out.push((w & 0xff) as u8);
        out.push(((w >> 8u32) & 0xff) as u8);
        out.push(((w >> 16u32) & 0xff) as u8);
        out.push((w >> 24u32) as u8);
        proof {
            assert forall|j: int| 0 <= j < 4 * (i + 1) implies out@[j] == byte_of(
                words@[j / 4],
                j % 4,
            ) by {
                if j >= 4 * i {
                    assert(j / 4 == i as int);
                    assert(j % 4 == j - 4 * i);
                }
            }
        }
        i = i + 1;
    }
    assert(out@ =~= le_bytes(words@));
    out
}

/// Byte `k` of the word built from four little-endian bytes is byte `k`.
proof fn lemma_word_bytes(b0: u8, b1: u8, b2: u8, b3: u8)
    ensures
        ({
            let w = (b0 as u32) | ((b1 as u32) << 8u32) | ((b2 as u32) << 16u32) | ((b3 as u32)
                << 24u32);
            &&& byte_of(w, 0) == b0
            &&& byte_of(w, 1) == b1
            &&& byte_of(w, 2) == b2
            &&& byte_of(w, 3) == b3
        }),
{
    let (c0, c1, c2, c3) = (b0 as u32, b1 as u32, b2 as u32, b3 as u32);
    let w = c0 | (c1 << 8u32) | (c2 << 16u32) | (c3 << 24u32);
    assert(c0 < 256 && c1 < 256 && c2 < 256 && c3 < 256);
    assert((w & 0xff) == c0 && ((w >> 8u32) & 0xff) == c1 && ((w >> 16u32) & 0xff) == c2 && (w
        >> 24u32) == c3) by (bit_vector)
        requires
            c0 < 256,
            c1 < 256,
            c2 < 256,
            c3 < 256,
            w == c0 | (c1 << 8u32) | (c2 << 16u32) | (c3 << 24u32),
    ;
}

/// Words read from their little-endian bytes, four per word; `None` when the byte count is not
/// a multiple of four.
pub fn le_bytes_to_words(bytes: &[u8]) -> (r: Option<Vec<u32>>)
    ensures
        r is Some <==> bytes@.len() % 4 == 0,
        r is Some ==> le_bytes(r->0@) == bytes@,
{
    if bytes.len() % 4 != 0 {
        return None;
    }
    let n = bytes.len() / 4;
    let mut out: Vec<u32> = Vec::new();
    let mut i: usize = 0;
    while i < n
        invariant
            i <= n,
            n * 4 == bytes@.len(),
            bytes@.len() <= usize::MAX,
            out@.len() == i,
            forall|j: int| 0 <= j < 4 * i ==> byte_of(out@[j / 4], j % 4) == bytes@[j],
        decreases n - i,
    {
        let (b0, b1, b2, b3) = (bytes[4 * i], bytes[4 * i + 1], bytes[4 * i + 2], bytes[4 * i + 3]);
        let w = (b0 as u32) | ((b1 as u32) << 8u32) | ((b2 as u32) << 16u32) | ((b3 as u32)
            << 24u32);
        proof {
            lemma_word_bytes(b0, b1, b2, b3);
        }
        out.push(w);
        proof {
            assert forall|j: int| 0 <= j < 4 * (i + 1) implies byte_of(out@[j / 4], j % 4)
                == bytes@[j] by {
                if j >= 4 * i {
                    assert(j / 4 == i as int);
                    assert(j % 4 == j - 4 * i);
                }
            }
        }
        i = i + 1;
    }
    assert(le_bytes(out@) =~= bytes@);
    Some(out)
}

/// Sixteen-bit values read from their little-endian bytes (a palette file, say); `None` when
/// the byte count is odd.
pub fn le_bytes_to_halfwords(bytes: &[u8]) -> (r: Option<Vec<u16>>)
    ensures
        r is Some <==> bytes@.len() % 2 == 0,
        r is Some ==> r->0@.len() * 2 == bytes@.len() && forall|i: int|
            0 <= i < r->0@.len() ==> #[trigger] r->0@[i] as int == bytes@[2 * i] as int + 256
                * bytes@[2 * i + 1] as int,
{
    if bytes.len() % 2 != 0 {
        return None;
    }
    let n = bytes.len() / 2;
    let mut out: Vec<u16> = Vec::new();
    let mut i: usize = 0;
    while i < n
        invariant
            i <= n,
            n * 2 == bytes@.len(),
            bytes@.len() <= usize::MAX,
            out@.len() == i,
            forall|j: int|
                0 <= j < i ==> #[trigger] out@[j] as int == bytes@[2 * j] as int + 256
                    * bytes@[2 * j + 1] as int,
        decreases n - i,
    {
        out.push(bytes[2 * i] as u16 + 256 * (bytes[2 * i + 1] as u16));
        i = i + 1;
    }
    Some(out)
}

/// Hashes a payload for the content cache.
pub fn content_hash(words: &[u32]) -> (r: u64)
    requires
        words@.len() * 4 <= usize::MAX,
    ensures
        r == content_hash_of(words@),
{
    let bytes = words_to_le_bytes(words);
    xxhash64(bytes.as_slice())
}

/// Content cache: maps the content hash of a resident payload to its first block.
pub struct ContentCache {
    map: HashTable,
}

impl View for ContentCache {
    type V = Map<u64, usize>;

    closed spec fn view(&self) -> Map<u64, usize> {
        table_entries(self.map)
    }
}

impl ContentCache {
    /// An empty cache.
    pub fn new() -> (c: ContentCache)
        ensures
            c@ == Map::<u64, usize>::empty(),
    {
        let c = ContentCache { map: new_map() };
        assert(c@ =~= Map::<u64, usize>::empty());
        c
    }

    /// The first block of the resident copy with this hash, if any.
    pub fn lookup(&self, hash: u64) -> (r: Option<usize>)
        ensures
            r == (if self@.contains_key(hash) {
                Some(self@[hash])
            } else {
                None::<usize>
            }),
    {
        map_get(&self.map, hash)
    }

    /// Records that the payload with this hash is resident from block `start`.
    pub fn insert(&mut self, hash: u64, start: usize)
        ensures
            final(self)@ == old(self)@.insert(hash, start),
    {
        map_insert(&mut self.map, hash, start);
    }

    /// Forgets the entry for this hash.
    pub fn remove(&mut self, hash: u64)
        ensures
            final(self)@ == old(self)@.remove(hash),
    {
        map_remove(&mut self.map, hash);
    }
}

} // verus!
