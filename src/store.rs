//! The texture store: size and angle count per texture type, and the RGBA
//! bytes of each (type, angle) pair.
use vstd::prelude::*;
use std::collections::HashMap;
use crate::texture::Texture;

verus! {

broadcast use vstd::std_specs::hash::group_hash_axioms;

/// Size and number of pre-rotated angles of one texture type.
#[derive(Clone, Copy, Debug, PartialEq, Eq, Structural)]
pub struct TextureData {
    pub width: i32,
    pub height: i32,
    pub angles: u32,
}

/// Texture metadata by type code.
pub struct WasmTextureMetaMap {
    map: HashMap<i32, TextureData>,
}

impl View for WasmTextureMetaMap {
    type V = Map<i32, TextureData>;

    closed spec fn view(&self) -> Map<i32, TextureData> {
        self.map@
    }
}

impl WasmTextureMetaMap {
    /// An empty store.
    pub fn new() -> (r: Self)
        ensures
            r@ == Map::<i32, TextureData>::empty(),
    {
        WasmTextureMetaMap { map: HashMap::new() }
    }

    /// Records the size and angle count of texture type `key`, replacing any
    /// earlier record.
    pub fn populate_from_array(&mut self, key: i32, width: i32, height: i32, angles: u32)
        ensures
            final(self)@ == old(self)@.insert(key, TextureData { width, height, angles }),
    {
        self.map.insert(key, TextureData { width, height, angles });
    }

    /// The record of texture type `key`, if any.
    pub fn get(&self, key: i32) -> (r: Option<&TextureData>)
        ensures
            match r {
                Some(d) => self@.contains_key(key) && *d == self@[key],
                None => !self@.contains_key(key),
            },
    {
        self.map.get(&key)
    }

    /// The records by type code.
    pub fn get_map(&self) -> (r: &HashMap<i32, TextureData>)
        ensures
            r@ == self@,
    {
        &self.map
    }
}

/// One 64-bit key for a pair of 32-bit integers: a texture (type, angle)
/// pair, or a cell's coordinates.
pub open spec fn pair_key(kind: i32, angle: i32) -> u64 {
    ((kind as u32 as u64) << 32u64) | (angle as u32 as u64)
}

/// Computes `pair_key`.
pub fn pair_key_of(kind: i32, angle: i32) -> (r: u64)
    ensures
        r == pair_key(kind, angle),
{
    ((kind as u32 as u64) << 32u64) | (angle as u32 as u64)
}

/// Distinct pairs have distinct keys.
pub proof fn lemma_pair_key_injective(k1: i32, a1: i32, k2: i32, a2: i32)
    ensures
        pair_key(k1, a1) == pair_key(k2, a2) ==> k1 == k2 && a1 == a2,
{
    let (x1, y1, x2, y2) = (k1 as u32 as u64, a1 as u32 as u64, k2 as u32 as u64, a2 as u32 as u64);
    assert(x1 < 4294967296 && y1 < 4294967296 && x2 < 4294967296 && y2 < 4294967296);
    assert(((x1 << 32u64) | y1) == ((x2 << 32u64) | y2) ==> x1 == x2 && y1 == y2) by (bit_vector)
        requires x1 < 4294967296, y1 < 4294967296, x2 < 4294967296, y2 < 4294967296;
    assert((k1 as u32 as u64) == (k2 as u32 as u64) ==> k1 == k2) by (bit_vector);
    assert((a1 as u32 as u64) == (a2 as u32 as u64) ==> a1 == a2) by (bit_vector);
}

/// A copy of `src`.
fn copy_bytes(src: &[u8]) -> (r: Vec<u8>)
    ensures
        r@ == src@,
{
    let mut out: Vec<u8> = Vec::with_capacity(src.len());
    let mut i: usize = 0;
    while i < src.len()
        invariant
            i <= src@.len(),
            out@ == src@.subrange(0, i as int),
        decreases src@.len() - i,
    {
        out.push(src[i]);
        i = i + 1;
        assert(out@ =~= src@.subrange(0, i as int));
    }
    assert(out@ =~= src@);
    out
}

/// Texture bytes by (type, angle) pair.
pub struct WasmTextureMap {
    map: HashMap<u64, Vec<u8>>,
}

impl WasmTextureMap {
    /// The bytes stored for (type, angle) pair `key`, if any.
    pub closed spec fn bytes(&self, kind: i32, angle: i32) -> Option<Seq<u8>> {
        if self.map@.contains_key(pair_key(kind, angle)) {
            Some(self.map@[pair_key(kind, angle)]@)
        } else {
            None
        }
    }

    /// Number of (type, angle) pairs stored.
    pub closed spec fn count(&self) -> nat {
        self.map@.len()
    }

    /// An empty store.
    pub fn new() -> (r: Self)
        ensures
            forall|k: i32, a: i32| r.bytes(k, a).is_none(),
            r.count() == 0,
    {
        WasmTextureMap { map: HashMap::new() }
    }

    /// Stores a copy of `sprite_data` as the bytes of texture type `key0` at
    /// angle index `angle`, replacing any earlier bytes of that pair.
    pub fn populate_from_array(&mut self, key0: i32, angle: i32, sprite_data: &[u8])
        ensures
            final(self).bytes(key0, angle) == Some(sprite_data@),
            forall|k: i32, a: i32| !(k == key0 && a == angle) ==> #[trigger] final(self).bytes(k, a) == old(self).bytes(k, a),
    {
        let data = copy_bytes(sprite_data);
        self.map.insert(pair_key_of(key0, angle), data);
        assert forall|k: i32, a: i32| !(k == key0 && a == angle) implies #[trigger] self.bytes(k, a) == old(self).bytes(k, a) by {
            lemma_pair_key_injective(k, a, key0, angle);
        }
    }

    /// Number of (type, angle) pairs stored.
    pub fn count_cells(&self) -> (r: usize)
        ensures
            r == self.count(),
    {
        self.map.len()
    }

    /// The bytes of texture type `kind` at angle index `angle`, if stored.
    pub fn get(&self, kind: i32, angle: i32) -> (r: Option<&Vec<u8>>)
        ensures
            match r {
                Some(v) => self.bytes(kind, angle) == Some(v@),
                None => self.bytes(kind, angle).is_none(),
            },
    {
        self.map.get(&pair_key_of(kind, angle))
    }

    /// The texture of type `kind` at angle index `angle`, sized by `meta`;
    /// `None` when either the bytes or the size are missing.
    pub fn texture<'a>(&'a self, meta: &WasmTextureMetaMap, kind: i32, angle: i32) -> (r: Option<Texture<'a>>)
        ensures
            match r {
                Some(t) => self.bytes(kind, angle) == Some(t.data@) && meta@.contains_key(kind)
                    && t.width == meta@[kind].width && t.height == meta@[kind].height,
                None => self.bytes(kind, angle).is_none() || !meta@.contains_key(kind),
            },
    {
        match (self.get(kind, angle), meta.get(kind)) {
            (Some(v), Some(d)) => Some(Texture { data: v.as_slice(), width: d.width, height: d.height }),
            _ => None,
        }
    }
}

/// Type code of record `i` of a (type, height, width, angles) array.
pub open spec fn record_type(data: Seq<i32>, i: int) -> i32 {
    data[4 * i]
}

/// (height, width, angles) of record `i`.
pub open spec fn record_value(data: Seq<i32>, i: int) -> (i32, i32, i32) {
    (data[4 * i + 1], data[4 * i + 2], data[4 * i + 3])
}

/// Record `i` is the last one of the first `n` records with type `k`.
pub open spec fn last_record_of(data: Seq<i32>, n: int, k: i32, i: int) -> bool {
    0 <= i < n && record_type(data, i) == k && forall|j: int| i < j < n ==> #[trigger] record_type(data, j) != k
}

/// Reads (type, height, width, angles) records of four integers each
/// (a trailing partial record is ignored) and maps each type to the
/// (height, width, angles) of its last record.
pub fn parse_sprite_texture_array(data: &[i32]) -> (r: HashMap<i32, (i32, i32, i32)>)
    ensures
        forall|k: i32| #[trigger] r@.contains_key(k) <==> exists|i: int| #[trigger] last_record_of(data@, data@.len() as int / 4, k, i),
        forall|k: i32, i: int| #[trigger] last_record_of(data@, data@.len() as int / 4, k, i) ==> r@[k] == record_value(data@, i),
{
    let mut map: HashMap<i32, (i32, i32, i32)> = HashMap::new();
    let len = data.len();
    let n = len / 4;
    let mut i: usize = 0;
    while i < n
        invariant
            len == data@.len(),
            n == data@.len() / 4,
            i <= n,
            forall|k: i32| #[trigger] map@.contains_key(k) <==> exists|j: int| #[trigger] last_record_of(data@, i as int, k, j),
            forall|k: i32, j: int| #[trigger] last_record_of(data@, i as int, k, j) ==> map@[k] == record_value(data@, j),
        decreases n - i,
    {
        let ghost prev = map@;
        map.insert(data[4 * i], (data[4 * i + 1], data[4 * i + 2], data[4 * i + 3]));
        let ghost ki = record_type(data@, i as int);
        assert(last_record_of(data@, i + 1, ki, i as int));
        assert forall|k: i32, j: int| #[trigger] last_record_of(data@, i + 1, k, j) implies map@[k] == record_value(data@, j) by {
            if k != ki {
                assert(last_record_of(data@, i as int, k, j));
            } else if j != i {
                assert(record_type(data@, i as int) != k);
            }
        }
        assert forall|k: i32| #[trigger] map@.contains_key(k) <==> exists|j: int| #[trigger] last_record_of(data@, i + 1, k, j) by {
            if k != ki {
                if prev.contains_key(k) {
                    let j = choose|j: int| #[trigger] last_record_of(data@, i as int, k, j);
                    assert(last_record_of(data@, i + 1, k, j));
                }
                if exists|j: int| #[trigger] last_record_of(data@, i + 1, k, j) {
                    let j = choose|j: int| #[trigger] last_record_of(data@, i + 1, k, j);
                    assert(last_record_of(data@, i as int, k, j));
                }
            }
        }
        i = i + 1;
    }
    map
}

} // verus!
