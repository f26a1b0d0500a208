//! The per-cell sprite index: the static sprites grouped by the map cell
//! they stand in, and the gathering of the sprites of the cells a frame's
//! rays passed through.
use vstd::prelude::*;
use std::collections::{HashMap, HashSet};
use crate::store::{lemma_pair_key_injective, pair_key, pair_key_of};

verus! {

broadcast use vstd::std_specs::hash::group_hash_axioms;

/// A static sprite: Q20 world position, angle bias in degrees, height in
/// percent of a wall, and texture type code.
#[derive(Clone, Copy, Debug, PartialEq, Eq, Structural)]
pub struct SpriteRecord {
    pub x: i32,
    pub y: i32,
    pub angle: i32,
    pub height: i32,
    pub kind: i32,
}

/// The cell a sprite stands in.
pub open spec fn record_cell(r: SpriteRecord) -> (int, int) {
    (r.x as int / 1048576, r.y as int / 1048576)
}

/// The sprites among the first `n` records that stand in cell `(cx, cy)`, in order.
pub open spec fn cell_list(records: Seq<SpriteRecord>, n: int, cx: int, cy: int) -> Seq<SpriteRecord>
    decreases n,
{
    if n <= 0 {
        Seq::empty()
    } else if record_cell(records[n - 1]) == (cx, cy) {
        cell_list(records, n - 1, cx, cy).push(records[n - 1])
    } else {
        cell_list(records, n - 1, cx, cy)
    }
}

/// The distinct cells the first `n` records stand in.
pub open spec fn record_cells(records: Seq<SpriteRecord>, n: int) -> Set<(int, int)>
    decreases n,
{
    if n <= 0 {
        Set::empty()
    } else {
        record_cells(records, n - 1).insert(record_cell(records[n - 1]))
    }
}

/// A cell has sprites among the first `n` records exactly when it is one of
/// their cells; the set of those cells is finite.
pub proof fn lemma_record_cells(records: Seq<SpriteRecord>, n: int, cx: int, cy: int)
    ensures
        record_cells(records, n).finite(),
        cell_list(records, n, cx, cy).len() > 0 <==> record_cells(records, n).contains((cx, cy)),
    decreases n,
{
    if n > 0 {
        lemma_record_cells(records, n - 1, cx, cy);
    }
}

/// A list, or `None` when it is empty.
pub open spec fn non_empty(s: Seq<SpriteRecord>) -> Option<Seq<SpriteRecord>> {
    if s.len() > 0 { Some(s) } else { None }
}

/// What a key-to-list map holds for cell `(cx, cy)`.
pub open spec fn lookup(m: Map<u64, Vec<SpriteRecord>>, cx: i32, cy: i32) -> Option<Seq<SpriteRecord>> {
    if m.contains_key(pair_key(cx, cy)) { Some(m[pair_key(cx, cy)]@) } else { None }
}

/// Static sprites by cell.
pub struct WasmStripePerCoordMap {
    map: HashMap<u64, Vec<SpriteRecord>>,
}

impl WasmStripePerCoordMap {
    /// The sprites of cell `(cx, cy)`, if it has any.
    pub closed spec fn sprites_in(&self, cx: i32, cy: i32) -> Option<Seq<SpriteRecord>> {
        lookup(self.map@, cx, cy)
    }

    /// Number of cells that hold sprites.
    pub closed spec fn cell_count(&self) -> nat {
        self.map@.len()
    }

    /// An empty index.
    pub fn new() -> (r: Self)
        ensures
            forall|cx: i32, cy: i32| r.sprites_in(cx, cy).is_none(),
            r.cell_count() == 0,
    {
        WasmStripePerCoordMap { map: HashMap::new() }
    }

    /// Replaces the index with `records` grouped by cell, each cell's list
    /// in the order of `records`.
    pub fn populate_from_array(&mut self, records: &[SpriteRecord])
        ensures
            forall|cx: i32, cy: i32| #[trigger] final(self).sprites_in(cx, cy)
                == non_empty(cell_list(records@, records@.len() as int, cx as int, cy as int)),
            final(self).cell_count() == record_cells(records@, records@.len() as int).len(),
    {
        let mut map: HashMap<u64, Vec<SpriteRecord>> = HashMap::new();
        let mut i: usize = 0;
        while i < records.len()
            invariant
                i <= records@.len(),
                forall|cx: i32, cy: i32| #[trigger] lookup(map@, cx, cy) == non_empty(cell_list(records@, i as int, cx as int, cy as int)),
                map@.dom().finite(),
                map@.len() == record_cells(records@, i as int).len(),
            decreases records@.len() - i,
        {
            let r = records[i];
            let (rx, ry) = (r.x, r.y);
            let cx: i32 = rx >> 20u32;
            let cy: i32 = ry >> 20u32;
            assert(cx == rx as int / 1048576 && cy == ry as int / 1048576) by {
                assert(rx >> 20u32 == rx / 1048576) by (bit_vector);
                assert(ry >> 20u32 == ry / 1048576) by (bit_vector);
            }
            let key = pair_key_of(cx, cy);
            let ghost prev = map@;
            let mut list: Vec<SpriteRecord> = match map.remove(&key) {
                Some(v) => v,
                None => Vec::new(),
            };
            list.push(r);
            map.insert(key, list);
            proof {
                lemma_record_cells(records@, i as int, cx as int, cy as int);
                assert(lookup(prev, cx, cy) == non_empty(cell_list(records@, i as int, cx as int, cy as int)));
                assert(map@.dom() =~= prev.dom().insert(key));
                assert(record_cells(records@, i + 1) == record_cells(records@, i as int).insert((cx as int, cy as int)));
                if prev.dom().contains(key) {
                    assert(prev.dom().insert(key) =~= prev.dom());
                    assert(record_cells(records@, i as int).insert((cx as int, cy as int)) =~= record_cells(records@, i as int));
                }
            }
            assert forall|x: i32, y: i32| #[trigger] lookup(map@, x, y) == non_empty(cell_list(records@, i + 1, x as int, y as int)) by {
                lemma_pair_key_injective(x, y, cx, cy);
                if x == cx && y == cy {
                    assert(lookup(prev, x, y) == non_empty(cell_list(records@, i as int, x as int, y as int)));
                    assert(lookup(map@, x, y).unwrap() =~= cell_list(records@, i + 1, x as int, y as int));
                } else {
                    assert(lookup(prev, x, y) == non_empty(cell_list(records@, i as int, x as int, y as int)));
                }
            }
            i = i + 1;
        }
        self.map = map;
    }

    /// Number of cells that hold sprites.
    pub fn count_cells(&self) -> (r: usize)
        ensures
            r == self.cell_count(),
    {
        self.map.len()
    }

    /// The sprites of cell `(cx, cy)`, if it has any.
    pub fn get(&self, cx: i32, cy: i32) -> (r: Option<&Vec<SpriteRecord>>)
        ensures
            match r {
                Some(v) => self.sprites_in(cx, cy) == Some(v@),
                None => self.sprites_in(cx, cy).is_none(),
            },
    {
        self.map.get(&pair_key_of(cx, cy))
    }

    /// The sprites of the first `n` met cells, each distinct cell once, in
    /// the order the cells were first met.
    pub open spec fn gathered(&self, met: Seq<(i32, i32)>, n: int) -> Seq<SpriteRecord>
        decreases n,
    {
        if n <= 0 {
            Seq::empty()
        } else {
            let prev = self.gathered(met, n - 1);
            let c = met[n - 1];
            if first_meeting(met, n - 1) && self.sprites_in(c.0, c.1).is_some() {
                prev + self.sprites_in(c.0, c.1).unwrap()
            } else {
                prev
            }
        }
    }

    /// Collects the sprites standing in the cells `met` (as the rays met
    /// them, with repeats): each cell's sprites once, cells in first-met order.
    pub fn gather(&self, met: &[(i32, i32)]) -> (r: Vec<SpriteRecord>)
        ensures
            r@ == self.gathered(met@, met@.len() as int),
    {
        let mut seen: HashSet<u64> = HashSet::new();
        let mut out: Vec<SpriteRecord> = Vec::new();
        let mut i: usize = 0;
        while i < met.len()
            invariant
                i <= met@.len(),
                out@ == self.gathered(met@, i as int),
                forall|k: u64| #[trigger] seen@.contains(k) <==> exists|j: int| 0 <= j < i && #[trigger] pair_key(met@[j].0, met@[j].1) == k,
            decreases met@.len() - i,
        {
            let (cx, cy) = met[i];
            let key = pair_key_of(cx, cy);
            let was_seen = seen.contains(&key);
            proof {
                if was_seen {
                    let j = choose|j: int| 0 <= j < i && #[trigger] pair_key(met@[j].0, met@[j].1) == key;
                    lemma_pair_key_injective(met@[j].0, met@[j].1, cx, cy);
                    assert(!first_meeting(met@, i as int));
                } else {
                    assert forall|j: int| 0 <= j < i implies met@[j] != met@[i as int] by {
                        if met@[j] == met@[i as int] {
                            assert(pair_key(met@[j].0, met@[j].1) == key);
                        }
                    }
                    assert(first_meeting(met@, i as int));
                }
            }
            if !was_seen {
                seen.insert(key);
                match self.map.get(&key) {
                    Some(list) => {
                        let mut k: usize = 0;
                        let ghost base = out@;
                        while k < list.len()
                            invariant
                                k <= list@.len(),
                                out@ == base + list@.subrange(0, k as int),
                            decreases list@.len() - k,
                        {
                            out.push(list[k]);
                            k = k + 1;
                            assert(out@ =~= base + list@.subrange(0, k as int));
                        }
                        assert(list@.subrange(0, list@.len() as int) =~= list@);
                    },
                    None => {},
                }
            }
            assert forall|k: u64| #[trigger] seen@.contains(k) <==> exists|j: int| 0 <= j < i + 1 && #[trigger] pair_key(met@[j].0, met@[j].1) == k by {
                if seen@.contains(k) && k != key {
                    let j = choose|j: int| 0 <= j < i && #[trigger] pair_key(met@[j].0, met@[j].1) == k;
                    assert(0 <= j < i + 1);
                }
                if k == key {
                    assert(pair_key(met@[i as int].0, met@[i as int].1) == k);
                }
            }
            i = i + 1;
        }
        out
    }
}

/// Cell `met[i]` was not met before position `i`.
pub open spec fn first_meeting(met: Seq<(i32, i32)>, i: int) -> bool {
    forall|j: int| 0 <= j < i ==> met[j] != met[i]
}

} // verus!
