//! A uniform grid that files world-space shapes by the cell their position
//! falls into, for the broad phase of the collision pass.

use super::AbsoluteCollider;
use crate::fx::{map_get, map_insert, map_remove};
use crate::vector::{div_floor, Vec3i};
use crate::Entity;
use fxhash::FxHashMap;
use vstd::prelude::*;

verus! {

/// One filed shape: whose it is, where it is filed, and the shape itself.
#[derive(Clone, Copy, Debug, PartialEq, Eq, Structural)]
pub struct SpatialData {
    pub entity: Entity,
    pub position: Vec3i,
    pub collider: AbsoluteCollider,
}

/// The grid. Its view is the sequence of everything inserted since it was
/// made or last cleared, in the order of insertion.
pub struct SpatialHash {
    cell_size: u32,
    objects: FxHashMap<u64, Vec<SpatialData>>,
    entries: Ghost<Seq<SpatialData>>,
}

/// The index of the cell that holds coordinate `v`: `v / cell_size`, rounded
/// down.
pub open spec fn cell_index(cell_size: u32, v: i32) -> int {
    v as int / cell_size as int
}

/// Whether `data` is filed in the cell with indices `(cx, cy)`.
pub open spec fn in_cell(cell_size: u32, data: SpatialData, cx: int, cy: int) -> bool {
    cell_index(cell_size, data.position.x) == cx && cell_index(cell_size, data.position.y) == cy
}

/// The entries of cell `(cx, cy)`, in the order of insertion.
pub open spec fn bucket(entries: Seq<SpatialData>, cell_size: u32, cx: int, cy: int) -> Seq<
    SpatialData,
> {
    entries.filter(|d: SpatialData| in_cell(cell_size, d, cx, cy))
}

/// The entries of the three cells in column `cx` around row `cy`.
pub open spec fn column(entries: Seq<SpatialData>, cell_size: u32, cx: int, cy: int) -> Seq<
    SpatialData,
> {
    bucket(entries, cell_size, cx, cy - 1) + bucket(entries, cell_size, cx, cy) + bucket(
        entries,
        cell_size,
        cx,
        cy + 1,
    )
}

/// The entries of the block of three by three cells around the cell of
/// `position`, column by column.
pub open spec fn neighborhood(entries: Seq<SpatialData>, cell_size: u32, position: Vec3i) -> Seq<
    SpatialData,
> {
    let cx = cell_index(cell_size, position.x);
    let cy = cell_index(cell_size, position.y);
    column(entries, cell_size, cx - 1, cy) + column(entries, cell_size, cx, cy) + column(
        entries,
        cell_size,
        cx + 1,
        cy,
    )
}

/// Whether `(cx, cy)` are the indices of a cell that a position can fall
/// into.
pub open spec fn cell_in_range(cx: int, cy: int) -> bool {
    i32::MIN <= cx <= i32::MAX && i32::MIN <= cy <= i32::MAX
}

/// The key under which the cell `(cx, cy)` is stored.
pub open spec fn cell_key(cx: int, cy: int) -> int {
    (cx + 0x8000_0000) * 0x1_0000_0000 + (cy + 0x8000_0000)
}

/// A cell index is never further from zero than the coordinate.
pub proof fn lemma_cell_index_in_range(cell_size: u32, v: i32)
    requires
        cell_size > 0,
    ensures
        i32::MIN <= cell_index(cell_size, v) <= i32::MAX,
        cell_index(cell_size, v) * cell_size <= v < (cell_index(cell_size, v) + 1) * cell_size,
{
    let c = cell_size as int;
    let q = v as int / c;
    vstd::arithmetic::div_mod::lemma_fundamental_div_mod(v as int, c);
    vstd::arithmetic::div_mod::lemma_mod_bound(v as int, c);
    assert(q * c <= v < (q + 1) * c) by (nonlinear_arith)
        requires
            v == c * q + (v as int % c),
            0 <= (v as int % c) < c,
    ;
    assert(i32::MIN <= q <= i32::MAX) by (nonlinear_arith)
        requires
            q * c <= v < (q + 1) * c,
            c >= 1,
            i32::MIN <= v <= i32::MAX,
    ;
}

/// Nothing is filed in a cell whose indices are out of range.
proof fn lemma_bucket_out_of_range(entries: Seq<SpatialData>, cell_size: u32, cx: int, cy: int)
    requires
        cell_size > 0,
        !cell_in_range(cx, cy),
    ensures
        bucket(entries, cell_size, cx, cy) == Seq::<SpatialData>::empty(),
    decreases entries.len(),
{
    reveal(Seq::filter);
    if entries.len() > 0 {
        lemma_bucket_out_of_range(entries.drop_last(), cell_size, cx, cy);
        lemma_cell_index_in_range(cell_size, entries.last().position.x);
        lemma_cell_index_in_range(cell_size, entries.last().position.y);
    }
}

/// What pushing one more entry does to each bucket.
proof fn lemma_bucket_push(
    entries: Seq<SpatialData>,
    cell_size: u32,
    data: SpatialData,
    cx: int,
    cy: int,
)
    ensures
        bucket(entries.push(data), cell_size, cx, cy) == (if in_cell(cell_size, data, cx, cy) {
            bucket(entries, cell_size, cx, cy).push(data)
        } else {
            bucket(entries, cell_size, cx, cy)
        }),
{
    reveal(Seq::filter);
    assert(entries.push(data).drop_last() =~= entries);
}

/// Two coordinates less than a cell apart fall into the same cell or into
/// two cells side by side.
pub proof fn lemma_close_cells(cell_size: u32, p: i32, q: i32)
    requires
        cell_size > 0,
        -cell_size < p - q < cell_size,
    ensures
        -1 <= cell_index(cell_size, p) - cell_index(cell_size, q) <= 1,
{
    lemma_cell_index_in_range(cell_size, p);
    lemma_cell_index_in_range(cell_size, q);
    let c = cell_size as int;
    let a = cell_index(cell_size, p);
    let b = cell_index(cell_size, q);
    assert(-1 <= a - b <= 1) by (nonlinear_arith)
        requires
            c > 0,
            a * c <= p < (a + 1) * c,
            b * c <= q < (b + 1) * c,
            -c < p - q < c,
    ;
}

/// An entry is found in the bucket of its own cell.
pub proof fn lemma_bucket_holds(entries: Seq<SpatialData>, cell_size: u32, data: SpatialData)
    requires
        entries.contains(data),
    ensures
        bucket(
            entries,
            cell_size,
            cell_index(cell_size, data.position.x),
            cell_index(cell_size, data.position.y),
        ).contains(data),
{
    let cx = cell_index(cell_size, data.position.x);
    let cy = cell_index(cell_size, data.position.y);
    let i = choose|i: int| 0 <= i < entries.len() && entries[i] == data;
    entries.lemma_filter_contains(|d: SpatialData| in_cell(cell_size, d, cx, cy), i);
}

/// The grid misses nothing nearby: an inserted entry whose position is less
/// than one cell away from the queried position on both axes is among the
/// entries that the query returns.
pub proof fn lemma_nearby_complete(
    entries: Seq<SpatialData>,
    cell_size: u32,
    data: SpatialData,
    query: Vec3i,
)
    requires
        cell_size > 0,
        entries.contains(data),
        -cell_size < data.position.x - query.x < cell_size,
        -cell_size < data.position.y - query.y < cell_size,
    ensures
        neighborhood(entries, cell_size, query).contains(data),
{
    lemma_close_cells(cell_size, data.position.x, query.x);
    lemma_close_cells(cell_size, data.position.y, query.y);
    lemma_bucket_holds(entries, cell_size, data);
    let cx = cell_index(cell_size, query.x);
    let cy = cell_index(cell_size, query.y);
    let dx = cell_index(cell_size, data.position.x);
    let dy = cell_index(cell_size, data.position.y);
    let home = bucket(entries, cell_size, dx, dy);
    let i = choose|i: int| 0 <= i < home.len() && home[i] == data;
    let col = column(entries, cell_size, dx, cy);
    let below = bucket(entries, cell_size, dx, cy - 1);
    let level = bucket(entries, cell_size, dx, cy);
    let j = if dy == cy - 1 {
        i
    } else if dy == cy {
        below.len() + i
    } else {
        below.len() + level.len() + i
    };
    assert(col[j] == data);
    let left = column(entries, cell_size, cx - 1, cy);
    let mid = column(entries, cell_size, cx, cy);
    let all = neighborhood(entries, cell_size, query);
    let k = if dx == cx - 1 {
        j
    } else if dx == cx {
        left.len() + j
    } else {
        left.len() + mid.len() + j
    };
    assert(all[k] == data);
}

/// The grid returns nothing from far away: every entry that a query returns
/// is filed in the cell of the queried position or in one next to it.
pub proof fn lemma_nearby_sound(
    entries: Seq<SpatialData>,
    cell_size: u32,
    query: Vec3i,
    data: SpatialData,
)
    requires
        neighborhood(entries, cell_size, query).contains(data),
    ensures
        entries.contains(data),
        -1 <= cell_index(cell_size, data.position.x) - cell_index(cell_size, query.x) <= 1,
        -1 <= cell_index(cell_size, data.position.y) - cell_index(cell_size, query.y) <= 1,
{
    let cx = cell_index(cell_size, query.x);
    let cy = cell_index(cell_size, query.y);
    assert forall|x: int, y: int| #[trigger]
        bucket(entries, cell_size, x, y).contains(data) implies entries.contains(data) && in_cell(
        cell_size,
        data,
        x,
        y,
    ) by {
        let pred = |d: SpatialData| in_cell(cell_size, d, x, y);
        let b = bucket(entries, cell_size, x, y);
        let i = choose|i: int| 0 <= i < b.len() && b[i] == data;
        entries.lemma_filter_pred(pred, i);
        entries.lemma_filter_contains_rev(pred, data);
    }
    assert forall|x: int| #[trigger]
        column(entries, cell_size, x, cy).contains(data) implies bucket(
        entries,
        cell_size,
        x,
        cy - 1,
    ).contains(data) || bucket(entries, cell_size, x, cy).contains(data) || bucket(
        entries,
        cell_size,
        x,
        cy + 1,
    ).contains(data) by {
        let col = column(entries, cell_size, x, cy);
        let below = bucket(entries, cell_size, x, cy - 1);
        let level = bucket(entries, cell_size, x, cy);
        let above = bucket(entries, cell_size, x, cy + 1);
        let i = choose|i: int| 0 <= i < col.len() && col[i] == data;
        if i < below.len() {
            assert(below[i] == data);
            assert(below.contains(data));
        } else if i < below.len() + level.len() {
            assert(level[i - below.len()] == data);
            assert(level.contains(data));
        } else {
            assert(above[i - below.len() - level.len()] == data);
            assert(above.contains(data));
        }
    }
    let all = neighborhood(entries, cell_size, query);
    let left = column(entries, cell_size, cx - 1, cy);
    let mid = column(entries, cell_size, cx, cy);
    let right = column(entries, cell_size, cx + 1, cy);
    let i = choose|i: int| 0 <= i < all.len() && all[i] == data;
    if i < left.len() {
        assert(left[i] == data);
        assert(left.contains(data));
    } else if i < left.len() + mid.len() {
        assert(mid[i - left.len()] == data);
        assert(mid.contains(data));
    } else {
        assert(right[i - left.len() - mid.len()] == data);
        assert(right.contains(data));
    }
}

impl View for SpatialHash {
    type V = Seq<SpatialData>;

    closed spec fn view(&self) -> Seq<SpatialData> {
        self.entries@
    }
}

impl SpatialHash {
    /// What is stored for the cell `(cx, cy)`.
    closed spec fn stored(&self, cx: int, cy: int) -> Seq<SpatialData> {
        let key = cell_key(cx, cy) as u64;
        if self.objects@.contains_key(key) {
            self.objects@[key]@
        } else {
            Seq::empty()
        }
    }

    /// The stored buckets are the inserted entries, sorted by cell.
    pub closed spec fn wf(&self) -> bool {
        &&& self.cell_size > 0
        &&& forall|cx: int, cy: int|
            cell_in_range(cx, cy) ==> #[trigger] self.stored(cx, cy) == bucket(
                self.entries@,
                self.cell_size,
                cx,
                cy,
            )
    }

    pub closed spec fn cell_size_spec(&self) -> u32 {
        self.cell_size
    }

    /// The edge length of a cell.
    #[verifier::when_used_as_spec(cell_size_spec)]
    pub fn cell_size(&self) -> (c: u32)
        ensures
            c == self.cell_size_spec(),
    {
        self.cell_size
    }

    /// An empty grid with cells of the given edge length.
    pub fn new(cell_size: u32) -> (grid: SpatialHash)
        requires
            cell_size > 0,
        ensures
            grid.wf(),
            grid.cell_size() == cell_size,
            grid@ == Seq::<SpatialData>::empty(),
    {
        let grid = SpatialHash {
            cell_size,
            objects: FxHashMap::default(),
            entries: Ghost(Seq::empty()),
        };
        proof {
            reveal(Seq::filter);
        }
        grid
    }

    /// The indices of the cell that `position` falls into.
    fn hash(&self, position: &Vec3i) -> (cell: (i32, i32))
        requires
            self.cell_size > 0,
        ensures
            cell.0 == cell_index(self.cell_size, position.x),
            cell.1 == cell_index(self.cell_size, position.y),
    {
        proof {
            lemma_cell_index_in_range(self.cell_size, position.x);
            lemma_cell_index_in_range(self.cell_size, position.y);
        }
        (
            div_floor(position.x as i128, self.cell_size as i128) as i32,
            div_floor(position.y as i128, self.cell_size as i128) as i32,
        )
    }

    /// Files `data` in the cell of its position.
    pub fn insert(&mut self, data: SpatialData)
        requires
            old(self).wf(),
        ensures
            final(self).wf(),
            final(self).cell_size() == old(self).cell_size(),
            final(self)@ == old(self)@.push(data),
    {
        let cell = self.hash(&data.position);
        let key = pack(cell.0 as i64, cell.1 as i64);
        let mut items = match map_remove(&mut self.objects, key) {
            Some(items) => items,
            None => Vec::new(),
        };
        items.push(data);
        map_insert(&mut self.objects, key, items);
        self.entries = Ghost(self.entries@.push(data));
        proof {
            assert forall|cx: int, cy: int| cell_in_range(cx, cy) implies #[trigger] self.stored(
                cx,
                cy,
            ) == bucket(self.entries@, self.cell_size, cx, cy) by {
                lemma_bucket_push(old(self).entries@, self.cell_size, data, cx, cy);
                lemma_key_injective(cx, cy, cell.0 as int, cell.1 as int);
                assert(old(self).stored(cx, cy) == bucket(
                    old(self).entries@,
                    self.cell_size,
                    cx,
                    cy,
                ));
            }
        }
    }

    /// Empties the grid.
    pub fn clear(&mut self)
        requires
            old(self).wf(),
        ensures
            final(self).wf(),
            final(self).cell_size() == old(self).cell_size(),
            final(self)@ == Seq::<SpatialData>::empty(),
    {
        self.objects.clear();
        self.entries = Ghost(Seq::empty());
        proof {
            reveal(Seq::filter);
        }
    }

    /// Appends the entries of cell `(cx, cy)` to `out`.
    fn collect(&self, cx: i64, cy: i64, out: &mut Vec<SpatialData>)
        requires
            self.wf(),
        ensures
            final(out)@ == old(out)@ + bucket(self@, self.cell_size(), cx as int, cy as int),
    {
        if cx < -0x8000_0000 || cx > 0x7fff_ffff || cy < -0x8000_0000 || cy > 0x7fff_ffff {
            proof {
                lemma_bucket_out_of_range(self.entries@, self.cell_size, cx as int, cy as int);
            }
            return ;
        }
        let key = pack(cx, cy);
        assert(self.stored(cx as int, cy as int) == bucket(
            self.entries@,
            self.cell_size,
            cx as int,
            cy as int,
        ));
        match map_get(&self.objects, key) {
            Some(items) => {
                let mut i: usize = 0;
                while i < items.len()
                    invariant
                        i <= items.len(),
                        out@ == old(out)@ + items@.subrange(0, i as int),
                    decreases items.len() - i,
                {
                    out.push(items[i]);
                    i += 1;
                    assert(items@.subrange(0, i as int) =~= items@.subrange(0, i - 1).push(
                        items@[i - 1],
                    ));
                    assert(out@ =~= old(out)@ + items@.subrange(0, i as int));
                }
                assert(items@.subrange(0, items.len() as int) =~= items@);
            },
            None => {
                assert(out@ =~= old(out)@ + Seq::<SpatialData>::empty());
            },
        }
    }

    /// Appends the entries of the three cells in column `cx` around row `cy`
    /// to `out`.
    fn collect_column(&self, cx: i64, cy: i64, out: &mut Vec<SpatialData>)
        requires
            self.wf(),
            i32::MIN <= cy <= i32::MAX,
        ensures
            final(out)@ == old(out)@ + column(self@, self.cell_size(), cx as int, cy as int),
    {
        self.collect(cx, cy - 1, out);
        self.collect(cx, cy, out);
        self.collect(cx, cy + 1, out);
        assert(out@ =~= old(out)@ + column(self@, self.cell_size(), cx as int, cy as int));
    }

    /// Everything filed in the block of three by three cells around the cell
    /// of `position`.
    pub fn nearby_objects(&self, position: &Vec3i) -> (found: Vec<SpatialData>)
        requires
            self.wf(),
        ensures
            found@ == neighborhood(self@, self.cell_size(), *position),
    {
        let cell = self.hash(position);
        let cx: i64 = cell.0 as i64;
        let cy: i64 = cell.1 as i64;
        let mut found: Vec<SpatialData> = Vec::new();
        self.collect_column(cx - 1, cy, &mut found);
        self.collect_column(cx, cy, &mut found);
        self.collect_column(cx + 1, cy, &mut found);
        assert(found@ =~= neighborhood(self@, self.cell_size(), *position));
        found
    }
}

/// The key of a cell whose indices are in range.
fn pack(cx: i64, cy: i64) -> (key: u64)
    requires
        cell_in_range(cx as int, cy as int),
    ensures
        key == cell_key(cx as int, cy as int),
{
    ((cx + 0x8000_0000) as u64) * 0x1_0000_0000 + ((cy + 0x8000_0000) as u64)
}

/// Two cells in range share a key only if they are the same cell.
proof fn lemma_key_injective(ax: int, ay: int, bx: int, by: int)
    requires
        cell_in_range(ax, ay),
        cell_in_range(bx, by),
    ensures
        0 <= cell_key(ax, ay) <= u64::MAX,
        cell_key(ax, ay) == cell_key(bx, by) <==> (ax == bx && ay == by),
{
}

} // verus!
