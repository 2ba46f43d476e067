//! One axis of a replicate transfer: how the strided source pattern is
//! stamped repeatedly along a destination rectangle.
//!
//! Along one axis the source scan visits `n` wells. In the destination these
//! are `gap` wells apart, so one copy of the pattern (a tile) spans `n * gap`
//! wells, and as many whole tiles are laid down as fit into the `room` that
//! the destination rectangle offers. A `gap` of zero pools the whole pattern
//! onto one well; the tile is then one well wide and every well of the
//! destination axis holds a tile of its own.

use vstd::prelude::*;
use crate::rectangle::lemma_steps_within;

verus! {

/// The magnitude of a stride on the source side, where a stride of zero
/// counts as one.
pub open spec fn source_stride(s: i8) -> int {
    if s == 0 {
        1
    } else if s < 0 {
        -(s as int)
    } else {
        s as int
    }
}

/// The magnitude of a stride on the destination side, where zero means
/// pooling.
pub open spec fn dest_gap(s: i8) -> int {
    if s < 0 {
        -(s as int)
    } else {
        s as int
    }
}

/// How many wells a scan with the given stride visits along an axis of `dim`
/// wells.
pub open spec fn scan_len(dim: int, stride: int) -> int {
    (dim + stride - 1) / stride
}

/// The width of one tile: `n` wells, `gap` apart; one well when pooling.
pub open spec fn tile_span(n: int, gap: int) -> int {
    if gap == 0 {
        1
    } else {
        n * gap
    }
}

/// The number of destination wells, counted from the start of the axis, that
/// `k` tiles reach over: up to the last well that the `k`-th tile writes.
pub open spec fn tile_extent(k: int, n: int, gap: int) -> int {
    (k - 1) * tile_span(n, gap) + (n - 1) * gap + 1
}

/// How many whole tiles fit into `room` wells.
pub open spec fn tile_count(n: int, gap: int, room: int) -> int {
    let first = (n - 1) * gap + 1;
    if room < first {
        0
    } else {
        (room - first) / tile_span(n, gap) + 1
    }
}

/// Whether the destination well at `offset` from the start of the axis
/// receives the source well with scan index `index`: it sits at that index's
/// place within its tile, and its tile is one of those that fit.
pub open spec fn on_replica(offset: int, index: int, n: int, gap: int, room: int) -> bool {
    let span = tile_span(n, gap);
    &&& offset % span == (gap * index) % span
    &&& offset / span < tile_count(n, gap, room)
}

/// `tile_count` is the largest number of tiles whose extent stays within
/// `room`: `k` tiles fit exactly if `k` is at most the count.
pub proof fn lemma_tile_count_fits(n: int, gap: int, room: int, k: int)
    requires
        n >= 1,
        gap >= 0,
        k >= 1,
    ensures
        tile_extent(k, n, gap) <= room <==> k <= tile_count(n, gap, room),
        tile_count(n, gap, room) >= 0,
{
    let span = tile_span(n, gap);
    let first = (n - 1) * gap + 1;
    assert(span >= 1) by (nonlinear_arith)
        requires
            n >= 1,
            gap >= 0,
            span == if gap == 0 {
                1
            } else {
                n * gap
            },
    ;
    assert((k - 1) * span >= 0) by (nonlinear_arith)
        requires
            k >= 1,
            span >= 1,
    ;
    if room >= first {
        lemma_steps_within(room - first, span, k - 1);
        lemma_steps_within(room - first, span, 0);
    }
}

/// With a gap of at least one, `k` tiles reach over `k * n * gap - gap + 1`
/// wells.
pub proof fn lemma_tile_extent_spaced(k: int, n: int, gap: int)
    requires
        gap >= 1,
    ensures
        tile_extent(k, n, gap) == k * n * gap - gap + 1,
{
    assert((k - 1) * (n * gap) + (n - 1) * gap + 1 == k * n * gap - gap + 1) by (nonlinear_arith);
}

/// The copies of the source well with scan index `index` lie one in each
/// tile that fits: `gap * index` wells from the start of the tile, all of
/// them within the room that the destination offers.
pub proof fn lemma_replica_places(offset: int, index: int, n: int, gap: int, room: int)
    requires
        n >= 1,
        gap >= 0,
        0 <= index < n,
        0 <= offset,
    ensures
        on_replica(offset, index, n, gap, room) <==> exists|t: int|
            0 <= t < tile_count(n, gap, room) && offset == #[trigger] (t * tile_span(n, gap)) + gap
                * index,
        on_replica(offset, index, n, gap, room) ==> offset < room,
{
    let span = tile_span(n, gap);
    let count = tile_count(n, gap, room);
    let place = gap * index;
    assert(span >= 1 && 0 <= place < span && place <= (n - 1) * gap) by (nonlinear_arith)
        requires
            n >= 1,
            gap >= 0,
            0 <= index < n,
            place == gap * index,
            span == if gap == 0 {
                1
            } else {
                n * gap
            },
    ;
    vstd::arithmetic::div_mod::lemma_small_mod(place as nat, span as nat);
    vstd::arithmetic::div_mod::lemma_fundamental_div_mod(offset, span);
    let tile = offset / span;
    assert(span * tile == tile * span) by (nonlinear_arith);
    assert(0 <= tile) by (nonlinear_arith)
        requires
            0 <= offset,
            span >= 1,
            offset == span * tile + offset % span,
            0 <= offset % span < span,
    ;
    if on_replica(offset, index, n, gap, room) {
        assert(offset == (tile * span) + gap * index);
        lemma_tile_count_fits(n, gap, room, tile + 1);
    }
    if exists|t: int| 0 <= t < count && offset == #[trigger] (t * span) + gap * index {
        let t = choose|t: int| 0 <= t < count && offset == #[trigger] (t * span) + gap * index;
        assert(t * span == span * t) by (nonlinear_arith);
        vstd::arithmetic::div_mod::lemma_fundamental_div_mod_converse(offset, span, t, place);
    }
}

/// The tiling of one axis for one source well, worked out once so that each
/// destination well can be tested with a division and a comparison.
pub struct AxisTiling {
    /// The width of a tile.
    pub span: u32,
    /// The place of the source well within a tile.
    pub residue: u32,
    /// The number of tiles that fit.
    pub count: u32,
}

impl AxisTiling {
    /// Whether this value holds the tiling for the source well with scan
    /// index `index`.
    pub open spec fn describes(self, index: int, n: int, gap: int, room: int) -> bool {
        &&& self.span == tile_span(n, gap)
        &&& self.residue == (gap * index) % tile_span(n, gap)
        &&& self.count == tile_count(n, gap, room)
    }

    /// Works out the tiling of an axis on which the source region is `dim`
    /// wells long and scanned with `stride`, the destination rectangle is
    /// `room` wells long and written with `gap`, for the source well that
    /// lies `delta` wells from the start of the source region.
    pub fn plan(dim: u16, stride: u8, delta: u8, gap: u8, room: u16) -> (t: AxisTiling)
        requires
            1 <= dim <= 256,
            1 <= stride,
            1 <= room <= 256,
        ensures
            t.describes(
                delta as int / stride as int,
                scan_len(dim as int, stride as int),
                gap as int,
                room as int,
            ),
            t.span >= 1,
    {
        let n: u32 = (dim as u32 + stride as u32 - 1) / stride as u32;
        let index: u32 = delta as u32 / stride as u32;
        let g: u32 = gap as u32;
        assert(1 <= n <= 256 && index <= 255) by (nonlinear_arith)
            requires
                n == (dim + stride - 1) / (stride as int),
                index == delta as int / stride as int,
                1 <= dim <= 256,
                1 <= stride,
                delta <= 255,
        ;
        assert(n * g <= 256 * 255 && (n - 1) * g <= 256 * 255 && g * index <= 255 * 255)
            by (nonlinear_arith)
            requires
                1 <= n <= 256,
                index <= 255,
                g <= 255,
        ;
        let span: u32 = if g == 0 { 1 } else { n * g };
        assert(span >= 1) by (nonlinear_arith)
            requires
                n >= 1,
                span == if g == 0 {
                    1
                } else {
                    n * g
                },
        ;
        let residue: u32 = (g * index) % span;
        let first: u32 = (n - 1) * g + 1;
        let count: u32 = if (room as u32) < first { 0 } else { (room as u32 - first) / span + 1 };
        AxisTiling { span, residue, count }
    }

    /// Whether the destination well at `offset` from the start of the axis
    /// receives the source well.
    pub fn hits(&self, offset: u8) -> (r: bool)
        requires
            self.span >= 1,
        ensures
            r == ((offset as int) % (self.span as int) == self.residue && (offset as int) / (
            self.span as int) < self.count),
    {
        let o: u32 = offset as u32;
        o % self.span == self.residue && o / self.span < self.count
    }
}

} // verus!
