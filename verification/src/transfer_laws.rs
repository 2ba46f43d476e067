//! What holds of every transfer: of its scan, of the wells it feeds, and
//! of the ways to name its rectangles.

use vstd::prelude::*;
use crate::rectangle::bottom_right;
use crate::rectangle::dense_wells;
use crate::rectangle::upper_left;
use crate::rectangle::within;
use crate::tiling::dest_gap;
use crate::transfer_region::destinations_of;
use crate::transfer_region::sources_of;
use crate::transfer_region::RegionModel;
use crate::transfer_region::TransferModel;

verus! {

impl TransferModel {
    /// No well of the source scan lies before the origin of the scan.
    pub proof fn lemma_source_wells_from_origin(&self, well: (u8, u8))
        requires
            self.source_wells().contains(well),
        ensures
            self.source_origin().0 <= well.0,
            self.source_origin().1 <= well.1,
    {
        match self.source_region {
            RegionModel::Rect(c1, c2) => {
                crate::rectangle::lemma_strided_wells_contains(
                    upper_left(c1, c2),
                    bottom_right(c1, c2),
                    self.source_steps(),
                    well,
                );
            },
            RegionModel::Point(p) => {
                assert(seq![p][0] == p);
            },
            RegionModel::Custom(_, _) => {},
        }
    }

    /// A rectangular source with a coordinate of zero, or with a corner
    /// beyond the last row or column of the source plate, is refused as out
    /// of bounds; the mapping then answers `None` for every well, and the
    /// transfer feeds no destination well.
    pub proof fn lemma_out_of_bounds_maps_nothing(&self, well: (u8, u8))
        requires
            self.source_region matches RegionModel::Rect(s1, s2) && ({
                let max = self.source_plate.plate_format.dims();
                ||| s1.0 == 0 || s1.1 == 0 || s2.0 == 0 || s2.1 == 0
                ||| s1.0 > max.0 || s2.0 > max.0
                ||| s1.1 > max.1 || s2.1 > max.1
            }),
        ensures
            self.fault() matches Some(f) && f.out_of_bounds(),
            self.image(well) is None,
            self.destination_wells() == Seq::<(u8, u8)>::empty(),
    {
        self.lemma_refused_maps_nothing(well);
    }

    /// A refused region maps no well and feeds no destination well.
    pub proof fn lemma_refused_maps_nothing(&self, well: (u8, u8))
        requires
            self.fault() is Some,
        ensures
            self.image(well) is None,
            self.destination_wells() == Seq::<(u8, u8)>::empty(),
    {
        let fed = self.source_wells().map_values(|w: (u8, u8)| self.fed_by(w));
        assert forall|i: int| 0 <= i < fed.len() implies (#[trigger] fed[i]).len() == 0 by {
            assert(self.image(self.source_wells()[i]) is None);
        }
        lemma_flatten_nothing(fed);
    }

    /// The pairs of some source wells, read for their second wells, are the
    /// wells that these source wells feed.
    pub proof fn lemma_pairs_of_some_wells(&self, wells: Seq<(u8, u8)>)
        ensures
            destinations_of(wells.map_values(|well: (u8, u8)| self.pairs_of(well)).flatten())
                == wells.map_values(|well: (u8, u8)| self.fed_by(well)).flatten(),
            sources_of(
                wells.map_values(|well: (u8, u8)| self.pairs_of(well)).flatten(),
            ).to_set().subset_of(wells.to_set()),
        decreases wells.len(),
    {
        let paired = |well: (u8, u8)| self.pairs_of(well);
        let fed = |well: (u8, u8)| self.fed_by(well);
        if wells.len() == 0 {
            assert(wells.map_values(paired) =~= Seq::<Seq<((u8, u8), (u8, u8))>>::empty());
            assert(wells.map_values(fed) =~= Seq::<Seq<(u8, u8)>>::empty());
            assert(destinations_of(Seq::<((u8, u8), (u8, u8))>::empty()) =~= Seq::<
                (u8, u8),
            >::empty());
            assert(sources_of(Seq::<((u8, u8), (u8, u8))>::empty()).to_set() =~= Set::<
                (u8, u8),
            >::empty());
        } else {
            let head = wells.drop_last();
            let last = wells.last();
            self.lemma_pairs_of_some_wells(head);
            assert(wells.map_values(paired) =~= head.map_values(paired).push(paired(last)));
            assert(wells.map_values(fed) =~= head.map_values(fed).push(fed(last)));
            head.map_values(paired).lemma_flatten_push(paired(last));
            head.map_values(fed).lemma_flatten_push(fed(last));
            let before = head.map_values(paired).flatten();
            assert(destinations_of(before + paired(last)) =~= destinations_of(before)
                + destinations_of(paired(last)));
            assert(destinations_of(paired(last)) =~= fed(last));
            let all = sources_of(before + paired(last));
            assert forall|w: (u8, u8)| all.to_set().contains(w) implies wells.to_set().contains(
                w,
            ) by {
                let i = choose|i: int| 0 <= i < all.len() && all[i] == w;
                if i < before.len() {
                    assert(sources_of(before)[i] == w);
                    assert(sources_of(before).to_set().contains(w));
                    assert(head.to_set().contains(w));
                    let j = choose|j: int| 0 <= j < head.len() && head[j] == w;
                    assert(wells[j] == w);
                } else {
                    assert(paired(last)[i - before.len()].0 == last);
                    assert(wells[wells.len() - 1] == w);
                }
            }
        }
    }

    /// The pairs of a transfer, read for their second wells, are its
    /// destination wells, and the first well of every pair is a source
    /// well.
    pub proof fn lemma_pairs_name_the_fed_wells(&self)
        ensures
            destinations_of(self.pairs()) == self.destination_wells(),
            forall|i: int|
                0 <= i < self.pairs().len() ==> self.source_wells().contains(
                    (#[trigger] self.pairs()[i]).0,
                ),
    {
        self.lemma_pairs_of_some_wells(self.source_wells());
        assert forall|i: int| 0 <= i < self.pairs().len() implies self.source_wells().contains(
            (#[trigger] self.pairs()[i]).0,
        ) by {
            let firsts = sources_of(self.pairs());
            assert(firsts[i] == self.pairs()[i].0);
            assert(firsts.to_set().contains(firsts[i]));
            assert(self.source_wells().to_set().contains(firsts[i]));
        }
    }

    /// A replicate transfer feeds wells of its destination rectangle only,
    /// and each of them receives a copy of the well that feeds it.
    pub proof fn lemma_replicas_stay_in_rectangle(&self, well: (u8, u8), target: (u8, u8))
        requires
            self.dest_region is Rect,
            self.fed_by(well).contains(target),
        ensures
            within(self.dest_region->Rect_0, self.dest_region->Rect_1, target),
            self.replica(self.dest_region->Rect_0, self.dest_region->Rect_1, well, target),
            self.source_wells().contains(well),
    {
        let d1 = self.dest_region->Rect_0;
        let d2 = self.dest_region->Rect_1;
        let chosen = |t: (u8, u8)| self.replica(d1, d2, well, t);
        let dense = dense_wells(d1, d2);
        dense.lemma_filter_contains_rev(chosen, target);
        crate::rectangle::lemma_strided_wells_contains(
            upper_left(d1, d2),
            bottom_right(d1, d2),
            (1, 1),
            target,
        );
        let picked = dense.filter(chosen);
        let i = choose|i: int| 0 <= i < picked.len() && picked[i] == target;
        dense.lemma_filter_pred(chosen, i);
    }

    /// A well of a rectangular source scan lies a whole number of strides
    /// from the origin: it is the origin moved by its scan index.
    pub proof fn lemma_scan_index_places(&self, well: (u8, u8))
        requires
            self.source_region is Rect,
            self.source_wells().contains(well),
        ensures
            well.0 == self.source_origin().0 + self.scan_index(well).0 * self.source_steps().0,
            well.1 == self.source_origin().1 + self.scan_index(well).1 * self.source_steps().1,
            0 <= self.scan_index(well).0,
            0 <= self.scan_index(well).1,
    {
        let c1 = self.source_region->Rect_0;
        let c2 = self.source_region->Rect_1;
        let steps = self.source_steps();
        let origin = self.source_origin();
        crate::rectangle::lemma_strided_wells_contains(
            upper_left(c1, c2),
            bottom_right(c1, c2),
            steps,
            well,
        );
        vstd::arithmetic::div_mod::lemma_fundamental_div_mod(well.0 - origin.0, steps.0);
        vstd::arithmetic::div_mod::lemma_fundamental_div_mod(well.1 - origin.1, steps.1);
        let i0 = self.scan_index(well).0;
        let i1 = self.scan_index(well).1;
        assert(steps.0 * i0 == i0 * steps.0) by (nonlinear_arith);
        assert(steps.1 * i1 == i1 * steps.1) by (nonlinear_arith);
        assert(0 <= i0) by (nonlinear_arith)
            requires
                0 <= steps.0 * i0,
                0 < steps.0,
        ;
        assert(0 <= i1) by (nonlinear_arith)
            requires
                0 <= steps.1 * i1,
                0 < steps.1,
        ;
    }

    /// A shift transfer from a rectangle that pools along neither axis
    /// feeds no well twice: two source wells that feed the same well are
    /// one.
    pub proof fn lemma_shift_without_pooling_is_injective(&self, first: (u8, u8), second: (u8, u8))
        requires
            self.source_region is Rect,
            self.dest_region is Point,
            self.interleave_dest.0 != 0,
            self.interleave_dest.1 != 0,
            self.image(first) is Some,
            self.image(first) == self.image(second),
        ensures
            first == second,
    {
        let anchor = self.dest_region->Point_0;
        let one = self.shifted(anchor, first);
        let two = self.shifted(anchor, second);
        assert(self.image(first).unwrap()[0] == (one.0 as u8, one.1 as u8));
        assert(self.image(second).unwrap()[0] == (two.0 as u8, two.1 as u8));
        self.lemma_scan_index_places(first);
        self.lemma_scan_index_places(second);
        let g0 = dest_gap(self.interleave_dest.0);
        let g1 = dest_gap(self.interleave_dest.1);
        let a = self.scan_index(first);
        let b = self.scan_index(second);
        assert(a.0 == b.0) by (nonlinear_arith)
            requires
                a.0 * g0 == b.0 * g0,
                g0 > 0,
        ;
        assert(a.1 == b.1) by (nonlinear_arith)
            requires
                a.1 * g1 == b.1 * g1,
                g1 > 0,
        ;
    }

    /// Two transfers that differ only in how their rectangles are named
    /// refuse alike, scan the same source wells and map each well alike.
    pub proof fn lemma_corner_order_maps_alike(&self, other: TransferModel, well: (u8, u8))
        requires
            self.alike(other),
        ensures
            other.fault() == self.fault(),
            other.source_wells() == self.source_wells(),
            other.image(well) == self.image(well),
    {
        match (self.dest_region, other.dest_region) {
            (RegionModel::Rect(d1, d2), RegionModel::Rect(e1, e2)) => {
                let mine = |target: (u8, u8)| self.replica(d1, d2, well, target);
                let theirs = |target: (u8, u8)| other.replica(e1, e2, well, target);
                assert(mine =~= theirs);
            },
            _ => {},
        }
    }

    /// Two transfers that differ only in how their rectangles are named
    /// feed the same destination wells in the same order.
    pub proof fn lemma_corner_order_feeds_alike(&self, other: TransferModel)
        requires
            self.alike(other),
        ensures
            other.destination_wells() == self.destination_wells(),
    {
        let mine = |well: (u8, u8)| self.fed_by(well);
        let theirs = |well: (u8, u8)| other.fed_by(well);
        assert forall|well: (u8, u8)| #[trigger] mine(well) == theirs(well) by {
            self.lemma_corner_order_maps_alike(other, well);
        }
        assert(mine =~= theirs);
        self.lemma_corner_order_maps_alike(other, (0, 0));
    }

    /// Whether two transfers are the same but for the order in which the
    /// corners of their rectangles are given.
    pub open spec fn alike(&self, other: TransferModel) -> bool {
        &&& other.source_plate == self.source_plate
        &&& other.dest_plate == self.dest_plate
        &&& other.interleave_source == self.interleave_source
        &&& other.interleave_dest == self.interleave_dest
        &&& self.source_region.same_wells(other.source_region)
        &&& self.dest_region.same_wells(other.dest_region)
    }
}

/// A sequence of empty sequences flattens to the empty sequence.
pub proof fn lemma_flatten_nothing(parts: Seq<Seq<(u8, u8)>>)
    requires
        forall|i: int| 0 <= i < parts.len() ==> (#[trigger] parts[i]).len() == 0,
    ensures
        parts.flatten() == Seq::<(u8, u8)>::empty(),
    decreases parts.len(),
{
    if parts.len() > 0 {
        lemma_flatten_nothing(parts.drop_first());
        assert(parts.first() =~= Seq::<(u8, u8)>::empty());
        assert(parts.flatten() =~= Seq::<(u8, u8)>::empty());
    }
}

} // verus!
