//! Transfer regions: a selection of wells on a source plate, a selection on
//! a destination plate, and the mapping that says which destination wells
//! each source well feeds.

use vstd::prelude::*;
use vstd::string::StringExecFns;
use vstd::std_specs::convert::TryFromSpecImpl;
use crate::plate::Plate;
use crate::rectangle::bottom_right;
use crate::rectangle::create_dense_rectangle;
use crate::rectangle::dense_wells;
use crate::rectangle::standardize_rectangle;
use crate::rectangle::strided_rectangle;
use crate::rectangle::strided_wells;
use crate::rectangle::upper_left;
use crate::tiling::dest_gap;
use crate::tiling::on_replica;
use crate::tiling::scan_len;
use crate::tiling::source_stride;
use crate::tiling::AxisTiling;

verus! {

/// An explicit pairing of wells: the source well at each index feeds the
/// destination well at the same index.
#[derive(PartialEq, Eq, Debug)]
pub struct CustomRegion {
    src: Vec<(u8, u8)>,
    dest: Vec<(u8, u8)>,
}

impl CustomRegion {
    #[verifier::type_invariant]
    spec fn paired(self) -> bool {
        self.src@.len() == self.dest@.len()
    }

    /// The source wells, in the order given.
    pub closed spec fn sources(self) -> Seq<(u8, u8)> {
        self.src@
    }

    /// The destination wells, in the order given.
    pub closed spec fn destinations(self) -> Seq<(u8, u8)> {
        self.dest@
    }

    /// Every source well has its destination well.
    pub open spec fn wf(self) -> bool {
        self.sources().len() == self.destinations().len()
    }

    /// Pairs the wells of two parallel lists. Lists of different lengths
    /// pair nothing.
    pub fn from_parallel(src: Vec<(u8, u8)>, dest: Vec<(u8, u8)>) -> (r: Option<CustomRegion>)
        ensures
            r is Some <==> src@.len() == dest@.len(),
            r matches Some(c) ==> c.wf() && c.sources() == src@ && c.destinations() == dest@,
    {
        if src.len() == dest.len() {
            Some(CustomRegion { src, dest })
        } else {
            None
        }
    }

    /// Splits a list of `(source, destination)` pairs into a region.
    pub fn from_pairs(transfers: &[((u8, u8), (u8, u8))]) -> (c: CustomRegion)
        ensures
            c.wf(),
            c.sources() == sources_of(transfers@),
            c.destinations() == destinations_of(transfers@),
    {
        let mut src: Vec<(u8, u8)> = Vec::new();
        let mut dest: Vec<(u8, u8)> = Vec::new();
        let mut k: usize = 0;
        while k < transfers.len()
            invariant
                k <= transfers@.len(),
                src@ == transfers@.take(k as int).map_values(|t: ((u8, u8), (u8, u8))| t.0),
                dest@ == transfers@.take(k as int).map_values(|t: ((u8, u8), (u8, u8))| t.1),
            decreases transfers@.len() - k,
        {
            src.push(transfers[k].0);
            dest.push(transfers[k].1);
            k = k + 1;
            assert(src@ =~= transfers@.take(k as int).map_values(|t: ((u8, u8), (u8, u8))| t.0));
            assert(dest@ =~= transfers@.take(k as int).map_values(|t: ((u8, u8), (u8, u8))| t.1));
        }
        assert(transfers@.take(k as int) =~= transfers@);
        assert(src@ =~= sources_of(transfers@));
        assert(dest@ =~= destinations_of(transfers@));
        CustomRegion { src, dest }
    }

    /// The source wells, in the order given.
    pub fn source_points(&self) -> (r: Vec<(u8, u8)>)
        ensures
            r@ == self.sources(),
            self.wf(),
    {
        proof {
            use_type_invariant(self);
        }
        copy_wells(&self.src)
    }

    /// The destination wells, in the order given.
    pub fn dest_points(&self) -> (r: Vec<(u8, u8)>)
        ensures
            r@ == self.destinations(),
            self.wf(),
    {
        proof {
            use_type_invariant(self);
        }
        copy_wells(&self.dest)
    }

    /// The destination wells paired with `well`, in the order given.
    pub fn partners(&self, well: (u8, u8)) -> (r: Vec<(u8, u8)>)
        ensures
            self.wf(),
            r@ == paired_hits(self.sources(), self.destinations(), well),
    {
        proof {
            use_type_invariant(self);
        }
        let mut hits: Vec<(u8, u8)> = Vec::new();
        let mut k: usize = 0;
        while k < self.src.len()
            invariant
                k <= self.src@.len(),
                self.src@.len() == self.dest@.len(),
                hits@ == paired_hits(self.src@.take(k as int), self.dest@, well),
            decreases self.src@.len() - k,
        {
            let s = self.src[k];
            assert(self.src@.take(k + 1).drop_last() =~= self.src@.take(k as int));
            if s.0 == well.0 && s.1 == well.1 {
                hits.push(self.dest[k]);
            }
            k = k + 1;
        }
        assert(self.src@.take(k as int) =~= self.src@);
        hits
    }
}

impl Clone for CustomRegion {
    fn clone(&self) -> (r: Self)
        ensures
            r.sources() == self.sources(),
            r.destinations() == self.destinations(),
    {
        proof {
            use_type_invariant(self);
        }
        CustomRegion { src: copy_wells(&self.src), dest: copy_wells(&self.dest) }
    }
}

/// The source wells of a list of `(source, destination)` pairs.
pub open spec fn sources_of(pairs: Seq<((u8, u8), (u8, u8))>) -> Seq<(u8, u8)> {
    pairs.map_values(|t: ((u8, u8), (u8, u8))| t.0)
}

/// The destination wells of a list of `(source, destination)` pairs.
pub open spec fn destinations_of(pairs: Seq<((u8, u8), (u8, u8))>) -> Seq<(u8, u8)> {
    pairs.map_values(|t: ((u8, u8), (u8, u8))| t.1)
}

/// The destination wells at the indices where `src` holds `well`, in order
/// and with repeats kept.
pub open spec fn paired_hits(src: Seq<(u8, u8)>, dest: Seq<(u8, u8)>, well: (u8, u8)) -> Seq<
    (u8, u8),
>
    recommends
        src.len() <= dest.len(),
    decreases src.len(),
{
    if src.len() == 0 {
        Seq::empty()
    } else {
        let before = paired_hits(src.drop_last(), dest, well);
        if src.last() == well {
            before.push(dest[src.len() - 1])
        } else {
            before
        }
    }
}

/// A copy of a list of wells.
pub fn copy_wells(wells: &Vec<(u8, u8)>) -> (r: Vec<(u8, u8)>)
    ensures
        r@ == wells@,
{
    let mut out: Vec<(u8, u8)> = Vec::new();
    let mut k: usize = 0;
    while k < wells.len()
        invariant
            k <= wells@.len(),
            out@ == wells@.take(k as int),
        decreases wells@.len() - k,
    {
        out.push(wells[k]);
        k = k + 1;
        assert(out@ =~= wells@.take(k as int));
    }
    assert(wells@.take(k as int) =~= wells@);
    out
}

/// Whether `well` occurs in `wells`.
pub fn has_well(wells: &Vec<(u8, u8)>, well: (u8, u8)) -> (r: bool)
    ensures
        r == wells@.contains(well),
{
    let mut k: usize = 0;
    while k < wells.len()
        invariant
            k <= wells@.len(),
            forall|i: int| 0 <= i < k ==> wells@[i] != well,
        decreases wells@.len() - k,
    {
        let w = wells[k];
        if w.0 == well.0 && w.1 == well.1 {
            return true;
        }
        k = k + 1;
    }
    false
}

/// A selection of wells on a plate.
#[derive(PartialEq, Eq, Debug)]
pub enum Region {
    /// The rectangle spanned by two corners, given in any order.
    Rect((u8, u8), (u8, u8)),
    /// A single well.
    Point((u8, u8)),
    /// An explicit pairing of source and destination wells.
    Custom(CustomRegion),
}

/// What a region holds: the selection as plain values.
pub enum RegionModel {
    /// The rectangle spanned by two corners, given in any order.
    Rect((u8, u8), (u8, u8)),
    /// A single well.
    Point((u8, u8)),
    /// Source wells and, index by index, the destination well of each.
    Custom(Seq<(u8, u8)>, Seq<(u8, u8)>),
}

impl RegionModel {
    /// A custom region keeps its pairing intact.
    pub open spec fn wf(self) -> bool {
        self matches RegionModel::Custom(src, dest) ==> src.len() == dest.len()
    }

    /// Whether two regions select the same wells by the same means: they
    /// are equal, or both are rectangles with the same standardized corners.
    pub open spec fn same_wells(self, other: RegionModel) -> bool {
        ||| self == other
        ||| self matches RegionModel::Rect(a1, a2) && other matches RegionModel::Rect(b1, b2)
            && upper_left(a1, a2) == upper_left(b1, b2) && bottom_right(a1, a2) == bottom_right(
            b1,
            b2,
        )
    }

    /// The corners that stand for the region where it is the source of a
    /// transfer: its own for a rectangle, the well twice for a point, and
    /// the origin for a custom region, which has no geometry.
    pub open spec fn footprint(self) -> ((u8, u8), (u8, u8)) {
        match self {
            RegionModel::Rect(c1, c2) => (c1, c2),
            RegionModel::Point(p) => (p, p),
            RegionModel::Custom(_, _) => ((0u8, 0u8), (0u8, 0u8)),
        }
    }
}

impl View for Region {
    type V = RegionModel;

    open spec fn view(&self) -> RegionModel {
        match *self {
            Region::Rect(c1, c2) => RegionModel::Rect(c1, c2),
            Region::Point(p) => RegionModel::Point(p),
            Region::Custom(c) => RegionModel::Custom(c.sources(), c.destinations()),
        }
    }
}

impl Default for Region {
    fn default() -> (r: Self)
        ensures
            r == Region::Point((1u8, 1u8)),
    {
        Region::Point((1, 1))
    }
}

impl Clone for Region {
    fn clone(&self) -> (r: Self)
        ensures
            r@ == self@,
    {
        match self {
            Region::Rect(c1, c2) => Region::Rect(*c1, *c2),
            Region::Point(p) => Region::Point(*p),
            Region::Custom(c) => Region::Custom(c.clone()),
        }
    }
}

impl Region {
    /// The region that pairs the first well of each entry with the second.
    pub fn new_custom(transfers: &[((u8, u8), (u8, u8))]) -> (r: Region)
        ensures
            r@.wf(),
            r@ == RegionModel::Custom(sources_of(transfers@), destinations_of(transfers@)),
    {
        Region::Custom(CustomRegion::from_pairs(transfers))
    }
}

/// The two corners of a rectangle, as given. Other regions have none.
impl TryFrom<Region> for ((u8, u8), (u8, u8)) {
    type Error = &'static str;

    fn try_from(region: Region) -> (r: Result<Self, Self::Error>) {
        match region {
            Region::Rect(c1, c2) => Ok((c1, c2)),
            _ => Err("Cannot convert this region to a rectangle, it was a point."),
        }
    }
}

impl TryFromSpecImpl<Region> for ((u8, u8), (u8, u8)) {
    open spec fn obeys_try_from_spec() -> bool {
        true
    }

    open spec fn try_from_spec(region: Region) -> Result<Self, Self::Error> {
        match region {
            Region::Rect(c1, c2) => Ok((c1, c2)),
            _ => Err("Cannot convert this region to a rectangle, it was a point."),
        }
    }
}

/// Why a transfer region is refused.
#[derive(PartialEq, Eq, Structural, Clone, Copy, Debug)]
pub enum RegionFault {
    /// A corner of the source rectangle has a coordinate of zero.
    TooSmall,
    /// A corner of the source rectangle lies beyond the last row of the plate.
    TooTall,
    /// A corner of the source rectangle lies beyond the last column of the plate.
    TooWide,
    /// A stride of the source scan is zero.
    ZeroInterleave,
}

impl RegionFault {
    /// Whether the fault says that the region leaves the plate.
    pub open spec fn out_of_bounds(self) -> bool {
        self != RegionFault::ZeroInterleave
    }

    /// The words in which the fault is reported.
    pub open spec fn label(self) -> &'static str {
        match self {
            RegionFault::TooSmall => "Source region is out-of-bounds! (Too small)",
            RegionFault::TooTall => "Source region is out-of-bounds! (Too tall)",
            RegionFault::TooWide => "Source region is out-of-bounds! (Too wide)",
            RegionFault::ZeroInterleave => "Source interleave cannot be zero!",
        }
    }

    /// The words in which the fault is reported.
    pub fn message(&self) -> (m: &'static str)
        ensures
            m == self.label(),
    {
        match self {
            RegionFault::TooSmall => "Source region is out-of-bounds! (Too small)",
            RegionFault::TooTall => "Source region is out-of-bounds! (Too tall)",
            RegionFault::TooWide => "Source region is out-of-bounds! (Too wide)",
            RegionFault::ZeroInterleave => "Source interleave cannot be zero!",
        }
    }
}

/// A transfer between two plates: the wells taken from the source, the wells
/// offered by the destination, and the stride of each along both axes.
#[derive(PartialEq, Eq, Debug)]
pub struct TransferRegion {
    pub source_plate: Plate,
    pub source_region: Region,
    pub dest_plate: Plate,
    pub dest_region: Region,
    pub interleave_source: (i8, i8),
    pub interleave_dest: (i8, i8),
}

/// What a transfer region holds, as plain values. The mapping is stated
/// over this.
pub struct TransferModel {
    pub source_plate: Plate,
    pub source_region: RegionModel,
    pub dest_plate: Plate,
    pub dest_region: RegionModel,
    pub interleave_source: (i8, i8),
    pub interleave_dest: (i8, i8),
}

impl View for TransferRegion {
    type V = TransferModel;

    open spec fn view(&self) -> TransferModel {
        TransferModel {
            source_plate: self.source_plate,
            source_region: self.source_region@,
            dest_plate: self.dest_plate,
            dest_region: self.dest_region@,
            interleave_source: self.interleave_source,
            interleave_dest: self.interleave_dest,
        }
    }
}

impl Clone for TransferRegion {
    fn clone(&self) -> (r: Self)
        ensures
            r@ == self@,
    {
        TransferRegion {
            source_plate: self.source_plate,
            source_region: self.source_region.clone(),
            dest_plate: self.dest_plate,
            dest_region: self.dest_region.clone(),
            interleave_source: self.interleave_source,
            interleave_dest: self.interleave_dest,
        }
    }
}

impl Default for TransferRegion {
    fn default() -> (r: Self)
        ensures
            r@ == TransferModel::initial(),
    {
        TransferRegion {
            source_plate: Plate::default(),
            source_region: Region::default(),
            dest_plate: Plate::default(),
            dest_region: Region::default(),
            interleave_source: (1, 1),
            interleave_dest: (1, 1),
        }
    }
}

/// The magnitude of a source stride, with zero counted as one.
pub fn stride_of(s: i8) -> (r: u8)
    ensures
        r == source_stride(s),
        r >= 1,
{
    if s == 0 {
        1
    } else {
        gap_of(s)
    }
}

/// The magnitude of a destination stride.
pub fn gap_of(s: i8) -> (r: u8)
    ensures
        r == dest_gap(s),
{
    if s == i8::MIN {
        128
    } else if s < 0 {
        (-s) as u8
    } else {
        s as u8
    }
}

impl TransferModel {
    /// The transfer that stands where none was chosen: from the first well
    /// of a plate of 96 wells to the first well of another, well by well.
    pub open spec fn initial() -> TransferModel {
        TransferModel {
            source_plate: Plate::new_spec(),
            source_region: RegionModel::Point((1u8, 1u8)),
            dest_plate: Plate::new_spec(),
            dest_region: RegionModel::Point((1u8, 1u8)),
            interleave_source: (1i8, 1i8),
            interleave_dest: (1i8, 1i8),
        }
    }

    /// Both regions keep their pairings intact.
    pub open spec fn wf(&self) -> bool {
        self.source_region.wf() && self.dest_region.wf()
    }

    /// The first reason, if any, for which the region is refused. Only a
    /// rectangular source is examined: its corners must have no coordinate
    /// of zero and must lie on the source plate, and neither stride of the
    /// source scan may be zero.
    pub open spec fn fault(&self) -> Option<RegionFault> {
        match self.source_region {
            RegionModel::Rect(s1, s2) => {
                let max = self.source_plate.plate_format.dims();
                if s1.0 == 0 || s1.1 == 0 || s2.0 == 0 || s2.1 == 0 {
                    Some(RegionFault::TooSmall)
                } else if s1.0 > max.0 || s2.0 > max.0 {
                    Some(RegionFault::TooTall)
                } else if s1.1 > max.1 || s2.1 > max.1 {
                    Some(RegionFault::TooWide)
                } else if self.interleave_source.0 == 0 || self.interleave_source.1 == 0 {
                    Some(RegionFault::ZeroInterleave)
                } else {
                    None
                }
            },
            _ => None,
        }
    }

    /// The strides of the source scan along the two axes.
    pub open spec fn source_steps(&self) -> (int, int) {
        (source_stride(self.interleave_source.0), source_stride(self.interleave_source.1))
    }

    /// The wells taken from the source plate, in the order of the scan.
    pub open spec fn source_wells(&self) -> Seq<(u8, u8)> {
        match self.source_region {
            RegionModel::Rect(c1, c2) => strided_wells(
                upper_left(c1, c2),
                bottom_right(c1, c2),
                self.source_steps(),
            ),
            RegionModel::Point(p) => seq![p],
            RegionModel::Custom(src, _) => src,
        }
    }

    /// The corner from which the source scan is counted.
    pub open spec fn source_origin(&self) -> (u8, u8) {
        let f = self.source_region.footprint();
        upper_left(f.0, f.1)
    }

    /// The length of the source footprint along the two axes.
    pub open spec fn source_dims(&self) -> (int, int) {
        let f = self.source_region.footprint();
        (
            bottom_right(f.0, f.1).0 - upper_left(f.0, f.1).0 + 1,
            bottom_right(f.0, f.1).1 - upper_left(f.0, f.1).1 + 1,
        )
    }

    /// How many whole strides `well` lies from the origin of the source
    /// scan, along the two axes.
    pub open spec fn scan_index(&self, well: (u8, u8)) -> (int, int) {
        let origin = self.source_origin();
        let steps = self.source_steps();
        ((well.0 - origin.0) / steps.0, (well.1 - origin.1) / steps.1)
    }

    /// Where a shift transfer anchored at `anchor` puts `well`: as many
    /// destination strides from the anchor as the well is source strides
    /// from the origin.
    pub open spec fn shifted(&self, anchor: (u8, u8), well: (u8, u8)) -> (int, int) {
        let index = self.scan_index(well);
        (
            anchor.0 + index.0 * dest_gap(self.interleave_dest.0),
            anchor.1 + index.1 * dest_gap(self.interleave_dest.1),
        )
    }

    /// Whether a replicate transfer into the rectangle spanned by `d1` and
    /// `d2` puts a copy of `well` on `target`.
    pub open spec fn replica(
        &self,
        d1: (u8, u8),
        d2: (u8, u8),
        well: (u8, u8),
        target: (u8, u8),
    ) -> bool {
        let d_ul = upper_left(d1, d2);
        let d_br = bottom_right(d1, d2);
        let index = self.scan_index(well);
        let dims = self.source_dims();
        let steps = self.source_steps();
        &&& on_replica(
            target.0 - d_ul.0,
            index.0,
            scan_len(dims.0, steps.0),
            dest_gap(self.interleave_dest.0),
            d_br.0 - d_ul.0 + 1,
        )
        &&& on_replica(
            target.1 - d_ul.1,
            index.1,
            scan_len(dims.1, steps.1),
            dest_gap(self.interleave_dest.1),
            d_br.1 - d_ul.1 + 1,
        )
    }

    /// The destination wells fed by `well`, or `None` where it feeds none.
    ///
    /// A refused region maps nothing. Into a custom destination a well maps
    /// to its partners. Otherwise only the wells of the source scan map:
    /// onto a point, to the one shifted well, if that is a coordinate at
    /// all; into a rectangle, to its copy in each tile that fits, in the
    /// order of the rectangle's walk.
    pub open spec fn image(&self, well: (u8, u8)) -> Option<Seq<(u8, u8)>> {
        if self.fault() is Some {
            None
        } else {
            match self.dest_region {
                RegionModel::Point(anchor) => {
                    let t = self.shifted(anchor, well);
                    if self.source_wells().contains(well) && t.0 <= 255 && t.1 <= 255 {
                        Some(seq![(t.0 as u8, t.1 as u8)])
                    } else {
                        None
                    }
                },
                RegionModel::Rect(d1, d2) => {
                    if self.source_wells().contains(well) {
                        Some(
                            dense_wells(d1, d2).filter(
                                |target: (u8, u8)| self.replica(d1, d2, well, target),
                            ),
                        )
                    } else {
                        None
                    }
                },
                RegionModel::Custom(src, dest) => {
                    let hits = paired_hits(src, dest, well);
                    if hits.len() == 0 {
                        None
                    } else {
                        Some(hits)
                    }
                },
            }
        }
    }

    /// The destination wells fed by `well`, none where it feeds none.
    pub open spec fn fed_by(&self, well: (u8, u8)) -> Seq<(u8, u8)> {
        match self.image(well) {
            Some(wells) => wells,
            None => Seq::empty(),
        }
    }

    /// The destination wells fed by the source wells, one source well after
    /// the other in the order of the scan, repeats kept.
    pub open spec fn destination_wells(&self) -> Seq<(u8, u8)> {
        self.source_wells().map_values(|well: (u8, u8)| self.fed_by(well)).flatten()
    }

    /// `well` with each of the destination wells it feeds.
    pub open spec fn pairs_of(&self, well: (u8, u8)) -> Seq<((u8, u8), (u8, u8))> {
        self.fed_by(well).map_values(|target: (u8, u8)| (well, target))
    }

    /// Every pair of a source well and a destination well it feeds, one
    /// source well after the other in the order of the scan.
    pub open spec fn pairs(&self) -> Seq<((u8, u8), (u8, u8))> {
        self.source_wells().map_values(|well: (u8, u8)| self.pairs_of(well)).flatten()
    }
}

/// What an answer of the mapping holds.
pub open spec fn listed(answer: Option<Vec<(u8, u8)>>) -> Option<Seq<(u8, u8)>> {
    match answer {
        Some(wells) => Some(wells@),
        None => None,
    }
}

/// The mapping of a transfer region, with the region examined and its
/// source wells listed once, ready to be asked well by well.
pub struct TransferMap<'a> {
    region: &'a TransferRegion,
    accepted: bool,
    sources: Vec<(u8, u8)>,
}

impl<'a> TransferMap<'a> {
    #[verifier::type_invariant]
    spec fn prepared(self) -> bool {
        &&& self.accepted == (self.region@.fault() is None)
        &&& self.sources@ == self.region@.source_wells()
    }

    /// The transfer region that is mapped.
    pub closed spec fn transfer(self) -> TransferModel {
        self.region@
    }

    /// The destination wells fed by `well`, or `None` where it feeds none.
    pub fn evaluate(&self, well: (u8, u8)) -> (r: Option<Vec<(u8, u8)>>)
        ensures
            listed(r) == self.transfer().image(well),
    {
        proof {
            use_type_invariant(self);
        }
        if !self.accepted {
            return None;
        }
        match &self.region.dest_region {
            Region::Point(anchor) => {
                if has_well(&self.sources, well) {
                    self.region.shift(*anchor, well)
                } else {
                    None
                }
            },
            Region::Rect(d1, d2) => {
                if has_well(&self.sources, well) {
                    Some(self.region.replicate(*d1, *d2, well))
                } else {
                    None
                }
            },
            Region::Custom(c) => {
                let hits = c.partners(well);
                if hits.len() == 0 {
                    None
                } else {
                    Some(hits)
                }
            },
        }
    }
}

impl TransferRegion {
    /// The first reason, if any, for which the region is refused.
    pub fn find_fault(&self) -> (r: Option<RegionFault>)
        ensures
            r == self@.fault(),
    {
        match &self.source_region {
            Region::Rect(s1, s2) => {
                if s1.0 == 0 || s1.1 == 0 || s2.0 == 0 || s2.1 == 0 {
                    return Some(RegionFault::TooSmall);
                }
                let source_max = self.source_plate.size();
                if s1.0 > source_max.0 || s2.0 > source_max.0 {
                    return Some(RegionFault::TooTall);
                }
                if s1.1 > source_max.1 || s2.1 > source_max.1 {
                    return Some(RegionFault::TooWide);
                }
                if self.interleave_source.0 == 0 || self.interleave_source.1 == 0 {
                    return Some(RegionFault::ZeroInterleave);
                }
                None
            },
            _ => None,
        }
    }

    /// Accepts the region, or says in words why it is refused.
    pub fn validate(&self) -> (r: Result<(), &'static str>)
        ensures
            r == match self@.fault() {
                Some(fault) => Err::<(), &'static str>(fault.label()),
                None => Ok::<(), &'static str>(()),
            },
    {
        match self.find_fault() {
            Some(fault) => Err(fault.message()),
            None => Ok(()),
        }
    }

    /// The wells taken from the source plate, in the order of the scan.
    pub fn get_source_wells(&self) -> (wells: Vec<(u8, u8)>)
        ensures
            wells@ == self@.source_wells(),
    {
        match &self.source_region {
            Region::Rect(c1, c2) => {
                let (ul, br) = standardize_rectangle(c1, c2);
                let step = (stride_of(self.interleave_source.0), stride_of(self.interleave_source.1));
                strided_rectangle(ul, br, step)
            },
            Region::Point(p) => {
                let mut wells: Vec<(u8, u8)> = Vec::new();
                wells.push(*p);
                assert(wells@ =~= seq![*p]);
                wells
            },
            Region::Custom(c) => c.source_points(),
        }
    }

    /// The corners that stand for the source region.
    pub fn source_corners(&self) -> (r: ((u8, u8), (u8, u8)))
        ensures
            r == self@.source_region.footprint(),
    {
        match &self.source_region {
            Region::Point(p) => (*p, *p),
            Region::Rect(c1, c2) => (*c1, *c2),
            Region::Custom(_) => ((0, 0), (0, 0)),
        }
    }

    /// Where a shift transfer anchored at `anchor` puts a well of the
    /// source scan, if that is a coordinate at all.
    fn shift(&self, anchor: (u8, u8), well: (u8, u8)) -> (r: Option<Vec<(u8, u8)>>)
        requires
            self@.source_wells().contains(well),
        ensures
            ({
                let t = self@.shifted(anchor, well);
                listed(r) == if t.0 <= 255 && t.1 <= 255 {
                    Some(seq![(t.0 as u8, t.1 as u8)])
                } else {
                    None
                }
            }),
    {
        let corners = self.source_corners();
        let (ul, br) = standardize_rectangle(&corners.0, &corners.1);
        proof {
            self@.lemma_source_wells_from_origin(well);
        }
        let stride = (stride_of(self.interleave_source.0), stride_of(self.interleave_source.1));
        let gap = (gap_of(self.interleave_dest.0), gap_of(self.interleave_dest.1));
        let index0: u32 = (well.0 - ul.0) as u32 / stride.0 as u32;
        let index1: u32 = (well.1 - ul.1) as u32 / stride.1 as u32;
        assert(index0 <= 255 && index1 <= 255) by (nonlinear_arith)
            requires
                index0 == (well.0 - ul.0) / (stride.0 as int),
                index1 == (well.1 - ul.1) / (stride.1 as int),
                0 <= well.0 - ul.0 <= 255,
                0 <= well.1 - ul.1 <= 255,
                stride.0 >= 1,
                stride.1 >= 1,
        ;
        assert(index0 * gap.0 <= 255 * 255 && index1 * gap.1 <= 255 * 255) by (nonlinear_arith)
            requires
                index0 <= 255,
                index1 <= 255,
                gap.0 <= 255,
                gap.1 <= 255,
        ;
        let t0: u32 = anchor.0 as u32 + index0 * gap.0 as u32;
        let t1: u32 = anchor.1 as u32 + index1 * gap.1 as u32;
        if t0 <= 255 && t1 <= 255 {
            let mut wells: Vec<(u8, u8)> = Vec::new();
            wells.push((t0 as u8, t1 as u8));
            assert(wells@ =~= seq![(t0 as u8, t1 as u8)]);
            Some(wells)
        } else {
            None
        }
    }

    /// The copies of a well of the source scan that a replicate transfer
    /// lays into the rectangle spanned by `d1` and `d2`, in the order of the
    /// rectangle's walk.
    fn replicate(&self, d1: (u8, u8), d2: (u8, u8), well: (u8, u8)) -> (r: Vec<(u8, u8)>)
        requires
            self@.source_wells().contains(well),
        ensures
            r@ == dense_wells(d1, d2).filter(|target: (u8, u8)| self@.replica(d1, d2, well, target)),
    {
        let ghost chosen = |target: (u8, u8)| self@.replica(d1, d2, well, target);
        let possible = create_dense_rectangle(&d1, &d2);
        let (d_ul, d_br) = standardize_rectangle(&d1, &d2);
        let corners = self.source_corners();
        let (s_ul, s_br) = standardize_rectangle(&corners.0, &corners.1);
        proof {
            self@.lemma_source_wells_from_origin(well);
        }
        let stride = (stride_of(self.interleave_source.0), stride_of(self.interleave_source.1));
        let gap = (gap_of(self.interleave_dest.0), gap_of(self.interleave_dest.1));
        let rows = AxisTiling::plan(
            (s_br.0 - s_ul.0) as u16 + 1,
            stride.0,
            well.0 - s_ul.0,
            gap.0,
            (d_br.0 - d_ul.0) as u16 + 1,
        );
        let cols = AxisTiling::plan(
            (s_br.1 - s_ul.1) as u16 + 1,
            stride.1,
            well.1 - s_ul.1,
            gap.1,
            (d_br.1 - d_ul.1) as u16 + 1,
        );
        let mut wells: Vec<(u8, u8)> = Vec::new();
        let mut k: usize = 0;
        proof {
            reveal(Seq::filter);
            assert(possible@.take(0) =~= Seq::<(u8, u8)>::empty());
        }
        while k < possible.len()
            invariant
                k <= possible@.len(),
                possible@ == dense_wells(d1, d2),
                d_ul == upper_left(d1, d2),
                d_br == bottom_right(d1, d2),
                rows.span >= 1,
                cols.span >= 1,
                chosen == |target: (u8, u8)| self@.replica(d1, d2, well, target),
                rows.describes(
                    self@.scan_index(well).0,
                    scan_len(self@.source_dims().0, self@.source_steps().0),
                    dest_gap(self.interleave_dest.0),
                    d_br.0 - d_ul.0 + 1,
                ),
                cols.describes(
                    self@.scan_index(well).1,
                    scan_len(self@.source_dims().1, self@.source_steps().1),
                    dest_gap(self.interleave_dest.1),
                    d_br.1 - d_ul.1 + 1,
                ),
                wells@ == possible@.take(k as int).filter(chosen),
            decreases possible@.len() - k,
        {
            let target = possible[k];
            proof {
                crate::rectangle::lemma_strided_wells_contains(d_ul, d_br, (1, 1), target);
                assert(possible@.contains(target));
                assert(possible@.take(k + 1) =~= possible@.take(k as int).push(target));
                possible@.take(k as int).lemma_filter_push(target, chosen);
            }
            if rows.hits(target.0 - d_ul.0) && cols.hits(target.1 - d_ul.1) {
                wells.push(target);
            }
            k = k + 1;
        }
        assert(possible@.take(k as int) =~= possible@);
        wells
    }

    /// Examines the region and lists its source wells, so that the mapping
    /// can be asked well by well.
    pub fn calculate_map(&self) -> (m: TransferMap<'_>)
        ensures
            m.transfer() == self@,
            self@.wf(),
    {
        match &self.source_region {
            Region::Custom(c) => {
                proof {
                    use_type_invariant(c);
                }
            },
            _ => {},
        }
        match &self.dest_region {
            Region::Custom(c) => {
                proof {
                    use_type_invariant(c);
                }
            },
            _ => {},
        }
        let accepted = self.find_fault().is_none();
        let sources = self.get_source_wells();
        TransferMap { region: self, accepted, sources }
    }

    /// The destination wells fed by the source wells, one source well after
    /// the other in the order of the scan, repeats kept.
    pub fn get_destination_wells(&self) -> (wells: Vec<(u8, u8)>)
        ensures
            wells@ == self@.destination_wells(),
    {
        let map = self.calculate_map();
        let source_wells = self.get_source_wells();
        let ghost fed = |well: (u8, u8)| self@.fed_by(well);
        let mut wells: Vec<(u8, u8)> = Vec::new();
        let mut k: usize = 0;
        proof {
            assert(source_wells@.take(0).map_values(fed) =~= Seq::<Seq<(u8, u8)>>::empty());
        }
        while k < source_wells.len()
            invariant
                k <= source_wells@.len(),
                map.transfer() == self@,
                fed == |well: (u8, u8)| self@.fed_by(well),
                wells@ == source_wells@.take(k as int).map_values(fed).flatten(),
            decreases source_wells@.len() - k,
        {
            let well = source_wells[k];
            proof {
                let before = source_wells@.take(k as int).map_values(fed);
                assert(source_wells@.take(k + 1).map_values(fed) =~= before.push(fed(well)));
                before.lemma_flatten_push(fed(well));
            }
            match map.evaluate(well) {
                Some(mut dest_wells) => {
                    wells.append(&mut dest_wells);
                },
                None => {
                    assert(wells@ + Seq::<(u8, u8)>::empty() =~= wells@);
                },
            }
            k = k + 1;
        }
        assert(source_wells@.take(k as int) =~= source_wells@);
        wells
    }
}

/// The mark of the `k`-th character of a plate's picture: each row of the
/// plate is a line of one character for each well, `x` for a well that is
/// among `wells` and `.` for any other, with a line feed at its end.
pub open spec fn picture_mark(cols: int, wells: Seq<(u8, u8)>, k: int) -> char {
    if k % (cols + 1) == cols {
        '\n'
    } else if wells.contains(((k / (cols + 1) + 1) as u8, (k % (cols + 1) + 1) as u8)) {
        'x'
    } else {
        '.'
    }
}

/// The picture of a plate of the given `(rows, columns)`, row by row.
pub open spec fn plate_picture(dims: (u8, u8), wells: Seq<(u8, u8)>) -> Seq<char> {
    Seq::new(
        (dims.0 * (dims.1 + 1)) as nat,
        |k: int| picture_mark(dims.1 as int, wells, k),
    )
}

/// Draws the picture of a plate of the given `(rows, columns)` at the end
/// of `text`.
pub fn draw_plate(text: &mut String, dims: (u8, u8), wells: &Vec<(u8, u8)>)
    ensures
        final(text)@ == old(text)@ + plate_picture(dims, wells@),
{
    let ghost before = text@;
    let ghost cols = dims.1 as int;
    let mut i: u16 = 1;
    assert(0 * (cols + 1) == 0);
    while i <= dims.0 as u16
        invariant
            1 <= i <= dims.0 + 1,
            cols == dims.1,
            text@.len() == before.len() + (i - 1) * (cols + 1),
            forall|k: int| 0 <= k < before.len() ==> text@[k] == before[k],
            forall|k: int|
                0 <= k < (i - 1) * (cols + 1) ==> #[trigger] text@[before.len() + k]
                    == picture_mark(cols, wells@, k),
        decreases dims.0 + 1 - i,
    {
        let mut j: u16 = 1;
        while j <= dims.1 as u16
            invariant
                1 <= i <= dims.0,
                1 <= j <= dims.1 + 1,
                cols == dims.1,
                text@.len() == before.len() + (i - 1) * (cols + 1) + (j - 1),
                forall|k: int| 0 <= k < before.len() ==> text@[k] == before[k],
                forall|k: int|
                    0 <= k < (i - 1) * (cols + 1) + (j - 1) ==> #[trigger] text@[before.len() + k]
                        == picture_mark(cols, wells@, k),
            decreases dims.1 + 1 - j,
        {
            proof {
                crate::rectangle::lemma_cell_index(dims.0 as int, cols + 1, i - 1, j - 1);
            }
            if has_well(wells, (i as u8, j as u8)) {
                text.push('x');
            } else {
                text.push('.');
            }
            j = j + 1;
        }
        proof {
            crate::rectangle::lemma_cell_index(dims.0 as int, cols + 1, i - 1, cols);
            assert(i * (cols + 1) == (i - 1) * (cols + 1) + cols + 1) by (nonlinear_arith);
        }
        text.push('\n');
        i = i + 1;
    }
    proof {
        let drawn = before + plate_picture(dims, wells@);
        assert(text@.len() == drawn.len());
        assert forall|k: int| 0 <= k < text@.len() implies text@[k] == drawn[k] by {
            if k >= before.len() {
                assert(text@[before.len() + (k - before.len())] == picture_mark(
                    cols,
                    wells@,
                    k - before.len(),
                ));
            }
        }
        assert(text@ =~= drawn);
    }
}

impl TransferRegion {
    /// The transfer as a picture: under the line `Source Plate:` the source
    /// plate with its source wells marked, under the line `Dest Plate:` the
    /// destination plate with the wells that are fed marked.
    pub fn to_string(&self) -> (text: String)
        ensures
            text@ == "Source Plate:\n"@ + plate_picture(
                self.source_plate.plate_format.dims(),
                self@.source_wells(),
            ) + "Dest Plate:\n"@ + plate_picture(
                self.dest_plate.plate_format.dims(),
                self@.destination_wells(),
            ),
    {
        let mut text = String::from_str("Source Plate:\n");
        let source_wells = self.get_source_wells();
        draw_plate(&mut text, self.source_plate.size(), &source_wells);
        text.append("Dest Plate:\n");
        let dest_wells = self.get_destination_wells();
        draw_plate(&mut text, self.dest_plate.size(), &dest_wells);
        text
    }

    /// Every pair of a source well and a destination well it feeds, one
    /// source well after the other in the order of the scan.
    pub fn get_transfer_pairs(&self) -> (pairs: Vec<((u8, u8), (u8, u8))>)
        ensures
            pairs@ == self@.pairs(),
    {
        let map = self.calculate_map();
        let source_wells = self.get_source_wells();
        let ghost paired = |well: (u8, u8)| self@.pairs_of(well);
        let mut pairs: Vec<((u8, u8), (u8, u8))> = Vec::new();
        let mut k: usize = 0;
        proof {
            assert(source_wells@.take(0).map_values(paired) =~= Seq::<
                Seq<((u8, u8), (u8, u8))>,
            >::empty());
        }
        while k < source_wells.len()
            invariant
                k <= source_wells@.len(),
                map.transfer() == self@,
                paired == |well: (u8, u8)| self@.pairs_of(well),
                pairs@ == source_wells@.take(k as int).map_values(paired).flatten(),
            decreases source_wells@.len() - k,
        {
            let well = source_wells[k];
            let ghost before = pairs@;
            proof {
                let parts = source_wells@.take(k as int).map_values(paired);
                assert(source_wells@.take(k + 1).map_values(paired) =~= parts.push(paired(well)));
                parts.lemma_flatten_push(paired(well));
            }
            match map.evaluate(well) {
                Some(dest_wells) => {
                    let ghost with_well = |target: (u8, u8)| (well, target);
                    let mut j: usize = 0;
                    while j < dest_wells.len()
                        invariant
                            j <= dest_wells@.len(),
                            with_well == |target: (u8, u8)| (well, target),
                            pairs@ == before + dest_wells@.take(j as int).map_values(with_well),
                        decreases dest_wells@.len() - j,
                    {
                        pairs.push((well, dest_wells[j]));
                        j = j + 1;
                        assert(pairs@ =~= before + dest_wells@.take(j as int).map_values(
                            with_well,
                        ));
                    }
                    assert(dest_wells@.take(j as int) =~= dest_wells@);
                },
                None => {
                    assert(paired(well) =~= Seq::<((u8, u8), (u8, u8))>::empty());
                    assert(before + paired(well) =~= before);
                },
            }
            k = k + 1;
        }
        assert(source_wells@.take(k as int) =~= source_wells@);
        pairs
    }
}

} // verus!
