//! The declared plates and transfers of a session, and what happens to the
//! transfers when a plate goes.

use vstd::prelude::*;
use vstd::string::StringExecFns;
use crate::identity::NIL_ID;
use crate::plate::Plate;
use crate::plate::PlateType;
use crate::plate_instances::PlateInstance;
use crate::transfer::Transfer;
use crate::transfer_region::destinations_of;
use crate::transfer_region::sources_of;
use crate::transfer_region::Region;
use crate::transfer_region::RegionModel;
use crate::transfer_region::TransferModel;
use crate::transfer_region::TransferRegion;

verus! {

/// What the user has chosen of the ways to show a plate.
#[derive(PartialEq, Eq, Structural, Clone, Copy, Debug)]
pub struct Preferences {
    pub in_transfer_hashes: bool,
}

impl Default for Preferences {
    fn default() -> (r: Self)
        ensures
            r.in_transfer_hashes,
    {
        Preferences { in_transfer_hashes: true }
    }
}

/// The declared plates and transfers, and which of them are selected.
#[derive(PartialEq, Debug)]
#[non_exhaustive]
pub struct MainState {
    pub source_plates: Vec<PlateInstance>,
    pub destination_plates: Vec<PlateInstance>,
    pub transfers: Vec<Transfer>,
    pub selected_source_plate: u128,
    pub selected_dest_plate: u128,
    pub selected_transfer: u128,
    pub preferences: Preferences,
}

impl Clone for MainState {
    fn clone(&self) -> (r: Self)
        ensures
            r.source_plates@ == self.source_plates@,
            r.destination_plates@ == self.destination_plates@,
            r.transfers@.len() == self.transfers@.len(),
            forall|i: int|
                0 <= i < self.transfers@.len() ==> same_transfer(
                    #[trigger] r.transfers@[i],
                    self.transfers@[i],
                ),
            r.selected_source_plate == self.selected_source_plate,
            r.selected_dest_plate == self.selected_dest_plate,
            r.selected_transfer == self.selected_transfer,
            r.preferences == self.preferences,
    {
        let mut transfers: Vec<Transfer> = Vec::new();
        let mut k: usize = 0;
        while k < self.transfers.len()
            invariant
                k <= self.transfers@.len(),
                transfers@.len() == k,
                forall|i: int|
                    0 <= i < k ==> same_transfer(#[trigger] transfers@[i], self.transfers@[i]),
            decreases self.transfers@.len() - k,
        {
            transfers.push(self.transfers[k].clone());
            k = k + 1;
        }
        MainState {
            source_plates: copy_plates(&self.source_plates),
            destination_plates: copy_plates(&self.destination_plates),
            transfers,
            selected_source_plate: self.selected_source_plate,
            selected_dest_plate: self.selected_dest_plate,
            selected_transfer: self.selected_transfer,
            preferences: self.preferences,
        }
    }
}

/// A copy of a list of plates.
pub fn copy_plates(plates: &Vec<PlateInstance>) -> (r: Vec<PlateInstance>)
    ensures
        r@ == plates@,
{
    let mut out: Vec<PlateInstance> = Vec::new();
    let mut k: usize = 0;
    while k < plates.len()
        invariant
            k <= plates@.len(),
            out@ == plates@.take(k as int),
        decreases plates@.len() - k,
    {
        out.push(plates[k].clone());
        k = k + 1;
        assert(out@ =~= plates@.take(k as int));
    }
    assert(plates@.take(k as int) =~= plates@);
    out
}

impl Default for MainState {
    fn default() -> (r: Self)
        ensures
            r.source_plates@.len() == 0,
            r.destination_plates@.len() == 0,
            r.transfers@.len() == 0,
            r.selected_source_plate == NIL_ID,
            r.selected_dest_plate == NIL_ID,
            r.selected_transfer == NIL_ID,
            r.preferences.in_transfer_hashes,
    {
        MainState {
            source_plates: Vec::new(),
            destination_plates: Vec::new(),
            transfers: Vec::new(),
            selected_source_plate: NIL_ID,
            selected_dest_plate: NIL_ID,
            selected_transfer: NIL_ID,
            preferences: Preferences::default(),
        }
    }
}

/// Whether a plate with the identifier `id` is among `plates`.
pub open spec fn has_plate(plates: Seq<PlateInstance>, id: u128) -> bool {
    exists|i: int| 0 <= i < plates.len() && (#[trigger] plates[i]).id == id
}

/// Whether `i` is the place of the first plate with the identifier `id`.
pub open spec fn is_first(plates: Seq<PlateInstance>, id: u128, i: int) -> bool {
    &&& 0 <= i < plates.len()
    &&& plates[i].id == id
    &&& forall|j: int| 0 <= j < i ==> (#[trigger] plates[j]).id != id
}

/// The plates without the first one that has the identifier `id`: the last
/// plate takes its place. Without such a plate nothing changes.
pub open spec fn without(plates: Seq<PlateInstance>, id: u128) -> Seq<PlateInstance> {
    if has_plate(plates, id) {
        let i = choose|i: int| is_first(plates, id, i);
        plates.update(i, plates.last()).drop_last()
    } else {
        plates
    }
}

/// Whether `after` is `before` with the first plate that has the
/// identifier `id` named `name`, and with nothing changed if there is no
/// such plate.
pub open spec fn renamed(
    before: Seq<PlateInstance>,
    after: Seq<PlateInstance>,
    id: u128,
    name: Seq<char>,
) -> bool {
    &&& after.len() == before.len()
    &&& forall|j: int|
        0 <= j < before.len() ==> if is_first(before, id, j) {
            &&& (#[trigger] after[j]).plate == before[j].plate
            &&& after[j].id == id
            &&& after[j].name@ == name
        } else {
            after[j] == before[j]
        }
}

/// Whether both plates of a transfer are among the given ones.
pub open spec fn anchored(
    sources: Seq<PlateInstance>,
    destinations: Seq<PlateInstance>,
    transfer: Transfer,
) -> bool {
    has_plate(sources, transfer.source_id) && has_plate(destinations, transfer.dest_id)
}

/// Whether `i` is the place of the first transfer with the identifier `id`.
pub open spec fn is_first_transfer(transfers: Seq<Transfer>, id: u128, i: int) -> bool {
    &&& 0 <= i < transfers.len()
    &&& transfers[i].id == id
    &&& forall|j: int| 0 <= j < i ==> (#[trigger] transfers[j]).id != id
}

/// Whether a transfer with the identifier `id` is among `transfers`.
pub open spec fn has_transfer(transfers: Seq<Transfer>, id: u128) -> bool {
    exists|i: int| 0 <= i < transfers.len() && (#[trigger] transfers[i]).id == id
}

/// The transfers without the first one that has the identifier `id`, the
/// others in their order. Without such a transfer nothing changes.
pub open spec fn without_transfer(transfers: Seq<Transfer>, id: u128) -> Seq<Transfer> {
    if has_transfer(transfers, id) {
        transfers.remove(choose|i: int| is_first_transfer(transfers, id, i))
    } else {
        transfers
    }
}

/// Whether two transfers hold the same: the same plates, name, identifier
/// and volume, and regions that hold the same.
pub open spec fn same_transfer(a: Transfer, b: Transfer) -> bool {
    &&& a.source_id == b.source_id
    &&& a.dest_id == b.dest_id
    &&& a.name == b.name
    &&& a.id == b.id
    &&& a.transfer_region@ == b.transfer_region@
    &&& a.volume_bits == b.volume_bits
}

/// Whether `made` is a transfer newly declared between the plates with the
/// identifiers `source` and `dest`, with the name and the region of
/// `draft`.
pub open spec fn declared_from(made: Transfer, draft: Transfer, source: u128, dest: u128) -> bool {
    &&& made.source_id == source
    &&& made.dest_id == dest
    &&& made.name == draft.name
    &&& made.transfer_region@ == draft.transfer_region@
    &&& made.volume_bits == crate::transfer::DEFAULT_VOLUME_BITS
}

/// Whether `i` is the place of the first plate with the name `name`.
pub open spec fn is_first_named(plates: Seq<PlateInstance>, name: Seq<char>, i: int) -> bool {
    &&& 0 <= i < plates.len()
    &&& plates[i].name@ == name
    &&& forall|j: int| 0 <= j < i ==> (#[trigger] plates[j]).name@ != name
}

/// Whether a plate with the name `name` is among `plates`.
pub open spec fn has_plate_named(plates: Seq<PlateInstance>, name: Seq<char>) -> bool {
    exists|i: int| 0 <= i < plates.len() && (#[trigger] plates[i]).name@ == name
}

/// The transfer region that moves liquid as `pairs` say, from the plate
/// `source` to the plate `dest`.
pub open spec fn custom_transfer(
    pairs: Seq<((u8, u8), (u8, u8))>,
    source: Plate,
    dest: Plate,
) -> TransferModel {
    let region = RegionModel::Custom(sources_of(pairs), destinations_of(pairs));
    TransferModel {
        source_plate: source,
        source_region: region,
        dest_plate: dest,
        dest_region: region,
        interleave_source: (1i8, 1i8),
        interleave_dest: (1i8, 1i8),
    }
}

/// Where a plate has the identifier, one is the first to have it.
pub proof fn lemma_first_exists(plates: Seq<PlateInstance>, id: u128, k: int)
    requires
        0 <= k < plates.len(),
        plates[k].id == id,
    ensures
        exists|i: int| is_first(plates, id, i),
    decreases k,
{
    if exists|j: int| 0 <= j < k && (#[trigger] plates[j]).id == id {
        let j = choose|j: int| 0 <= j < k && (#[trigger] plates[j]).id == id;
        lemma_first_exists(plates, id, j);
    } else {
        assert(is_first(plates, id, k));
    }
}

/// Only one place is the first.
pub proof fn lemma_first_is_unique(plates: Seq<PlateInstance>, id: u128, i: int, j: int)
    requires
        is_first(plates, id, i),
        is_first(plates, id, j),
    ensures
        i == j,
{
    if i < j {
        assert(plates[i].id != id);
    } else if j < i {
        assert(plates[j].id != id);
    }
}

/// With a plate gone, no transfer is anchored that was not before, so
/// filtering twice keeps what the later filter keeps.
pub proof fn lemma_purge_twice(
    transfers: Seq<Transfer>,
    wide: spec_fn(Transfer) -> bool,
    narrow: spec_fn(Transfer) -> bool,
)
    requires
        forall|t: Transfer| #[trigger] narrow(t) ==> wide(t),
    ensures
        transfers.filter(wide).filter(narrow) == transfers.filter(narrow),
    decreases transfers.len(),
{
    reveal(Seq::filter);
    if transfers.len() > 0 {
        let head = transfers.drop_last();
        let last = transfers.last();
        lemma_purge_twice(head, wide, narrow);
        assert(transfers =~= head.push(last));
        head.lemma_filter_push(last, wide);
        head.lemma_filter_push(last, narrow);
        if wide(last) {
            head.filter(wide).lemma_filter_push(last, narrow);
        }
    }
}

/// A plate that is among the plates left was among them before.
pub proof fn lemma_without_keeps_no_more(plates: Seq<PlateInstance>, gone: u128, id: u128)
    requires
        has_plate(without(plates, gone), id),
    ensures
        has_plate(plates, id),
{
    if has_plate(plates, gone) {
        let left = without(plates, gone);
        let k = choose|k: int| 0 <= k < left.len() && (#[trigger] left[k]).id == id;
        let g = choose|g: int| 0 <= g < plates.len() && (#[trigger] plates[g]).id == gone;
        lemma_first_exists(plates, gone, g);
        let i = choose|i: int| is_first(plates, gone, i);
        if k == i {
            assert(plates[plates.len() - 1].id == id);
        } else {
            assert(plates[k].id == id);
        }
    }
}

/// The place of the first plate with the identifier `id`.
pub fn find_plate(plates: &Vec<PlateInstance>, id: u128) -> (r: Option<usize>)
    ensures
        match r {
            Some(i) => is_first(plates@, id, i as int),
            None => !has_plate(plates@, id),
        },
{
    let mut k: usize = 0;
    while k < plates.len()
        invariant
            k <= plates@.len(),
            forall|j: int| 0 <= j < k ==> (#[trigger] plates@[j]).id != id,
        decreases plates@.len() - k,
    {
        if plates[k].get_uuid() == id {
            return Some(k);
        }
        k = k + 1;
    }
    None
}

/// The place of the first plate with the name `name`.
pub fn find_plate_named(plates: &Vec<PlateInstance>, name: &str) -> (r: Option<usize>)
    ensures
        match r {
            Some(i) => is_first_named(plates@, name@, i as int),
            None => !has_plate_named(plates@, name@),
        },
{
    let wanted = name.to_owned();
    let mut k: usize = 0;
    while k < plates.len()
        invariant
            k <= plates@.len(),
            wanted@ == name@,
            forall|j: int| 0 <= j < k ==> (#[trigger] plates@[j]).name@ != name@,
        decreases plates@.len() - k,
    {
        if plates[k].name == wanted {
            return Some(k);
        }
        k = k + 1;
    }
    None
}

/// The place of the first transfer with the identifier `id`.
pub fn find_transfer(transfers: &Vec<Transfer>, id: u128) -> (r: Option<usize>)
    ensures
        match r {
            Some(i) => is_first_transfer(transfers@, id, i as int),
            None => !has_transfer(transfers@, id),
        },
{
    let mut k: usize = 0;
    while k < transfers.len()
        invariant
            k <= transfers@.len(),
            forall|j: int| 0 <= j < k ==> (#[trigger] transfers@[j]).id != id,
        decreases transfers@.len() - k,
    {
        if transfers[k].get_uuid() == id {
            return Some(k);
        }
        k = k + 1;
    }
    None
}

impl MainState {
    /// Saves the transfer that is being edited.
    ///
    /// With no transfer selected, a new transfer with the name and the
    /// region of `draft` is declared between the selected plates, put last
    /// and selected; where a selected plate is not declared, nothing
    /// changes. With a transfer selected, the first transfer with the
    /// selected identifier becomes a copy of `draft`; where there is none,
    /// nothing changes.
    pub fn save_transfer(&mut self, draft: &Transfer)
        ensures
            final(self).source_plates == old(self).source_plates,
            final(self).destination_plates == old(self).destination_plates,
            final(self).selected_source_plate == old(self).selected_source_plate,
            final(self).selected_dest_plate == old(self).selected_dest_plate,
            final(self).preferences == old(self).preferences,
            old(self).selected_transfer == NIL_ID && has_plate(
                old(self).source_plates@,
                old(self).selected_source_plate,
            ) && has_plate(old(self).destination_plates@, old(self).selected_dest_plate) ==> {
                &&& final(self).transfers@.len() == old(self).transfers@.len() + 1
                &&& final(self).transfers@.drop_last() == old(self).transfers@
                &&& declared_from(
                    final(self).transfers@.last(),
                    *draft,
                    old(self).selected_source_plate,
                    old(self).selected_dest_plate,
                )
                &&& final(self).selected_transfer == final(self).transfers@.last().id
            },
            old(self).selected_transfer == NIL_ID && !(has_plate(
                old(self).source_plates@,
                old(self).selected_source_plate,
            ) && has_plate(old(self).destination_plates@, old(self).selected_dest_plate)) ==> {
                &&& final(self).transfers@ == old(self).transfers@
                &&& final(self).selected_transfer == NIL_ID
            },
            old(self).selected_transfer != NIL_ID ==> {
                &&& final(self).selected_transfer == old(self).selected_transfer
                &&& final(self).transfers@.len() == old(self).transfers@.len()
                &&& forall|j: int|
                    0 <= j < old(self).transfers@.len() ==> if is_first_transfer(
                        old(self).transfers@,
                        old(self).selected_transfer,
                        j,
                    ) {
                        same_transfer(#[trigger] final(self).transfers@[j], *draft)
                    } else {
                        final(self).transfers@[j] == old(self).transfers@[j]
                    }
            },
    {
        if self.selected_transfer == NIL_ID {
            let source = match find_plate(&self.source_plates, self.selected_source_plate) {
                Some(index) => self.source_plates[index].clone(),
                None => {
                    return ;
                },
            };
            let dest = match find_plate(&self.destination_plates, self.selected_dest_plate) {
                Some(index) => self.destination_plates[index].clone(),
                None => {
                    return ;
                },
            };
            let made = Transfer::new(source, dest, draft.transfer_region.clone(), draft.name.clone());
            let ghost before = self.transfers@;
            self.selected_transfer = made.get_uuid();
            self.transfers.push(made);
            assert(self.transfers@.drop_last() =~= before);
        } else {
            match find_transfer(&self.transfers, self.selected_transfer) {
                Some(index) => {
                    let ghost before = self.transfers@;
                    let ghost id = self.selected_transfer;
                    self.transfers[index] = draft.clone();
                    proof {
                        assert forall|j: int| 0 <= j < before.len() && is_first_transfer(
                            before,
                            id,
                            j,
                        ) implies j == index by {
                            if j < index {
                                assert(before[j].id != id);
                            } else if index < j {
                                assert(before[index as int].id != id);
                            }
                        }
                    }
                },
                None => {},
            }
        }
    }

    /// Declares the transfer that moves liquid as `pairs` say, between the
    /// first source plate named `to_source` and the first destination plate
    /// named `to_dest`, under the name `Custom Transfer`; the transfer is
    /// put last and selected. Where a plate of that name is not declared,
    /// nothing changes. Says whether the transfer was declared.
    pub fn import_transfer(
        &mut self,
        pairs: &[((u8, u8), (u8, u8))],
        to_source: &str,
        to_dest: &str,
    ) -> (imported: bool)
        ensures
            imported == (has_plate_named(old(self).source_plates@, to_source@) && has_plate_named(
                old(self).destination_plates@,
                to_dest@,
            )),
            final(self).source_plates == old(self).source_plates,
            final(self).destination_plates == old(self).destination_plates,
            final(self).selected_source_plate == old(self).selected_source_plate,
            final(self).selected_dest_plate == old(self).selected_dest_plate,
            final(self).preferences == old(self).preferences,
            !imported ==> {
                &&& final(self).transfers@ == old(self).transfers@
                &&& final(self).selected_transfer == old(self).selected_transfer
            },
            imported ==> {
                let made = final(self).transfers@.last();
                &&& final(self).transfers@.len() == old(self).transfers@.len() + 1
                &&& final(self).transfers@.drop_last() == old(self).transfers@
                &&& final(self).selected_transfer == made.id
                &&& made.name@ == "Custom Transfer"@
                &&& made.volume_bits == crate::transfer::DEFAULT_VOLUME_BITS
                &&& exists|i: int, j: int|
                    {
                        &&& is_first_named(old(self).source_plates@, to_source@, i)
                        &&& is_first_named(old(self).destination_plates@, to_dest@, j)
                        &&& made.source_id == old(self).source_plates@[i].id
                        &&& made.dest_id == old(self).destination_plates@[j].id
                        &&& made.transfer_region@ == custom_transfer(
                            pairs@,
                            old(self).source_plates@[i].plate,
                            old(self).destination_plates@[j].plate,
                        )
                    }
            },
    {
        let source_index = match find_plate_named(&self.source_plates, to_source) {
            Some(index) => index,
            None => {
                return false;
            },
        };
        let dest_index = match find_plate_named(&self.destination_plates, to_dest) {
            Some(index) => index,
            None => {
                return false;
            },
        };
        let source = self.source_plates[source_index].clone();
        let dest = self.destination_plates[dest_index].clone();
        let region = Region::new_custom(pairs);
        let transfer_region = TransferRegion {
            source_region: region.clone(),
            dest_region: region,
            interleave_source: (1, 1),
            interleave_dest: (1, 1),
            source_plate: source.plate,
            dest_plate: dest.plate,
        };
        let made = Transfer::new(source, dest, transfer_region, String::from_str("Custom Transfer"));
        let ghost before = self.transfers@;
        let ghost last = made;
        self.selected_transfer = made.get_uuid();
        self.transfers.push(made);
        proof {
            assert(self.transfers@.drop_last() =~= before);
            assert(self.transfers@.last() == last);
            assert(is_first_named(self.source_plates@, to_source@, source_index as int));
            assert(is_first_named(self.destination_plates@, to_dest@, dest_index as int));
            assert(last.transfer_region@ == custom_transfer(
                pairs@,
                self.source_plates@[source_index as int].plate,
                self.destination_plates@[dest_index as int].plate,
            ));
        }
        true
    }

    /// Takes the first transfer with the identifier `id` away and leaves no
    /// transfer selected, and says whether it did. With no transfer
    /// selected, or none with the identifier, nothing changes.
    pub fn delete_transfer(&mut self, id: u128) -> (gone: bool)
        ensures
            gone == (old(self).selected_transfer != NIL_ID && has_transfer(
                old(self).transfers@,
                id,
            )),
            final(self).transfers@ == if gone {
                without_transfer(old(self).transfers@, id)
            } else {
                old(self).transfers@
            },
            final(self).selected_transfer == if gone {
                NIL_ID
            } else {
                old(self).selected_transfer
            },
            final(self).source_plates == old(self).source_plates,
            final(self).destination_plates == old(self).destination_plates,
            final(self).selected_source_plate == old(self).selected_source_plate,
            final(self).selected_dest_plate == old(self).selected_dest_plate,
            final(self).preferences == old(self).preferences,
    {
        if self.selected_transfer == NIL_ID {
            return false;
        }
        match find_transfer(&self.transfers, id) {
            Some(index) => {
                let ghost before = self.transfers@;
                self.transfers.remove(index);
                self.selected_transfer = NIL_ID;
                proof {
                    let i = choose|i: int| is_first_transfer(before, id, i);
                    if i < index {
                        assert(before[i].id != id);
                    } else if index < i {
                        assert(before[index as int].id != id);
                    }
                }
                true
            },
            None => false,
        }
    }

    /// Drops the transfers of which a plate is gone; the others stay in
    /// their order.
    pub fn purge_transfers(&mut self)
        ensures
            final(self).transfers@ == old(self).transfers@.filter(
                |t: Transfer| anchored(old(self).source_plates@, old(self).destination_plates@, t),
            ),
            final(self).source_plates == old(self).source_plates,
            final(self).destination_plates == old(self).destination_plates,
            final(self).selected_source_plate == old(self).selected_source_plate,
            final(self).selected_dest_plate == old(self).selected_dest_plate,
            final(self).selected_transfer == old(self).selected_transfer,
            final(self).preferences == old(self).preferences,
    {
        let ghost all = self.transfers@;
        let ghost keep = |t: Transfer| anchored(self.source_plates@, self.destination_plates@, t);
        let ghost mut seen: int = 0;
        let mut k: usize = 0;
        proof {
            reveal(Seq::filter);
            assert(all.take(0) =~= Seq::<Transfer>::empty());
            assert(self.transfers@.take(0) =~= Seq::<Transfer>::empty());
        }
        while k < self.transfers.len()
            invariant
                0 <= seen <= all.len(),
                k <= self.transfers@.len(),
                self.transfers@.len() - k == all.len() - seen,
                self.transfers@.take(k as int) == all.take(seen).filter(keep),
                forall|i: int|
                    0 <= i < all.len() - seen ==> #[trigger] self.transfers@[k + i] == all[seen
                        + i],
                keep == |t: Transfer| anchored(self.source_plates@, self.destination_plates@, t),
                self.source_plates == old(self).source_plates,
                self.destination_plates == old(self).destination_plates,
                self.selected_source_plate == old(self).selected_source_plate,
                self.selected_dest_plate == old(self).selected_dest_plate,
                self.selected_transfer == old(self).selected_transfer,
                self.preferences == old(self).preferences,
            decreases all.len() - seen,
        {
            let ghost before = self.transfers@;
            proof {
                assert(before[k + 0] == all[seen + 0]);
                assert(all.take(seen + 1) =~= all.take(seen).push(all[seen]));
                all.take(seen).lemma_filter_push(all[seen], keep);
            }
            let anchored_here = find_plate(&self.source_plates, self.transfers[k].source_id).is_some()
                && find_plate(&self.destination_plates, self.transfers[k].dest_id).is_some();
            if anchored_here {
                proof {
                    assert(before.take(k + 1) =~= before.take(k as int).push(before[k as int]));
                    assert forall|i: int| 0 <= i < all.len() - (seen + 1) implies #[trigger] before[k
                        + 1 + i] == all[seen + 1 + i] by {
                        assert(before[k + (i + 1)] == all[seen + (i + 1)]);
                    }
                }
                k = k + 1;
            } else {
                self.transfers.remove(k);
                proof {
                    assert(self.transfers@.take(k as int) =~= before.take(k as int));
                    assert forall|i: int| 0 <= i < all.len() - (seen + 1) implies #[trigger] self.transfers@[k
                        + i] == all[seen + 1 + i] by {
                        assert(before[k + (i + 1)] == all[seen + (i + 1)]);
                    }
                }
            }
            proof {
                seen = seen + 1;
            }
        }
        proof {
            assert(self.transfers@.take(k as int) =~= self.transfers@);
            assert(all.take(seen) =~= all);
        }
    }

    /// Declares a source plate.
    pub fn add_source_plate(&mut self, plate: PlateInstance)
        requires
            plate.plate.plate_type == PlateType::Source,
        ensures
            final(self).source_plates@ == old(self).source_plates@.push(plate),
            final(self).destination_plates == old(self).destination_plates,
            final(self).transfers == old(self).transfers,
            final(self).selected_source_plate == old(self).selected_source_plate,
            final(self).selected_dest_plate == old(self).selected_dest_plate,
            final(self).selected_transfer == old(self).selected_transfer,
            final(self).preferences == old(self).preferences,
    {
        self.source_plates.push(plate);
    }

    /// Declares a destination plate.
    pub fn add_dest_plate(&mut self, plate: PlateInstance)
        requires
            plate.plate.plate_type == PlateType::Destination,
        ensures
            final(self).destination_plates@ == old(self).destination_plates@.push(plate),
            final(self).source_plates == old(self).source_plates,
            final(self).transfers == old(self).transfers,
            final(self).selected_source_plate == old(self).selected_source_plate,
            final(self).selected_dest_plate == old(self).selected_dest_plate,
            final(self).selected_transfer == old(self).selected_transfer,
            final(self).preferences == old(self).preferences,
    {
        self.destination_plates.push(plate);
    }

    /// Takes the plate with the identifier `id` away, from the source
    /// plates and from the destination plates, and with it the transfers
    /// that are left without one of their plates. Where no plate has the
    /// identifier, nothing changes.
    pub fn del_plate(&mut self, id: u128)
        ensures
            final(self).source_plates@ == without(old(self).source_plates@, id),
            final(self).destination_plates@ == without(old(self).destination_plates@, id),
            final(self).transfers@ == if has_plate(old(self).source_plates@, id) || has_plate(
                old(self).destination_plates@,
                id,
            ) {
                old(self).transfers@.filter(
                    |t: Transfer|
                        anchored(final(self).source_plates@, final(self).destination_plates@, t),
                )
            } else {
                old(self).transfers@
            },
            final(self).selected_source_plate == old(self).selected_source_plate,
            final(self).selected_dest_plate == old(self).selected_dest_plate,
            final(self).selected_transfer == old(self).selected_transfer,
            final(self).preferences == old(self).preferences,
    {
        let ghost sources = self.source_plates@;
        let ghost destinations = self.destination_plates@;
        let ghost transfers = self.transfers@;
        let ghost mut halfway = transfers;
        match find_plate(&self.source_plates, id) {
            Some(index) => {
                proof {
                    assert(is_first(sources, id, index as int));
                    let i = choose|i: int| is_first(sources, id, i);
                    lemma_first_is_unique(sources, id, i, index as int);
                }
                self.source_plates.swap_remove(index);
                self.purge_transfers();
                proof {
                    halfway = self.transfers@;
                }
            },
            None => {},
        }
        match find_plate(&self.destination_plates, id) {
            Some(index) => {
                proof {
                    assert(is_first(destinations, id, index as int));
                    let i = choose|i: int| is_first(destinations, id, i);
                    lemma_first_is_unique(destinations, id, i, index as int);
                }
                self.destination_plates.swap_remove(index);
                self.purge_transfers();
                proof {
                    let wide = |t: Transfer| anchored(self.source_plates@, destinations, t);
                    let narrow = |t: Transfer|
                        anchored(self.source_plates@, self.destination_plates@, t);
                    assert forall|t: Transfer| #[trigger] narrow(t) implies wide(t) by {
                        lemma_without_keeps_no_more(destinations, id, t.dest_id);
                    }
                    if has_plate(sources, id) {
                        lemma_purge_twice(transfers, wide, narrow);
                    }
                }
            },
            None => {},
        }
    }

    /// Names the plate with the identifier `id`, among the source plates
    /// and among the destination plates. Where no plate has the identifier,
    /// nothing changes.
    pub fn rename_plate(&mut self, id: u128, new_name: &str)
        ensures
            renamed(old(self).source_plates@, final(self).source_plates@, id, new_name@),
            renamed(old(self).destination_plates@, final(self).destination_plates@, id, new_name@),
            final(self).transfers == old(self).transfers,
            final(self).selected_source_plate == old(self).selected_source_plate,
            final(self).selected_dest_plate == old(self).selected_dest_plate,
            final(self).selected_transfer == old(self).selected_transfer,
            final(self).preferences == old(self).preferences,
    {
        let ghost sources = self.source_plates@;
        let ghost destinations = self.destination_plates@;
        match find_plate(&self.source_plates, id) {
            Some(index) => {
                self.source_plates[index].change_name(new_name.to_owned());
                proof {
                    assert forall|j: int| 0 <= j < sources.len() && is_first(
                        sources,
                        id,
                        j,
                    ) implies j == index by {
                        lemma_first_is_unique(sources, id, j, index as int);
                    }
                }
            },
            None => {},
        }
        match find_plate(&self.destination_plates, id) {
            Some(index) => {
                self.destination_plates[index].change_name(new_name.to_owned());
                proof {
                    assert forall|j: int| 0 <= j < destinations.len() && is_first(
                        destinations,
                        id,
                        j,
                    ) implies j == index by {
                        lemma_first_is_unique(destinations, id, j, index as int);
                    }
                }
            },
            None => {},
        }
    }
}

} // verus!
