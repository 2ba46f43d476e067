//! Which transfers use which wells of a plate, for marking the wells on a
//! picture of the plate and saying by whom each is used.

use vstd::prelude::*;
use vstd::string::StringExecFns;
use crate::transfer::Transfer;
use crate::transfer_region::has_well;

verus! {

/// The wells of the plate with the identifier `plate` that a transfer uses:
/// its source wells if the plate is its source, else none.
pub open spec fn taken_from(transfer: Transfer, plate: u128) -> Seq<(u8, u8)> {
    if transfer.source_id == plate {
        transfer.transfer_region@.source_wells()
    } else {
        Seq::empty()
    }
}

/// The wells of the plate with the identifier `plate` that a transfer
/// feeds: its destination wells if the plate is its destination, else none.
pub open spec fn put_into(transfer: Transfer, plate: u128) -> Seq<(u8, u8)> {
    if transfer.dest_id == plate {
        transfer.transfer_region@.destination_wells()
    } else {
        Seq::empty()
    }
}

/// What a list of lists of wells holds.
pub open spec fn well_lists(lists: Seq<Vec<(u8, u8)>>) -> Seq<Seq<(u8, u8)>> {
    lists.map_values(|wells: Vec<(u8, u8)>| wells@)
}

/// The places in `lists` of the lists that hold `well`, in rising order.
pub open spec fn users(lists: Seq<Seq<(u8, u8)>>, well: (u8, u8)) -> Seq<usize>
    decreases lists.len(),
{
    if lists.len() == 0 {
        Seq::empty()
    } else {
        let before = users(lists.drop_last(), well);
        if lists.last().contains(well) {
            before.push((lists.len() - 1) as usize)
        } else {
            before
        }
    }
}

/// The names of the transfers at the given places, with a comma and a
/// blank between one and the next.
pub open spec fn joined_names(transfers: Seq<Transfer>, places: Seq<usize>) -> Seq<char>
    decreases places.len(),
{
    if places.len() == 0 {
        Seq::empty()
    } else if places.len() == 1 {
        transfers[places[0] as int].name@
    } else {
        joined_names(transfers, places.drop_last()) + ", "@ + transfers[places.last() as int].name@
    }
}

/// How many transfers have an identifier below `id`: the place of `id`
/// among the identifiers in rising order, where no two are the same.
pub open spec fn rank(transfers: Seq<Transfer>, id: u128) -> nat {
    transfers.filter(|t: Transfer| t.id < id).len()
}

/// For each transfer, the wells that it takes from the plate with the
/// identifier `plate`.
pub fn source_wells_in_use(transfers: &Vec<Transfer>, plate: u128) -> (lists: Vec<Vec<(u8, u8)>>)
    ensures
        well_lists(lists@) == transfers@.map_values(|t: Transfer| taken_from(t, plate)),
{
    let mut lists: Vec<Vec<(u8, u8)>> = Vec::new();
    let mut k: usize = 0;
    while k < transfers.len()
        invariant
            k <= transfers@.len(),
            well_lists(lists@) == transfers@.take(k as int).map_values(
                |t: Transfer| taken_from(t, plate),
            ),
        decreases transfers@.len() - k,
    {
        let ghost before = lists@;
        let wells = if transfers[k].source_id == plate {
            transfers[k].transfer_region.get_source_wells()
        } else {
            Vec::new()
        };
        lists.push(wells);
        k = k + 1;
        assert(well_lists(lists@) =~= well_lists(before).push(wells@));
        assert(well_lists(lists@) =~= transfers@.take(k as int).map_values(
            |t: Transfer| taken_from(t, plate),
        ));
    }
    assert(transfers@.take(k as int) =~= transfers@);
    lists
}

/// For each transfer, the wells that it feeds on the plate with the
/// identifier `plate`.
pub fn destination_wells_in_use(transfers: &Vec<Transfer>, plate: u128) -> (lists: Vec<
    Vec<(u8, u8)>,
>)
    ensures
        well_lists(lists@) == transfers@.map_values(|t: Transfer| put_into(t, plate)),
{
    let mut lists: Vec<Vec<(u8, u8)>> = Vec::new();
    let mut k: usize = 0;
    while k < transfers.len()
        invariant
            k <= transfers@.len(),
            well_lists(lists@) == transfers@.take(k as int).map_values(
                |t: Transfer| put_into(t, plate),
            ),
        decreases transfers@.len() - k,
    {
        let ghost before = lists@;
        let wells = if transfers[k].dest_id == plate {
            transfers[k].transfer_region.get_destination_wells()
        } else {
            Vec::new()
        };
        lists.push(wells);
        k = k + 1;
        assert(well_lists(lists@) =~= well_lists(before).push(wells@));
        assert(well_lists(lists@) =~= transfers@.take(k as int).map_values(
            |t: Transfer| put_into(t, plate),
        ));
    }
    assert(transfers@.take(k as int) =~= transfers@);
    lists
}

/// The places in `lists` of the lists that hold `well`, in rising order.
pub fn users_of(lists: &Vec<Vec<(u8, u8)>>, well: (u8, u8)) -> (places: Vec<usize>)
    ensures
        places@ == users(well_lists(lists@), well),
        forall|i: int| 0 <= i < places@.len() ==> places@[i] < lists@.len(),
{
    let ghost all = well_lists(lists@);
    let mut places: Vec<usize> = Vec::new();
    let mut k: usize = 0;
    proof {
        assert(all.take(0) =~= Seq::<Seq<(u8, u8)>>::empty());
    }
    while k < lists.len()
        invariant
            k <= lists@.len(),
            all == well_lists(lists@),
            places@ == users(all.take(k as int), well),
            forall|i: int| 0 <= i < places@.len() ==> places@[i] < k,
        decreases lists@.len() - k,
    {
        proof {
            assert(all.take(k + 1).drop_last() =~= all.take(k as int));
            assert(all.take(k + 1).last() == lists@[k as int]@);
        }
        if has_well(&lists[k], well) {
            places.push(k);
        }
        k = k + 1;
    }
    assert(all.take(k as int) =~= all);
    places
}

/// The names of the transfers at the given places, with a comma and a
/// blank between one and the next.
pub fn names_joined(transfers: &Vec<Transfer>, places: &Vec<usize>) -> (text: String)
    requires
        forall|i: int| 0 <= i < places@.len() ==> places@[i] < transfers@.len(),
    ensures
        text@ == joined_names(transfers@, places@),
{
    let mut text = String::new();
    let mut k: usize = 0;
    proof {
        assert(places@.take(0) =~= Seq::<usize>::empty());
    }
    while k < places.len()
        invariant
            k <= places@.len(),
            forall|i: int| 0 <= i < places@.len() ==> places@[i] < transfers@.len(),
            text@ == joined_names(transfers@, places@.take(k as int)),
        decreases places@.len() - k,
    {
        proof {
            assert(places@.take(k + 1).drop_last() =~= places@.take(k as int));
            assert(places@.take(k + 1).last() == places@[k as int]);
            if k == 0 {
                assert(Seq::<char>::empty() + transfers@[places@[0] as int].name@
                    =~= transfers@[places@[0] as int].name@);
                assert(places@.take(1)[0] == places@[0]);
            }
        }
        if k > 0 {
            text.append(", ");
        }
        text.append(transfers[places[k]].name.as_str());
        k = k + 1;
    }
    assert(places@.take(k as int) =~= places@);
    text
}

/// How many transfers have an identifier below `id`.
pub fn rank_of(transfers: &Vec<Transfer>, id: u128) -> (r: usize)
    ensures
        r == rank(transfers@, id),
{
    let ghost below = |t: Transfer| t.id < id;
    let mut count: usize = 0;
    let mut k: usize = 0;
    proof {
        reveal(Seq::filter);
        assert(transfers@.take(0) =~= Seq::<Transfer>::empty());
    }
    while k < transfers.len()
        invariant
            k <= transfers@.len(),
            below == |t: Transfer| t.id < id,
            count == transfers@.take(k as int).filter(below).len(),
            count <= k,
        decreases transfers@.len() - k,
    {
        proof {
            assert(transfers@.take(k + 1) =~= transfers@.take(k as int).push(transfers@[k as int]));
            transfers@.take(k as int).lemma_filter_push(transfers@[k as int], below);
        }
        if transfers[k].id < id {
            count = count + 1;
        }
        k = k + 1;
    }
    assert(transfers@.take(k as int) =~= transfers@);
    count
}

} // verus!
