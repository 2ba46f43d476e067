//! Flat transfer records: one line for each pair of a source well and a
//! destination well it feeds, as handed to a liquid-handling robot.

use vstd::prelude::*;
use crate::plate_instances::PlateInstance;
use crate::states::find_plate;
use crate::states::has_plate;
use crate::states::is_first;
use crate::states::lemma_first_is_unique;
use crate::states::MainState;
use crate::transfer::Transfer;
use crate::transfer_region::TransferModel;
use crate::region_display::parse_well;
use crate::region_display::read_well_text;
use crate::well_name::well_label;
use crate::well_name::well_name;

verus! {

/// One line of the record: the plates by name, the wells by name, and the
/// volume to move. Volume and concentration are carried as the bits of
/// single-precision numbers.
#[derive(PartialEq, Debug)]
pub struct TransferRecord {
    pub source_plate: String,
    pub source_well: String,
    pub destination_plate: String,
    pub destination_well: String,
    pub volume_bits: u32,
    pub concentration_bits: Option<u32>,
}

/// What a record holds, as plain values.
pub struct RecordModel {
    pub source_plate: Seq<char>,
    pub source_well: Seq<char>,
    pub destination_plate: Seq<char>,
    pub destination_well: Seq<char>,
    pub volume_bits: u32,
    pub concentration_bits: Option<u32>,
}

impl View for TransferRecord {
    type V = RecordModel;

    open spec fn view(&self) -> RecordModel {
        RecordModel {
            source_plate: self.source_plate@,
            source_well: self.source_well@,
            destination_plate: self.destination_plate@,
            destination_well: self.destination_well@,
            volume_bits: self.volume_bits,
            concentration_bits: self.concentration_bits,
        }
    }
}

/// Why a session cannot be written as records.
#[derive(PartialEq, Eq, Structural, Clone, Copy, Debug)]
pub enum ExportFault {
    /// A transfer names a plate that is not declared.
    Unpurged,
    /// A well of a transfer has a first coordinate of 0, which no letters
    /// stand for.
    UnnamedWell,
}

impl ExportFault {
    /// The words in which the fault is reported.
    pub open spec fn label(self) -> &'static str {
        match self {
            ExportFault::Unpurged => "Found unpurged transfer",
            ExportFault::UnnamedWell => "Found a well without a name",
        }
    }

    /// The words in which the fault is reported.
    pub fn message(&self) -> (m: &'static str)
        ensures
            m == self.label(),
    {
        match self {
            ExportFault::Unpurged => "Found unpurged transfer",
            ExportFault::UnnamedWell => "Found a well without a name",
        }
    }
}

/// What a list of records holds.
pub open spec fn models(records: Seq<TransferRecord>) -> Seq<RecordModel> {
    records.map_values(|record: TransferRecord| record@)
}

/// Whether both wells of every pair have a name.
pub open spec fn nameable(pairs: Seq<((u8, u8), (u8, u8))>) -> bool {
    forall|i: int| 0 <= i < pairs.len() ==> (#[trigger] pairs[i]).0.0 != 0 && pairs[i].1.0 != 0
}

/// The record of one pair of wells.
pub open spec fn record_of(
    pair: ((u8, u8), (u8, u8)),
    src_barcode: Seq<char>,
    dest_barcode: Seq<char>,
    volume_bits: u32,
) -> RecordModel {
    RecordModel {
        source_plate: src_barcode,
        source_well: well_label(pair.0).unwrap(),
        destination_plate: dest_barcode,
        destination_well: well_label(pair.1).unwrap(),
        volume_bits,
        concentration_bits: None,
    }
}

/// The records of a transfer: one for each pair of a source well and a
/// destination well it feeds, in the order of the pairs. There are none if
/// a well of a pair has no name.
pub open spec fn transfer_records(
    transfer: TransferModel,
    src_barcode: Seq<char>,
    dest_barcode: Seq<char>,
    volume_bits: u32,
) -> Option<Seq<RecordModel>> {
    if nameable(transfer.pairs()) {
        Some(
            transfer.pairs().map_values(
                |pair: ((u8, u8), (u8, u8))| record_of(pair, src_barcode, dest_barcode, volume_bits),
            ),
        )
    } else {
        None
    }
}

/// The name of the first plate with the identifier `id`.
pub open spec fn name_of(plates: Seq<PlateInstance>, id: u128) -> Seq<char> {
    plates[choose|i: int| is_first(plates, id, i)].name@
}

/// The records of a list of transfers between the given plates, one
/// transfer after the other. The first transfer that names a plate that is
/// not declared, or that holds a well without a name, is the fault.
pub open spec fn session_records(
    sources: Seq<PlateInstance>,
    destinations: Seq<PlateInstance>,
    transfers: Seq<Transfer>,
) -> Result<Seq<RecordModel>, ExportFault>
    decreases transfers.len(),
{
    if transfers.len() == 0 {
        Ok(Seq::empty())
    } else {
        let transfer = transfers.last();
        match session_records(sources, destinations, transfers.drop_last()) {
            Err(fault) => Err(fault),
            Ok(before) => {
                if !has_plate(sources, transfer.source_id) || !has_plate(
                    destinations,
                    transfer.dest_id,
                ) {
                    Err(ExportFault::Unpurged)
                } else {
                    match transfer_records(
                        transfer.transfer_region@,
                        name_of(sources, transfer.source_id),
                        name_of(destinations, transfer.dest_id),
                        transfer.volume_bits,
                    ) {
                        Some(records) => Ok(before + records),
                        None => Err(ExportFault::UnnamedWell),
                    }
                }
            },
        }
    }
}

/// Writes a transfer as records, the plates under the given names. There
/// are none if a well has no name.
pub fn transfer_to_records(tr: &Transfer, src_barcode: &str, dest_barcode: &str) -> (r: Option<
    Vec<TransferRecord>,
>)
    ensures
        match r {
            Some(records) => Some(models(records@)) == transfer_records(
                tr.transfer_region@,
                src_barcode@,
                dest_barcode@,
                tr.volume_bits,
            ),
            None => transfer_records(
                tr.transfer_region@,
                src_barcode@,
                dest_barcode@,
                tr.volume_bits,
            ) is None,
        },
{
    let pairs = tr.transfer_region.get_transfer_pairs();
    let ghost written = |pair: ((u8, u8), (u8, u8))|
        record_of(pair, src_barcode@, dest_barcode@, tr.volume_bits);
    let mut records: Vec<TransferRecord> = Vec::new();
    let mut k: usize = 0;
    while k < pairs.len()
        invariant
            k <= pairs@.len(),
            pairs@ == tr.transfer_region@.pairs(),
            nameable(pairs@.take(k as int)),
            written == |pair: ((u8, u8), (u8, u8))|
                record_of(pair, src_barcode@, dest_barcode@, tr.volume_bits),
            models(records@) == pairs@.take(k as int).map_values(written),
        decreases pairs@.len() - k,
    {
        let pair = pairs[k];
        let source_well = match well_name(pair.0) {
            Some(name) => name,
            None => {
                return None;
            },
        };
        let destination_well = match well_name(pair.1) {
            Some(name) => name,
            None => {
                return None;
            },
        };
        let record = TransferRecord {
            source_plate: src_barcode.to_owned(),
            source_well,
            destination_plate: dest_barcode.to_owned(),
            destination_well,
            volume_bits: tr.volume_bits,
            concentration_bits: None,
        };
        assert(record@ == written(pair));
        let ghost before = records@;
        records.push(record);
        k = k + 1;
        proof {
            assert(models(records@) =~= models(before).push(record@));
            assert(pairs@.take(k as int) =~= pairs@.take(k - 1).push(pair));
            assert(models(records@) =~= pairs@.take(k as int).map_values(written));
            assert forall|i: int| 0 <= i < pairs@.take(k as int).len() implies (
            #[trigger] pairs@.take(k as int)[i]).0.0 != 0 && pairs@.take(k as int)[i].1.0 != 0 by {
                if i < k - 1 {
                    assert(pairs@.take(k as int)[i] == pairs@.take(k - 1)[i]);
                }
            }
        }
    }
    assert(pairs@.take(k as int) =~= pairs@);
    Some(records)
}

/// Writes every transfer of a session as records, each under the names of
/// its plates.
pub fn state_to_records(state: &MainState) -> (r: Result<Vec<TransferRecord>, &'static str>)
    ensures
        match session_records(state.source_plates@, state.destination_plates@, state.transfers@) {
            Ok(expected) => r matches Ok(records) && models(records@) == expected,
            Err(fault) => r == Err::<Vec<TransferRecord>, &'static str>(fault.label()),
        },
{
    let mut records: Vec<TransferRecord> = Vec::new();
    let mut k: usize = 0;
    proof {
        assert(state.transfers@.take(0) =~= Seq::<Transfer>::empty());
        assert(models(records@) =~= Seq::<RecordModel>::empty());
    }
    while k < state.transfers.len()
        invariant
            k <= state.transfers@.len(),
            session_records(
                state.source_plates@,
                state.destination_plates@,
                state.transfers@.take(k as int),
            ) == Ok::<Seq<RecordModel>, ExportFault>(models(records@)),
        decreases state.transfers@.len() - k,
    {
        let transfer = &state.transfers[k];
        proof {
            assert(state.transfers@.take(k + 1).drop_last() =~= state.transfers@.take(k as int));
            assert(state.transfers@.take(k + 1).last() == *transfer);
        }
        let source = match find_plate(&state.source_plates, transfer.source_id) {
            Some(index) => &state.source_plates[index],
            None => {
                proof {
                    lemma_fault_stays(
                        state.source_plates@,
                        state.destination_plates@,
                        state.transfers@,
                        k + 1,
                    );
                }
                return Err(ExportFault::Unpurged.message());
            },
        };
        let dest = match find_plate(&state.destination_plates, transfer.dest_id) {
            Some(index) => &state.destination_plates[index],
            None => {
                proof {
                    lemma_fault_stays(
                        state.source_plates@,
                        state.destination_plates@,
                        state.transfers@,
                        k + 1,
                    );
                }
                return Err(ExportFault::Unpurged.message());
            },
        };
        proof {
            let i = choose|i: int| is_first(state.source_plates@, transfer.source_id, i);
            let j = choose|j: int| is_first(state.destination_plates@, transfer.dest_id, j);
            assert forall|n: int| is_first(state.source_plates@, transfer.source_id, n) implies
                state.source_plates@[n] == *source by {
                lemma_first_is_unique(state.source_plates@, transfer.source_id, n, i);
            }
            assert forall|n: int| is_first(state.destination_plates@, transfer.dest_id, n) implies
                state.destination_plates@[n] == *dest by {
                lemma_first_is_unique(state.destination_plates@, transfer.dest_id, n, j);
            }
        }
        let ghost before = records@;
        match transfer_to_records(transfer, source.name.as_str(), dest.name.as_str()) {
            Some(mut more) => {
                proof {
                    assert(models(before + more@) =~= models(before) + models(more@));
                }
                records.append(&mut more);
            },
            None => {
                proof {
                    lemma_fault_stays(
                        state.source_plates@,
                        state.destination_plates@,
                        state.transfers@,
                        k + 1,
                    );
                }
                return Err(ExportFault::UnnamedWell.message());
            },
        }
        k = k + 1;
    }
    assert(state.transfers@.take(k as int) =~= state.transfers@);
    Ok(records)
}

/// The pairs of wells that the records between the plates named
/// `from_source` and `from_dest` name, in the order of the records. There
/// are none if one of these records names a well that does not read as
/// one.
pub open spec fn record_pairs(
    records: Seq<RecordModel>,
    from_source: Seq<char>,
    from_dest: Seq<char>,
) -> Option<Seq<((u8, u8), (u8, u8))>>
    decreases records.len(),
{
    if records.len() == 0 {
        Some(Seq::empty())
    } else {
        let record = records.last();
        match record_pairs(records.drop_last(), from_source, from_dest) {
            None => None,
            Some(before) => {
                if record.source_plate == from_source && record.destination_plate == from_dest {
                    match (
                        read_well_text(record.source_well),
                        read_well_text(record.destination_well),
                    ) {
                        (Some(source), Some(destination)) => Some(
                            before.push((source, destination)),
                        ),
                        _ => None,
                    }
                } else {
                    Some(before)
                }
            },
        }
    }
}

/// A failure to read a well among the first records of a list is one of
/// the list.
pub proof fn lemma_unread_stays(
    records: Seq<RecordModel>,
    from_source: Seq<char>,
    from_dest: Seq<char>,
    k: int,
)
    requires
        0 <= k <= records.len(),
        record_pairs(records.take(k), from_source, from_dest) is None,
    ensures
        record_pairs(records, from_source, from_dest) is None,
    decreases records.len() - k,
{
    if k < records.len() {
        assert(records.take(k + 1).drop_last() =~= records.take(k));
        lemma_unread_stays(records, from_source, from_dest, k + 1);
    } else {
        assert(records.take(k) =~= records);
    }
}

/// Reads the pairs of wells that the records between the plates named
/// `from_source` and `from_dest` name.
pub fn pairs_from_records(records: &Vec<TransferRecord>, from_source: &str, from_dest: &str) -> (r:
    Option<Vec<((u8, u8), (u8, u8))>>)
    ensures
        match r {
            Some(pairs) => record_pairs(models(records@), from_source@, from_dest@) == Some(pairs@),
            None => record_pairs(models(records@), from_source@, from_dest@) is None,
        },
{
    let wanted_source = from_source.to_owned();
    let wanted_dest = from_dest.to_owned();
    let ghost all = models(records@);
    let mut pairs: Vec<((u8, u8), (u8, u8))> = Vec::new();
    let mut k: usize = 0;
    proof {
        assert(all.take(0) =~= Seq::<RecordModel>::empty());
    }
    while k < records.len()
        invariant
            k <= records@.len(),
            all == models(records@),
            wanted_source@ == from_source@,
            wanted_dest@ == from_dest@,
            record_pairs(all.take(k as int), from_source@, from_dest@) == Some(pairs@),
        decreases records@.len() - k,
    {
        let record = &records[k];
        proof {
            assert(all.take(k + 1).drop_last() =~= all.take(k as int));
            assert(all.take(k + 1).last() == record@);
        }
        if record.source_plate == wanted_source && record.destination_plate == wanted_dest {
            match (
                parse_well(record.source_well.as_str()),
                parse_well(record.destination_well.as_str()),
            ) {
                (Some(source), Some(destination)) => {
                    pairs.push((source, destination));
                },
                _ => {
                    proof {
                        lemma_unread_stays(all, from_source@, from_dest@, k + 1);
                    }
                    return None;
                },
            }
        }
        k = k + 1;
    }
    assert(all.take(k as int) =~= all);
    Some(pairs)
}

/// A fault among the first transfers of a list is the fault of the list.
pub proof fn lemma_fault_stays(
    sources: Seq<PlateInstance>,
    destinations: Seq<PlateInstance>,
    transfers: Seq<Transfer>,
    k: int,
)
    requires
        0 <= k <= transfers.len(),
        session_records(sources, destinations, transfers.take(k)) is Err,
    ensures
        session_records(sources, destinations, transfers) == session_records(
            sources,
            destinations,
            transfers.take(k),
        ),
    decreases transfers.len() - k,
{
    if k < transfers.len() {
        assert(transfers.take(k + 1).drop_last() =~= transfers.take(k));
        lemma_fault_stays(sources, destinations, transfers, k + 1);
    } else {
        assert(transfers.take(k) =~= transfers);
    }
}

} // verus!
