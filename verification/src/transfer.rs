//! Transfers as the user declares them: a transfer region between two
//! declared plates, with a name, an identifier and a volume.

use vstd::prelude::*;
use vstd::string::StringExecFns;
use crate::identity::fresh_id;
use crate::identity::NIL_ID;
use crate::plate_instances::PlateInstance;
use crate::transfer_region::TransferModel;
use crate::transfer_region::TransferRegion;

verus! {

/// The volume of a transfer for which none was given: 2.5, as the bits of
/// a single-precision number.
pub const DEFAULT_VOLUME_BITS: u32 = 0x4020_0000;

/// A declared transfer. The volume is carried, never computed with: it is
/// held as the bits of a single-precision number.
#[derive(PartialEq, Debug)]
#[non_exhaustive]
pub struct Transfer {
    pub source_id: u128,
    pub dest_id: u128,
    pub name: String,
    pub id: u128,
    pub transfer_region: TransferRegion,
    pub volume_bits: u32,
}

impl Clone for Transfer {
    fn clone(&self) -> (r: Self)
        ensures
            r.source_id == self.source_id,
            r.dest_id == self.dest_id,
            r.name == self.name,
            r.id == self.id,
            r.transfer_region@ == self.transfer_region@,
            r.volume_bits == self.volume_bits,
    {
        Transfer {
            source_id: self.source_id,
            dest_id: self.dest_id,
            name: self.name.clone(),
            id: self.id,
            transfer_region: self.transfer_region.clone(),
            volume_bits: self.volume_bits,
        }
    }
}

impl Default for Transfer {
    fn default() -> (r: Self)
        ensures
            r.source_id == NIL_ID,
            r.dest_id == NIL_ID,
            r.id == NIL_ID,
            r.name@ == "New Transfer"@,
            r.volume_bits == DEFAULT_VOLUME_BITS,
            r.transfer_region@ == TransferModel::initial(),
    {
        Transfer {
            source_id: NIL_ID,
            dest_id: NIL_ID,
            name: String::from_str("New Transfer"),
            id: NIL_ID,
            transfer_region: TransferRegion::default(),
            volume_bits: DEFAULT_VOLUME_BITS,
        }
    }
}

impl Transfer {
    /// Declares a transfer between two declared plates under a new
    /// identifier, with the volume for which none was given.
    pub fn new(source: PlateInstance, dest: PlateInstance, tr: TransferRegion, name: String) -> (r:
        Self)
        ensures
            r.source_id == source.id,
            r.dest_id == dest.id,
            r.name == name,
            r.transfer_region == tr,
            r.volume_bits == DEFAULT_VOLUME_BITS,
    {
        Transfer {
            source_id: source.get_uuid(),
            dest_id: dest.get_uuid(),
            name,
            id: fresh_id(),
            transfer_region: tr,
            volume_bits: DEFAULT_VOLUME_BITS,
        }
    }

    /// A declared transfer as it was saved.
    pub fn restore(
        source_id: u128,
        dest_id: u128,
        name: String,
        id: u128,
        transfer_region: TransferRegion,
        volume_bits: u32,
    ) -> (r: Self)
        ensures
            r.source_id == source_id,
            r.dest_id == dest_id,
            r.name == name,
            r.id == id,
            r.transfer_region == transfer_region,
            r.volume_bits == volume_bits,
    {
        Transfer { source_id, dest_id, name, id, transfer_region, volume_bits }
    }

    /// The identifier of the transfer.
    pub fn get_uuid(&self) -> (r: u128)
        ensures
            r == self.id,
    {
        self.id
    }
}

} // verus!
