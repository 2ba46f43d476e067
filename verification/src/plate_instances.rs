//! Plates as the user declares them: a plate with a name and an identifier.

use vstd::prelude::*;
use vstd::string::StringExecFns;
use crate::identity::fresh_id;
use crate::plate::Plate;
use crate::plate::PlateFormat;
use crate::plate::PlateType;

verus! {

/// A declared plate.
#[derive(PartialEq, Debug)]
pub struct PlateInstance {
    pub plate: Plate,
    pub id: u128,
    pub name: String,
}

impl Clone for PlateInstance {
    fn clone(&self) -> (r: Self)
        ensures
            r == *self,
    {
        PlateInstance { plate: self.plate, id: self.id, name: self.name.clone() }
    }
}

impl PlateInstance {
    /// Declares a plate of the given kind and layout under a new
    /// identifier.
    pub fn new(sort: PlateType, format: PlateFormat, name: String) -> (r: Self)
        ensures
            r.plate == (Plate { plate_type: sort, plate_format: format }),
            r.name == name,
    {
        PlateInstance { plate: Plate { plate_type: sort, plate_format: format }, id: fresh_id(), name }
    }

    /// Declares `plate` under a new identifier and the name `New Plate`.
    pub fn from_plate(plate: Plate) -> (r: Self)
        ensures
            r.plate == plate,
            r.name@ == "New Plate"@,
    {
        PlateInstance { plate, id: fresh_id(), name: String::from_str("New Plate") }
    }

    /// The plate in words: its name, a comma, and the number of its wells.
    pub fn label(&self) -> (r: String)
        ensures
            r@ == self.name@ + ", "@ + self.plate.plate_format.label()@,
    {
        let mut text = self.name.clone();
        text.append(", ");
        text.append(self.plate.plate_format.name());
        text
    }

    /// The identifier of the plate.
    pub fn get_uuid(&self) -> (r: u128)
        ensures
            r == self.id,
    {
        self.id
    }

    /// Gives the plate another name.
    pub fn change_name(&mut self, new_name: String)
        ensures
            final(self).name == new_name,
            final(self).plate == old(self).plate,
            final(self).id == old(self).id,
    {
        self.name = new_name;
    }
}

} // verus!
