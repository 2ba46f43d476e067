//! Plate geometries: the catalogue of supported formats and a plate's role.

use vstd::prelude::*;
use vstd::string::StringExecFns;

verus! {

/// Whether a plate gives liquid or receives it.
#[derive(PartialEq, Eq, Structural, Clone, Copy, Debug)]
pub enum PlateType {
    Source,
    Destination,
}

/// The supported plate layouts, named by their number of wells.
#[derive(PartialEq, Eq, Structural, Clone, Copy, Debug)]
pub enum PlateFormat {
    W6,
    W12,
    W24,
    W48,
    W96,
    W384,
    W1536,
    W3456,
}

impl PlateFormat {
    /// The `(rows, columns)` of the layout.
    pub open spec fn dims(self) -> (u8, u8) {
        match self {
            PlateFormat::W6 => (2u8, 3u8),
            PlateFormat::W12 => (3u8, 4u8),
            PlateFormat::W24 => (4u8, 6u8),
            PlateFormat::W48 => (6u8, 8u8),
            PlateFormat::W96 => (8u8, 12u8),
            PlateFormat::W384 => (16u8, 24u8),
            PlateFormat::W1536 => (32u8, 48u8),
            PlateFormat::W3456 => (48u8, 72u8),
        }
    }

    /// The number of wells that names the layout.
    pub open spec fn wells(self) -> u16 {
        match self {
            PlateFormat::W6 => 6u16,
            PlateFormat::W12 => 12u16,
            PlateFormat::W24 => 24u16,
            PlateFormat::W48 => 48u16,
            PlateFormat::W96 => 96u16,
            PlateFormat::W384 => 384u16,
            PlateFormat::W1536 => 1536u16,
            PlateFormat::W3456 => 3456u16,
        }
    }

    /// The number of wells that names the layout.
    pub fn well_count(&self) -> (n: u16)
        ensures
            n == self.wells(),
    {
        match self {
            PlateFormat::W6 => 6,
            PlateFormat::W12 => 12,
            PlateFormat::W24 => 24,
            PlateFormat::W48 => 48,
            PlateFormat::W96 => 96,
            PlateFormat::W384 => 384,
            PlateFormat::W1536 => 1536,
            PlateFormat::W3456 => 3456,
        }
    }

    /// The number of wells, written in digits.
    pub open spec fn label(self) -> &'static str {
        match self {
            PlateFormat::W6 => "6",
            PlateFormat::W12 => "12",
            PlateFormat::W24 => "24",
            PlateFormat::W48 => "48",
            PlateFormat::W96 => "96",
            PlateFormat::W384 => "384",
            PlateFormat::W1536 => "1536",
            PlateFormat::W3456 => "3456",
        }
    }

    /// The number of wells, written in digits.
    pub fn name(&self) -> (r: &'static str)
        ensures
            r == self.label(),
    {
        match self {
            PlateFormat::W6 => "6",
            PlateFormat::W12 => "12",
            PlateFormat::W24 => "24",
            PlateFormat::W48 => "48",
            PlateFormat::W96 => "96",
            PlateFormat::W384 => "384",
            PlateFormat::W1536 => "1536",
            PlateFormat::W3456 => "3456",
        }
    }

    /// The number of wells, written in digits.
    pub fn to_string(&self) -> (r: String)
        ensures
            r@ == self.label()@,
    {
        String::from_str(self.name())
    }

    /// The layout with `n` wells, if there is one.
    pub fn from_well_count(n: u16) -> (r: Option<PlateFormat>)
        ensures
            match r {
                Some(format) => format.wells() == n,
                None => forall|format: PlateFormat| format.wells() != n,
            },
    {
        if n == 6 {
            Some(PlateFormat::W6)
        } else if n == 12 {
            Some(PlateFormat::W12)
        } else if n == 24 {
            Some(PlateFormat::W24)
        } else if n == 48 {
            Some(PlateFormat::W48)
        } else if n == 96 {
            Some(PlateFormat::W96)
        } else if n == 384 {
            Some(PlateFormat::W384)
        } else if n == 1536 {
            Some(PlateFormat::W1536)
        } else if n == 3456 {
            Some(PlateFormat::W3456)
        } else {
            None
        }
    }

    /// Every layout has as many wells as its name says.
    pub proof fn lemma_wells_fill_the_grid(self)
        ensures
            self.wells() == self.dims().0 * self.dims().1,
            1 <= self.dims().0 <= 48,
            1 <= self.dims().1 <= 72,
    {
    }

    /// The `(rows, columns)` of the layout.
    pub fn size(&self) -> (r: (u8, u8))
        ensures
            r == self.dims(),
    {
        match self {
            PlateFormat::W6 => (2, 3),
            PlateFormat::W12 => (3, 4),
            PlateFormat::W24 => (4, 6),
            PlateFormat::W48 => (6, 8),
            PlateFormat::W96 => (8, 12),
            PlateFormat::W384 => (16, 24),
            PlateFormat::W1536 => (32, 48),
            PlateFormat::W3456 => (48, 72),
        }
    }
}

impl Default for PlateType {
    fn default() -> (r: Self)
        ensures
            r == PlateType::Source,
    {
        PlateType::Source
    }
}

impl Default for PlateFormat {
    fn default() -> (r: Self)
        ensures
            r == PlateFormat::W96,
    {
        PlateFormat::W96
    }
}

/// A plate: its role in a transfer and its layout.
#[derive(PartialEq, Eq, Structural, Clone, Copy, Debug)]
pub struct Plate {
    pub plate_type: PlateType,
    pub plate_format: PlateFormat,
}

impl Plate {
    /// The plate that stands where none was chosen: a source plate of 96
    /// wells.
    pub open spec fn new_spec() -> Plate {
        Plate { plate_type: PlateType::Source, plate_format: PlateFormat::W96 }
    }

    pub fn new(plate_type: PlateType, plate_format: PlateFormat) -> (r: Self)
        ensures
            r.plate_type == plate_type,
            r.plate_format == plate_format,
    {
        Plate { plate_type, plate_format }
    }

    /// The `(rows, columns)` of the plate.
    pub fn size(&self) -> (r: (u8, u8))
        ensures
            r == self.plate_format.dims(),
    {
        self.plate_format.size()
    }
}

impl Default for Plate {
    fn default() -> (r: Self)
        ensures
            r == Plate::new_spec(),
    {
        Plate { plate_type: PlateType::Source, plate_format: PlateFormat::W96 }
    }
}

} // verus!
