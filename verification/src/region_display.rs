//! Regions as text: a rectangle written as the names of two wells with a
//! colon between them, such as `A1:E5`.

use vstd::prelude::*;
use vstd::std_specs::convert::FromSpecImpl;
use vstd::std_specs::convert::TryFromSpecImpl;
use vstd::string::StringExecFns;
use crate::pattern::captures;
use crate::pattern::first_match;
use crate::transfer_region::Region;
use crate::transfer_region::RegionModel;
use crate::well_name::decoded;
use crate::well_name::digits_of;
use crate::well_name::letters_of;
use crate::well_name::letters_to_num;
use crate::well_name::num_to_letters;
use crate::well_name::parsed;
use crate::well_name::read_decimal;
use crate::well_name::write_decimal;

verus! {

/// The regular expression that finds a rectangle in text: letters and
/// digits for one well, a colon, letters and digits for the other.
pub const REGION_PATTERN: &'static str = r"([A-Z]+)(\d+):([A-Z]+)(\d+)";

/// The regular expression that finds a well in text: letters, then digits.
pub const WELL_PATTERN: &'static str = r"([A-Z]+)(\d+)";

/// Why text does not read as a region.
#[derive(PartialEq, Eq, Structural, Clone, Copy, Debug)]
pub enum RegionTextFault {
    /// Nothing in the text has the shape of a region.
    NoMatch,
    /// The match does not hold the parts of a region.
    Groups,
    /// The letters of the first well stand for no coordinate.
    ColumnStart,
    /// The letters of the second well stand for no coordinate.
    ColumnEnd,
    /// The digits of the first well stand for no coordinate.
    RowStart,
    /// The digits of the second well stand for no coordinate.
    RowEnd,
}

impl RegionTextFault {
    /// The words in which the fault is reported.
    pub open spec fn label(self) -> &'static str {
        match self {
            RegionTextFault::NoMatch => "Regex match failed",
            RegionTextFault::Groups => "Not enough capture groups",
            RegionTextFault::ColumnStart => "Column start failed to parse",
            RegionTextFault::ColumnEnd => "Column end failed to parse",
            RegionTextFault::RowStart => "Row start failed to parse",
            RegionTextFault::RowEnd => "Row end failed to parse",
        }
    }

    /// The words in which the fault is reported.
    pub fn message(&self) -> (m: &'static str)
        ensures
            m == self.label(),
    {
        match self {
            RegionTextFault::NoMatch => "Regex match failed",
            RegionTextFault::Groups => "Not enough capture groups",
            RegionTextFault::ColumnStart => "Column start failed to parse",
            RegionTextFault::ColumnEnd => "Column end failed to parse",
            RegionTextFault::RowStart => "Row start failed to parse",
            RegionTextFault::RowEnd => "Row end failed to parse",
        }
    }
}

/// The coordinates `(col_start, row_start, col_end, row_end)` that the
/// groups of a match stand for: the first and third group in letters, the
/// second and fourth in digits. The columns are read before the rows, and
/// the first part that stands for no coordinate is the fault.
pub open spec fn read_region_groups(groups: Seq<Option<Seq<char>>>) -> Result<
    (u8, u8, u8, u8),
    RegionTextFault,
> {
    if groups.len() != 5 || groups[1] is None || groups[2] is None || groups[3] is None
        || groups[4] is None {
        Err(RegionTextFault::Groups)
    } else if decoded(groups[1].unwrap()) is None {
        Err(RegionTextFault::ColumnStart)
    } else if decoded(groups[3].unwrap()) is None {
        Err(RegionTextFault::ColumnEnd)
    } else if parsed(groups[2].unwrap()) is None {
        Err(RegionTextFault::RowStart)
    } else if parsed(groups[4].unwrap()) is None {
        Err(RegionTextFault::RowEnd)
    } else {
        Ok(
            (
                decoded(groups[1].unwrap()).unwrap(),
                parsed(groups[2].unwrap()).unwrap(),
                decoded(groups[3].unwrap()).unwrap(),
                parsed(groups[4].unwrap()).unwrap(),
            ),
        )
    }
}

/// The coordinates that text stands for: those of the first place in it
/// that has the shape of a region.
pub open spec fn read_region_text(text: Seq<char>) -> Result<(u8, u8, u8, u8), RegionTextFault> {
    match first_match(REGION_PATTERN@, text) {
        Some(groups) => read_region_groups(groups),
        None => Err(RegionTextFault::NoMatch),
    }
}

/// How a rectangle is written: the name of one corner, a colon, and the
/// name of the other, each with its first coordinate in letters. A first
/// coordinate of 0 cannot be written.
pub open spec fn region_label(corners: (u8, u8, u8, u8)) -> Result<Seq<char>, RegionTextFault> {
    if corners.0 == 0 {
        Err(RegionTextFault::ColumnStart)
    } else if corners.2 == 0 {
        Err(RegionTextFault::ColumnEnd)
    } else {
        Ok(
            letters_of(corners.0 as int) + digits_of(corners.1 as int) + seq![':'] + letters_of(
                corners.2 as int,
            ) + digits_of(corners.3 as int),
        )
    }
}

/// The well that the groups of a match stand for: the first group in
/// letters, the second in digits.
pub open spec fn read_well_groups(groups: Seq<Option<Seq<char>>>) -> Option<(u8, u8)> {
    if groups.len() != 3 || groups[1] is None || groups[2] is None {
        None
    } else if decoded(groups[1].unwrap()) is None || parsed(groups[2].unwrap()) is None {
        None
    } else {
        Some((decoded(groups[1].unwrap()).unwrap(), parsed(groups[2].unwrap()).unwrap()))
    }
}

/// The well that text stands for: that of the first place in it that has
/// the shape of a well's name.
pub open spec fn read_well_text(text: Seq<char>) -> Option<(u8, u8)> {
    match first_match(WELL_PATTERN@, text) {
        Some(groups) => read_well_groups(groups),
        None => None,
    }
}

/// Reads the well that the groups of a match stand for.
pub fn well_from_groups(groups: &Vec<Option<String>>) -> (r: Option<(u8, u8)>)
    ensures
        r == read_well_groups(groups.deep_view()),
{
    if groups.len() != 3 {
        return None;
    }
    assert(groups.deep_view()[1] == groups@[1].deep_view());
    assert(groups.deep_view()[2] == groups@[2].deep_view());
    match (&groups[1], &groups[2]) {
        (Some(letters), Some(digits)) => {
            match (letters_to_num(letters.as_str()), read_decimal(digits.as_str())) {
                (Some(first), Some(second)) => Some((first, second)),
                _ => None,
            }
        },
        _ => None,
    }
}

/// Reads the name of a well, such as `AB12`, wherever it first occurs in
/// `text`.
pub fn parse_well(text: &str) -> (r: Option<(u8, u8)>)
    ensures
        r == read_well_text(text@),
{
    match captures(WELL_PATTERN, text) {
        Some(groups) => well_from_groups(&groups),
        None => None,
    }
}

/// A rectangle together with the text that names it.
#[derive(PartialEq, Eq, Debug)]
pub struct RegionDisplay {
    pub text: String,
    pub col_start: u8,
    pub row_start: u8,
    pub col_end: u8,
    pub row_end: u8,
}

impl Clone for RegionDisplay {
    fn clone(&self) -> (r: Self)
        ensures
            r == *self,
    {
        RegionDisplay {
            text: self.text.clone(),
            col_start: self.col_start,
            row_start: self.row_start,
            col_end: self.col_end,
            row_end: self.row_end,
        }
    }
}

impl Default for RegionDisplay {
    fn default() -> (r: Self)
        ensures
            r.text@ == Seq::<char>::empty(),
            r.corners() == (0u8, 0u8, 0u8, 0u8),
    {
        RegionDisplay { text: String::new(), col_start: 0, row_start: 0, col_end: 0, row_end: 0 }
    }
}

impl RegionDisplay {
    /// The coordinates `(col_start, row_start, col_end, row_end)`.
    pub open spec fn corners(self) -> (u8, u8, u8, u8) {
        (self.col_start, self.row_start, self.col_end, self.row_end)
    }

    /// The outcome of reading `text`: the coordinates it stands for under the
    /// text itself, or the fault in words.
    pub open spec fn named(text: String, read: Result<(u8, u8, u8, u8), RegionTextFault>) -> Result<
        RegionDisplay,
        &'static str,
    > {
        match read {
            Ok(corners) => Ok(
                RegionDisplay {
                    text,
                    col_start: corners.0,
                    row_start: corners.1,
                    col_end: corners.2,
                    row_end: corners.3,
                },
            ),
            Err(fault) => Err(fault.label()),
        }
    }

    /// Reads the groups of a match as a region named by `text`.
    pub fn from_groups(text: String, groups: &Vec<Option<String>>) -> (r: Result<
        RegionDisplay,
        &'static str,
    >)
        ensures
            r == RegionDisplay::named(text, read_region_groups(groups.deep_view())),
    {
        if groups.len() != 5 {
            return Err(RegionTextFault::Groups.message());
        }
        assert(groups.deep_view()[1] == groups@[1].deep_view());
        assert(groups.deep_view()[2] == groups@[2].deep_view());
        assert(groups.deep_view()[3] == groups@[3].deep_view());
        assert(groups.deep_view()[4] == groups@[4].deep_view());
        match (&groups[1], &groups[2], &groups[3], &groups[4]) {
            (Some(first_letters), Some(first_digits), Some(second_letters), Some(second_digits)) => {
                let col_start = match letters_to_num(first_letters.as_str()) {
                    Some(n) => n,
                    None => {
                        return Err(RegionTextFault::ColumnStart.message());
                    },
                };
                let col_end = match letters_to_num(second_letters.as_str()) {
                    Some(n) => n,
                    None => {
                        return Err(RegionTextFault::ColumnEnd.message());
                    },
                };
                let row_start = match read_decimal(first_digits.as_str()) {
                    Some(n) => n,
                    None => {
                        return Err(RegionTextFault::RowStart.message());
                    },
                };
                let row_end = match read_decimal(second_digits.as_str()) {
                    Some(n) => n,
                    None => {
                        return Err(RegionTextFault::RowEnd.message());
                    },
                };
                Ok(RegionDisplay { text, col_start, row_start, col_end, row_end })
            },
            _ => Err(RegionTextFault::Groups.message()),
        }
    }

    /// Reads text such as `A1:E5` as a region. The text is kept as given.
    pub fn from_text(value: String) -> (r: Result<RegionDisplay, &'static str>)
        ensures
            r == RegionDisplay::named(value, read_region_text(value@)),
    {
        match captures(REGION_PATTERN, value.as_str()) {
            Some(groups) => RegionDisplay::from_groups(value, &groups),
            None => Err(RegionTextFault::NoMatch.message()),
        }
    }

    /// Names the rectangle with the corners `(col_start, row_start)` and
    /// `(col_end, row_end)`.
    pub fn from_corners(value: (u8, u8, u8, u8)) -> (r: Result<RegionDisplay, &'static str>)
        ensures
            match region_label(value) {
                Ok(label) => r matches Ok(display) && display.text@ == label && display.corners()
                    == value,
                Err(fault) => r == Err::<RegionDisplay, &'static str>(fault.label()),
            },
    {
        let mut text = match num_to_letters(value.0) {
            Some(letters) => letters,
            None => {
                return Err(RegionTextFault::ColumnStart.message());
            },
        };
        let end_letters = match num_to_letters(value.2) {
            Some(letters) => letters,
            None => {
                return Err(RegionTextFault::ColumnEnd.message());
            },
        };
        text.append(write_decimal(value.1).as_str());
        text.push(':');
        text.append(end_letters.as_str());
        text.append(write_decimal(value.3).as_str());
        assert(text@ =~= region_label(value).unwrap());
        Ok(
            RegionDisplay {
                text,
                col_start: value.0,
                row_start: value.1,
                col_end: value.2,
                row_end: value.3,
            },
        )
    }

    /// Names a point or a rectangle. A custom region has no name, nor has a
    /// region with a first coordinate of 0.
    pub fn from_region(region: &Region) -> (r: Option<RegionDisplay>)
        ensures
            match region@ {
                RegionModel::Point(p) => match region_label((p.0, p.1, p.0, p.1)) {
                    Ok(label) => r matches Some(display) && display.text@ == label
                        && display.corners() == (p.0, p.1, p.0, p.1),
                    Err(_) => r is None,
                },
                RegionModel::Rect(c1, c2) => match region_label((c1.0, c1.1, c2.0, c2.1)) {
                    Ok(label) => r matches Some(display) && display.text@ == label
                        && display.corners() == (c1.0, c1.1, c2.0, c2.1),
                    Err(_) => r is None,
                },
                RegionModel::Custom(_, _) => r is None,
            },
    {
        let named = match region {
            Region::Point(p) => RegionDisplay::from_corners((p.0, p.1, p.0, p.1)),
            Region::Rect(c1, c2) => RegionDisplay::from_corners((c1.0, c1.1, c2.0, c2.1)),
            Region::Custom(_) => {
                return None;
            },
        };
        match named {
            Ok(display) => Some(display),
            Err(_) => None,
        }
    }

}

/// Reads text such as `A1:E5` as a region. The text is kept as given.
impl TryFrom<String> for RegionDisplay {
    type Error = &'static str;

    fn try_from(value: String) -> (r: Result<Self, Self::Error>) {
        RegionDisplay::from_text(value)
    }
}

impl TryFromSpecImpl<String> for RegionDisplay {
    open spec fn obeys_try_from_spec() -> bool {
        true
    }

    open spec fn try_from_spec(value: String) -> Result<Self, Self::Error> {
        RegionDisplay::named(value, read_region_text(value@))
    }
}

/// The region that the coordinates select: a point where the two wells are
/// one, else the rectangle between them.
impl From<&RegionDisplay> for Region {
    fn from(value: &RegionDisplay) -> (r: Self) {
        if value.col_start == value.col_end && value.row_start == value.row_end {
            Region::Point((value.col_start, value.row_start))
        } else {
            Region::Rect((value.col_start, value.row_start), (value.col_end, value.row_end))
        }
    }
}

impl FromSpecImpl<&RegionDisplay> for Region {
    open spec fn obeys_from_spec() -> bool {
        true
    }

    open spec fn from_spec(value: &RegionDisplay) -> Self {
        if value.col_start == value.col_end && value.row_start == value.row_end {
            Region::Point((value.col_start, value.row_start))
        } else {
            Region::Rect((value.col_start, value.row_start), (value.col_end, value.row_end))
        }
    }
}

} // verus!
