//! Liquid transfers between microplates.
//!
//! A transfer takes liquid from a region of wells on a source plate and puts
//! it into a region of wells on a destination plate. The heart of the
//! library is the mapping that says, for every source well, which
//! destination wells it feeds: a shift onto a point, a tiling of a
//! rectangle with copies of the source pattern, or an explicit pairing.
//!
//! - [`plate`]: the plate layouts.
//! - [`rectangle`]: rectangles of wells and the order in which they are
//!   walked.
//! - [`tiling`]: the arithmetic of one axis of a tiling.
//! - [`transfer_region`]: regions, their validation and the mapping;
//!   [`transfer_laws`]: what holds of every transfer.
//! - [`well_name`], [`region_display`]: wells and regions as text.
//! - [`plate_instances`], [`transfer`], [`states`]: declared plates and
//!   transfers, and the session that holds them.
//! - [`records`], [`usage`]: transfers as flat records, and which transfer
//!   uses which well.
//! - [`pattern`], [`identity`], [`text`]: what is taken from outside the
//!   library.

pub mod identity;
pub mod pattern;
pub mod plate;
pub mod plate_instances;
pub mod records;
pub mod rectangle;
pub mod region_display;
pub mod states;
pub mod text;
pub mod tiling;
pub mod transfer;
pub mod transfer_laws;
pub mod transfer_region;
pub mod usage;
pub mod well_name;
