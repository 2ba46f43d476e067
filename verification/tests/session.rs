use plate_tool::identity::NIL_ID;
use plate_tool::plate::{Plate, PlateFormat, PlateType};
use plate_tool::plate_instances::PlateInstance;
use plate_tool::records::{state_to_records, transfer_to_records, ExportFault, TransferRecord};
use plate_tool::states::{find_plate, MainState, Preferences};
use plate_tool::transfer::{Transfer, DEFAULT_VOLUME_BITS};
use plate_tool::transfer_region::{Region, TransferRegion};

fn source(id: u128, name: &str) -> PlateInstance {
    PlateInstance {
        plate: Plate::new(PlateType::Source, PlateFormat::W96),
        id,
        name: name.to_string(),
    }
}

fn destination(id: u128, name: &str) -> PlateInstance {
    PlateInstance {
        plate: Plate::new(PlateType::Destination, PlateFormat::W384),
        id,
        name: name.to_string(),
    }
}

fn between(source_id: u128, dest_id: u128, id: u128, name: &str) -> Transfer {
    Transfer::restore(
        source_id,
        dest_id,
        name.to_string(),
        id,
        TransferRegion::default(),
        DEFAULT_VOLUME_BITS,
    )
}

fn session() -> MainState {
    let mut state = MainState::default();
    state.add_source_plate(source(1, "s1"));
    state.add_source_plate(source(2, "s2"));
    state.add_source_plate(source(3, "s3"));
    state.add_dest_plate(destination(11, "d1"));
    state.add_dest_plate(destination(12, "d2"));
    state.transfers.push(between(1, 11, 101, "t1"));
    state.transfers.push(between(2, 11, 102, "t2"));
    state.transfers.push(between(1, 12, 103, "t3"));
    state.transfers.push(between(3, 12, 104, "t4"));
    state.selected_source_plate = 1;
    state.selected_dest_plate = 11;
    state.selected_transfer = 101;
    state
}

fn names(plates: &[PlateInstance]) -> Vec<String> {
    plates.iter().map(|p| p.name.clone()).collect()
}

fn transfer_names(state: &MainState) -> Vec<String> {
    state.transfers.iter().map(|t| t.name.clone()).collect()
}

#[test]
fn new_plates_differ() {
    let a = PlateInstance::new(PlateType::Source, PlateFormat::W96, "a".to_string());
    let b = PlateInstance::new(PlateType::Source, PlateFormat::W96, "a".to_string());
    assert_eq!(a.plate, Plate::new(PlateType::Source, PlateFormat::W96));
    assert_eq!(a.name, "a");
    assert_ne!(a.get_uuid(), b.get_uuid());
    assert_ne!(a.get_uuid(), NIL_ID);
    assert_eq!(a.get_uuid(), a.id);
    let c = PlateInstance::from_plate(Plate::new(PlateType::Destination, PlateFormat::W6));
    assert_eq!(c.name, "New Plate");
    assert_eq!(c.plate, Plate::new(PlateType::Destination, PlateFormat::W6));
    assert_ne!(c.get_uuid(), a.get_uuid());
    assert_eq!(a.clone(), a);
}

#[test]
fn plates_are_renamed() {
    let mut plate = source(7, "old");
    plate.change_name("new".to_string());
    assert_eq!(plate, source(7, "new"));
}

#[test]
fn new_transfers() {
    let s = source(1, "s");
    let d = destination(2, "d");
    let tr = TransferRegion {
        source_region: Region::Rect((1, 1), (2, 2)),
        ..TransferRegion::default()
    };
    let one = Transfer::new(s.clone(), d.clone(), tr.clone(), "one".to_string());
    let two = Transfer::new(s, d, tr.clone(), "two".to_string());
    assert_eq!(one.source_id, 1);
    assert_eq!(one.dest_id, 2);
    assert_eq!(one.name, "one");
    assert_eq!(one.transfer_region, tr);
    assert_eq!(one.volume_bits, DEFAULT_VOLUME_BITS);
    assert_eq!(f32::from_bits(one.volume_bits), 2.5f32);
    assert_ne!(one.get_uuid(), two.get_uuid());
    assert_eq!(one.get_uuid(), one.id);
    assert_eq!(one.clone(), one);
    let none = Transfer::default();
    assert_eq!(none.source_id, NIL_ID);
    assert_eq!(none.dest_id, NIL_ID);
    assert_eq!(none.id, NIL_ID);
    assert_eq!(none.name, "New Transfer");
    assert_eq!(none.transfer_region, TransferRegion::default());
    assert_eq!(f32::from_bits(none.volume_bits), 2.5f32);
}

#[test]
fn empty_session() {
    let state = MainState::default();
    assert!(state.source_plates.is_empty());
    assert!(state.destination_plates.is_empty());
    assert!(state.transfers.is_empty());
    assert_eq!(state.selected_source_plate, NIL_ID);
    assert_eq!(state.selected_dest_plate, NIL_ID);
    assert_eq!(state.selected_transfer, NIL_ID);
    assert!(state.preferences.in_transfer_hashes);
    assert!(Preferences::default().in_transfer_hashes);
}

#[test]
fn finding_plates() {
    let plates = vec![source(5, "a"), source(6, "b"), source(5, "c")];
    assert_eq!(find_plate(&plates, 5), Some(0));
    assert_eq!(find_plate(&plates, 6), Some(1));
    assert_eq!(find_plate(&plates, 7), None);
    assert_eq!(find_plate(&vec![], 5), None);
}

#[test]
fn deleting_a_source_plate_takes_its_transfers() {
    let mut state = session();
    state.del_plate(1);
    // The last plate takes the place of the one that went.
    assert_eq!(names(&state.source_plates), vec!["s3", "s2"]);
    assert_eq!(names(&state.destination_plates), vec!["d1", "d2"]);
    assert_eq!(transfer_names(&state), vec!["t2", "t4"]);
    assert_eq!(state.selected_source_plate, 1);
    assert_eq!(state.selected_dest_plate, 11);
    assert_eq!(state.selected_transfer, 101);
}

#[test]
fn deleting_a_destination_plate_takes_its_transfers() {
    let mut state = session();
    state.del_plate(12);
    assert_eq!(names(&state.source_plates), vec!["s1", "s2", "s3"]);
    assert_eq!(names(&state.destination_plates), vec!["d1"]);
    assert_eq!(transfer_names(&state), vec!["t1", "t2"]);
}

#[test]
fn deleting_no_plate_changes_nothing() {
    let mut state = session();
    state.transfers.push(between(99, 11, 105, "adrift"));
    let before = session();
    state.del_plate(50);
    assert_eq!(state.source_plates, before.source_plates);
    assert_eq!(state.destination_plates, before.destination_plates);
    assert_eq!(transfer_names(&state), vec!["t1", "t2", "t3", "t4", "adrift"]);
    // The next plate to go takes the transfer along that was adrift.
    state.del_plate(3);
    assert_eq!(transfer_names(&state), vec!["t1", "t2", "t3"]);
}

#[test]
fn deleting_a_plate_on_both_sides() {
    let mut state = session();
    state.destination_plates.push(destination(2, "twin"));
    state.transfers.push(between(3, 2, 106, "t6"));
    state.del_plate(2);
    assert_eq!(names(&state.source_plates), vec!["s1", "s3"]);
    assert_eq!(names(&state.destination_plates), vec!["d1", "d2"]);
    assert_eq!(transfer_names(&state), vec!["t1", "t3", "t4"]);
}

#[test]
fn purging_keeps_the_order() {
    let mut state = session();
    state.source_plates.remove(0);
    state.purge_transfers();
    assert_eq!(transfer_names(&state), vec!["t2", "t4"]);
    state.purge_transfers();
    assert_eq!(transfer_names(&state), vec!["t2", "t4"]);
    state.destination_plates.clear();
    state.purge_transfers();
    assert!(state.transfers.is_empty());
}

#[test]
fn renaming_plates() {
    let mut state = session();
    state.source_plates.push(source(2, "second s2"));
    state.destination_plates.push(destination(2, "d3"));
    state.rename_plate(2, "renamed");
    assert_eq!(names(&state.source_plates), vec!["s1", "renamed", "s3", "second s2"]);
    assert_eq!(names(&state.destination_plates), vec!["d1", "d2", "renamed"]);
    assert_eq!(state.source_plates[1], source(2, "renamed"));
    let before = names(&state.source_plates);
    state.rename_plate(77, "nobody");
    assert_eq!(names(&state.source_plates), before);
    assert_eq!(transfer_names(&state), vec!["t1", "t2", "t3", "t4"]);
}

fn record(source_well: &str, destination_well: &str) -> TransferRecord {
    TransferRecord {
        source_plate: "src".to_string(),
        source_well: source_well.to_string(),
        destination_plate: "dst".to_string(),
        destination_well: destination_well.to_string(),
        volume_bits: 7.25f32.to_bits(),
        concentration_bits: None,
    }
}

#[test]
fn records_of_a_transfer() {
    let region = TransferRegion {
        source_plate: Plate::new(PlateType::Source, PlateFormat::W96),
        source_region: Region::Rect((1, 1), (2, 1)),
        dest_plate: Plate::new(PlateType::Destination, PlateFormat::W384),
        dest_region: Region::Rect((27, 10), (28, 11)),
        interleave_source: (1, 1),
        interleave_dest: (1, 1),
    };
    let transfer = Transfer::restore(1, 2, "t".to_string(), 3, region, 7.25f32.to_bits());
    assert_eq!(
        transfer_to_records(&transfer, "src", "dst"),
        Some(vec![
            record("A1", "AA10"),
            record("A1", "AA11"),
            record("B1", "AB10"),
            record("B1", "AB11"),
        ])
    );
}

#[test]
fn records_need_named_wells() {
    let from_zero = TransferRegion {
        source_region: Region::Point((0, 1)),
        ..TransferRegion::default()
    };
    let transfer = Transfer::restore(1, 2, "t".to_string(), 3, from_zero, 0);
    assert_eq!(transfer_to_records(&transfer, "src", "dst"), None);
    let to_zero = TransferRegion { dest_region: Region::Point((0, 1)), ..TransferRegion::default() };
    let transfer = Transfer::restore(1, 2, "t".to_string(), 3, to_zero, 0);
    assert_eq!(transfer_to_records(&transfer, "src", "dst"), None);
    // A well that feeds nothing needs no name.
    let refused = TransferRegion {
        source_region: Region::Rect((0, 1), (1, 1)),
        ..TransferRegion::default()
    };
    let transfer = Transfer::restore(1, 2, "t".to_string(), 3, refused, 0);
    assert_eq!(transfer_to_records(&transfer, "src", "dst"), Some(vec![]));
    let row_zero = TransferRegion {
        source_region: Region::Point((1, 0)),
        ..TransferRegion::default()
    };
    let transfer = Transfer::restore(1, 2, "t".to_string(), 3, row_zero, 0);
    let records = transfer_to_records(&transfer, "src", "dst").unwrap();
    assert_eq!(records.len(), 1);
    assert_eq!(records[0].source_well, "A0");
    assert_eq!(records[0].destination_well, "A1");
}

#[test]
fn records_of_a_session() {
    let state = session();
    let records = state_to_records(&state).unwrap();
    let lines: Vec<(String, String, String, String)> = records
        .iter()
        .map(|r| {
            (
                r.source_plate.clone(),
                r.source_well.clone(),
                r.destination_plate.clone(),
                r.destination_well.clone(),
            )
        })
        .collect();
    let line = |s: &str, d: &str| (s.to_string(), "A1".to_string(), d.to_string(), "A1".to_string());
    assert_eq!(lines, vec![line("s1", "d1"), line("s2", "d1"), line("s1", "d2"), line("s3", "d2")]);
    assert!(records.iter().all(|r| r.volume_bits == DEFAULT_VOLUME_BITS));
    assert!(records.iter().all(|r| r.concentration_bits.is_none()));
    assert_eq!(state_to_records(&MainState::default()), Ok(vec![]));
}

#[test]
fn records_of_a_session_with_faults() {
    let unpurged = "Found unpurged transfer";
    let unnamed = "Found a well without a name";
    assert_eq!(ExportFault::Unpurged.message(), unpurged);
    assert_eq!(ExportFault::UnnamedWell.message(), unnamed);
    let mut state = session();
    state.transfers.push(between(99, 11, 105, "no source"));
    assert_eq!(state_to_records(&state), Err(unpurged));
    let mut state = session();
    state.transfers.push(between(1, 99, 105, "no destination"));
    assert_eq!(state_to_records(&state), Err(unpurged));
    let mut state = session();
    state.transfers[1].transfer_region.source_region = Region::Point((0, 1));
    assert_eq!(state_to_records(&state), Err(unnamed));
    // The first fault in the order of the transfers is the one reported.
    state.transfers[0].source_id = 99;
    assert_eq!(state_to_records(&state), Err(unpurged));
    let mut state = session();
    state.transfers[0].transfer_region.dest_region = Region::Point((0, 1));
    state.transfers[1].source_id = 99;
    assert_eq!(state_to_records(&state), Err(unnamed));
}
