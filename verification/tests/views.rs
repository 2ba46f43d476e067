use plate_tool::identity::NIL_ID;
use plate_tool::plate::{Plate, PlateFormat, PlateType};
use plate_tool::plate_instances::PlateInstance;
use plate_tool::records::{pairs_from_records, TransferRecord};
use plate_tool::states::{find_plate_named, find_transfer, MainState};
use plate_tool::transfer::{Transfer, DEFAULT_VOLUME_BITS};
use plate_tool::transfer_region::{draw_plate, Region, TransferRegion};
use plate_tool::usage::{
    destination_wells_in_use, names_joined, rank_of, source_wells_in_use, users_of,
};

fn plate(kind: PlateType, id: u128, name: &str) -> PlateInstance {
    PlateInstance { plate: Plate::new(kind, PlateFormat::W6), id, name: name.to_string() }
}

fn region(source: Region, dest: Region) -> TransferRegion {
    TransferRegion {
        source_plate: Plate::new(PlateType::Source, PlateFormat::W6),
        source_region: source,
        dest_plate: Plate::new(PlateType::Destination, PlateFormat::W12),
        dest_region: dest,
        interleave_source: (1, 1),
        interleave_dest: (1, 1),
    }
}

fn transfer(source_id: u128, dest_id: u128, id: u128, name: &str, tr: TransferRegion) -> Transfer {
    Transfer::restore(source_id, dest_id, name.to_string(), id, tr, 1.0f32.to_bits())
}

fn session() -> MainState {
    let mut state = MainState::default();
    state.add_source_plate(plate(PlateType::Source, 1, "s1"));
    state.add_source_plate(plate(PlateType::Source, 2, "s2"));
    state.add_dest_plate(plate(PlateType::Destination, 11, "d1"));
    state.transfers.push(transfer(
        1,
        11,
        300,
        "first",
        region(Region::Rect((1, 1), (2, 2)), Region::Point((1, 1))),
    ));
    state.transfers.push(transfer(
        2,
        11,
        100,
        "second",
        region(Region::Point((1, 1)), Region::Point((3, 4))),
    ));
    state.transfers.push(transfer(
        1,
        11,
        200,
        "third",
        region(Region::Rect((2, 2), (2, 3)), Region::Point((2, 2))),
    ));
    state
}

#[test]
fn format_names() {
    assert_eq!(PlateFormat::W6.to_string(), "6");
    assert_eq!(PlateFormat::W12.to_string(), "12");
    assert_eq!(PlateFormat::W24.to_string(), "24");
    assert_eq!(PlateFormat::W48.to_string(), "48");
    assert_eq!(PlateFormat::W96.to_string(), "96");
    assert_eq!(PlateFormat::W384.to_string(), "384");
    assert_eq!(PlateFormat::W1536.to_string(), "1536");
    assert_eq!(PlateFormat::W3456.to_string(), "3456");
    assert_eq!(PlateFormat::W384.name(), "384");
    assert_eq!(PlateFormat::W3456.name(), PlateFormat::W3456.well_count().to_string());
}

#[test]
fn plate_labels() {
    assert_eq!(plate(PlateType::Source, 1, "Stock").label(), "Stock, 6");
    let big = PlateInstance::new(PlateType::Destination, PlateFormat::W1536, "".to_string());
    assert_eq!(big.label(), ", 1536");
}

#[test]
fn picture_of_a_plate() {
    let mut text = "x".to_string();
    draw_plate(&mut text, (2, 3), &vec![(1, 1), (2, 3), (3, 1), (1, 4), (0, 0)]);
    assert_eq!(text, "xx..\n..x\n");
    let mut empty = String::new();
    draw_plate(&mut empty, (0, 3), &vec![(1, 1)]);
    assert_eq!(empty, "");
    draw_plate(&mut empty, (2, 0), &vec![(1, 1)]);
    assert_eq!(empty, "\n\n");
    let mut full = String::new();
    draw_plate(&mut full, (255, 255), &vec![(255, 255)]);
    assert_eq!(full.len(), 255 * 256);
    assert!(full.ends_with(".x\n"));
}

#[test]
fn picture_of_a_transfer() {
    let tr = region(Region::Rect((1, 2), (2, 3)), Region::Rect((2, 1), (3, 4)));
    assert_eq!(
        tr.to_string(),
        "Source Plate:\n.xx\n.xx\nDest Plate:\n....\nxxxx\nxxxx\n"
    );
    let refused = region(Region::Rect((0, 2), (2, 3)), Region::Point((1, 1)));
    assert_eq!(
        refused.to_string(),
        "Source Plate:\n.xx\n.xx\nDest Plate:\n....\n....\n....\n"
    );
}

#[test]
fn wells_in_use() {
    let state = session();
    let taken = source_wells_in_use(&state.transfers, 1);
    assert_eq!(
        taken,
        vec![vec![(1, 1), (1, 2), (2, 1), (2, 2)], vec![], vec![(2, 2), (2, 3)]]
    );
    assert_eq!(users_of(&taken, (2, 2)), vec![0, 2]);
    assert_eq!(users_of(&taken, (1, 1)), vec![0]);
    assert_eq!(users_of(&taken, (2, 3)), vec![2]);
    assert_eq!(users_of(&taken, (1, 3)), Vec::<usize>::new());
    assert_eq!(source_wells_in_use(&state.transfers, 2), vec![vec![], vec![(1, 1)], vec![]]);
    assert_eq!(source_wells_in_use(&state.transfers, 11), vec![vec![], vec![], vec![]]);
    let fed = destination_wells_in_use(&state.transfers, 11);
    assert_eq!(
        fed,
        vec![vec![(1, 1), (1, 2), (2, 1), (2, 2)], vec![(3, 4)], vec![(2, 2), (2, 3)]]
    );
    assert_eq!(users_of(&fed, (3, 4)), vec![1]);
    assert_eq!(destination_wells_in_use(&state.transfers, 1), vec![vec![], vec![], vec![]]);
    assert_eq!(users_of(&vec![], (1, 1)), Vec::<usize>::new());
}

#[test]
fn names_of_users() {
    let state = session();
    assert_eq!(names_joined(&state.transfers, &vec![]), "");
    assert_eq!(names_joined(&state.transfers, &vec![1]), "second");
    assert_eq!(names_joined(&state.transfers, &vec![0, 2]), "first, third");
    assert_eq!(names_joined(&state.transfers, &vec![2, 1, 0, 0]), "third, second, first, first");
}

#[test]
fn ranks_of_transfers() {
    let state = session();
    assert_eq!(rank_of(&state.transfers, 100), 0);
    assert_eq!(rank_of(&state.transfers, 200), 1);
    assert_eq!(rank_of(&state.transfers, 300), 2);
    assert_eq!(rank_of(&state.transfers, 301), 3);
    assert_eq!(rank_of(&state.transfers, 0), 0);
    assert_eq!(rank_of(&vec![], 5), 0);
}

#[test]
fn finding_by_name_and_identifier() {
    let state = session();
    assert_eq!(find_plate_named(&state.source_plates, "s2"), Some(1));
    assert_eq!(find_plate_named(&state.source_plates, "d1"), None);
    assert_eq!(find_plate_named(&state.source_plates, ""), None);
    assert_eq!(find_transfer(&state.transfers, 200), Some(2));
    assert_eq!(find_transfer(&state.transfers, 201), None);
}

#[test]
fn saving_a_new_transfer() {
    let mut state = session();
    state.selected_source_plate = 2;
    state.selected_dest_plate = 11;
    let draft = transfer(
        77,
        78,
        79,
        "draft",
        region(Region::Point((2, 2)), Region::Point((1, 1))),
    );
    state.save_transfer(&draft);
    assert_eq!(state.transfers.len(), 4);
    let made = &state.transfers[3];
    assert_eq!(made.source_id, 2);
    assert_eq!(made.dest_id, 11);
    assert_eq!(made.name, "draft");
    assert_eq!(made.transfer_region, draft.transfer_region);
    assert_eq!(made.volume_bits, DEFAULT_VOLUME_BITS);
    assert_ne!(made.id, 79);
    assert_eq!(state.selected_transfer, made.id);
    assert_eq!(state.transfers[0].name, "first");
}

#[test]
fn saving_needs_both_plates() {
    let mut state = session();
    state.selected_source_plate = 2;
    state.selected_dest_plate = 12;
    let draft = Transfer::default();
    state.save_transfer(&draft);
    assert_eq!(state.transfers.len(), 3);
    assert_eq!(state.selected_transfer, NIL_ID);
    state.selected_source_plate = 3;
    state.selected_dest_plate = 11;
    state.save_transfer(&draft);
    assert_eq!(state.transfers.len(), 3);
    assert_eq!(state.selected_transfer, NIL_ID);
}

#[test]
fn saving_the_selected_transfer() {
    let mut state = session();
    state.selected_transfer = 100;
    let draft = transfer(
        1,
        11,
        100,
        "edited",
        region(Region::Point((2, 2)), Region::Point((1, 1))),
    );
    state.save_transfer(&draft);
    assert_eq!(state.transfers.len(), 3);
    assert_eq!(state.transfers[1], draft);
    assert_eq!(state.transfers[0].name, "first");
    assert_eq!(state.transfers[2].name, "third");
    assert_eq!(state.selected_transfer, 100);
    state.selected_transfer = 555;
    let before = state.clone();
    state.save_transfer(&draft);
    assert_eq!(state, before);
}

#[test]
fn deleting_a_transfer() {
    let mut state = session();
    assert!(!state.delete_transfer(100));
    assert_eq!(state.transfers.len(), 3);
    state.selected_transfer = 100;
    assert!(!state.delete_transfer(101));
    assert_eq!(state.transfers.len(), 3);
    assert_eq!(state.selected_transfer, 100);
    assert!(state.delete_transfer(100));
    let names: Vec<&str> = state.transfers.iter().map(|t| t.name.as_str()).collect();
    assert_eq!(names, vec!["first", "third"]);
    assert_eq!(state.selected_transfer, NIL_ID);
    assert!(!state.delete_transfer(300));
}

#[test]
fn importing_a_custom_transfer() {
    let mut state = session();
    let pairs = [((1, 1), (2, 2)), ((1, 2), (3, 3))];
    assert!(!state.import_transfer(&pairs, "nobody", "d1"));
    assert!(!state.import_transfer(&pairs, "s1", "nobody"));
    assert!(!state.import_transfer(&pairs, "d1", "s1"));
    assert_eq!(state.transfers.len(), 3);
    assert!(state.import_transfer(&pairs, "s2", "d1"));
    assert_eq!(state.transfers.len(), 4);
    let made = &state.transfers[3];
    assert_eq!(made.name, "Custom Transfer");
    assert_eq!(made.source_id, 2);
    assert_eq!(made.dest_id, 11);
    assert_eq!(made.volume_bits, DEFAULT_VOLUME_BITS);
    assert_eq!(state.selected_transfer, made.id);
    let custom = Region::new_custom(&pairs);
    assert_eq!(
        made.transfer_region,
        TransferRegion {
            source_plate: Plate::new(PlateType::Source, PlateFormat::W6),
            source_region: custom.clone(),
            dest_plate: Plate::new(PlateType::Destination, PlateFormat::W6),
            dest_region: custom,
            interleave_source: (1, 1),
            interleave_dest: (1, 1),
        }
    );
    assert_eq!(made.transfer_region.get_transfer_pairs(), pairs.to_vec());
}

fn line(source_plate: &str, source_well: &str, dest_plate: &str, dest_well: &str) -> TransferRecord {
    TransferRecord {
        source_plate: source_plate.to_string(),
        source_well: source_well.to_string(),
        destination_plate: dest_plate.to_string(),
        destination_well: dest_well.to_string(),
        volume_bits: 0,
        concentration_bits: Some(0),
    }
}

#[test]
fn pairs_of_records() {
    let records = vec![
        line("a", "A1", "b", "B2"),
        line("a", "C3", "c", "D4"),
        line("x", "nowhere", "b", "B2"),
        line("a", "AB12", "b", "IU255"),
        line("a", "A1", "b", "B2"),
    ];
    assert_eq!(
        pairs_from_records(&records, "a", "b"),
        Some(vec![((1, 1), (2, 2)), ((28, 12), (255, 255)), ((1, 1), (2, 2))])
    );
    assert_eq!(pairs_from_records(&records, "a", "c"), Some(vec![((3, 3), (4, 4))]));
    assert_eq!(pairs_from_records(&records, "b", "a"), Some(vec![]));
    assert_eq!(pairs_from_records(&records, "x", "b"), None);
    assert_eq!(pairs_from_records(&vec![], "a", "b"), Some(vec![]));
    let unread = vec![line("a", "A1", "b", "B2"), line("a", "A1", "b", "B256")];
    assert_eq!(pairs_from_records(&unread, "a", "b"), None);
}
