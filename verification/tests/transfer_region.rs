use plate_tool::plate::{Plate, PlateFormat, PlateType};
use plate_tool::transfer_region::{Region, TransferRegion};

#[test]
fn test_simple_transfer() {
    let source = Plate::new(PlateType::Source, PlateFormat::W96);
    let destination = Plate::new(PlateType::Destination, PlateFormat::W384);

    let transfer1 = TransferRegion {
        source_plate: source,
        source_region: Region::Rect((1, 1), (3, 3)),
        dest_plate: destination,
        dest_region: Region::Point((3, 3)),
        interleave_source: (1, 1),
        interleave_dest: (1, 1),
    };
    let transfer1_map = transfer1.calculate_map();
    assert_eq!(
        transfer1_map.evaluate((1, 1)),
        Some(vec! {(3,3)}),
        "Failed basic shift transfer 1"
    );
    assert_eq!(
        transfer1_map.evaluate((1, 2)),
        Some(vec! {(3,4)}),
        "Failed basic shift transfer 2"
    );
    assert_eq!(
        transfer1_map.evaluate((2, 2)),
        Some(vec! {(4,4)}),
        "Failed basic shift transfer 3"
    );

    let transfer2 = TransferRegion {
        source_plate: source,
        source_region: Region::Rect((1, 1), (3, 3)),
        dest_plate: destination,
        dest_region: Region::Point((3, 3)),
        interleave_source: (2, 2),
        interleave_dest: (1, 1),
    };
    let transfer2_map = transfer2.calculate_map();
    assert_eq!(
        transfer2_map.evaluate((1, 1)),
        Some(vec! {(3,3)}),
        "Failed source interleave, type simple 1"
    );
    assert_eq!(
        transfer2_map.evaluate((1, 2)),
        None,
        "Failed source interleave, type simple 2"
    );
    assert_eq!(
        transfer2_map.evaluate((2, 2)),
        None,
        "Failed source interleave, type simple 3"
    );
    assert_eq!(
        transfer2_map.evaluate((3, 3)),
        Some(vec! {(4,4)}),
        "Failed source interleave, type simple 4"
    );

    let transfer3 = TransferRegion {
        source_plate: source,
        source_region: Region::Rect((1, 1), (3, 3)),
        dest_plate: destination,
        dest_region: Region::Point((3, 3)),
        interleave_source: (1, 1),
        interleave_dest: (2, 3),
    };
    let transfer3_map = transfer3.calculate_map();
    assert_eq!(
        transfer3_map.evaluate((1, 1)),
        Some(vec! {(3,3)}),
        "Failed destination interleave, type simple 1"
    );
    assert_eq!(
        transfer3_map.evaluate((2, 1)),
        Some(vec! {(5,3)}),
        "Failed destination interleave, type simple 2"
    );
    assert_eq!(
        transfer3_map.evaluate((1, 2)),
        Some(vec! {(3,6)}),
        "Failed destination interleave, type simple 3"
    );
    assert_eq!(
        transfer3_map.evaluate((2, 2)),
        Some(vec! {(5,6)}),
        "Failed destination interleave, type simple 4"
    );
}

#[test]
fn test_replicate_transfer() {
    let source = Plate::new(PlateType::Source, PlateFormat::W96);
    let destination = Plate::new(PlateType::Destination, PlateFormat::W384);

    let transfer1 = TransferRegion {
        source_plate: source,
        source_region: Region::Rect((1, 1), (2, 2)),
        dest_plate: destination,
        dest_region: Region::Rect((2, 2), (11, 11)),
        interleave_source: (1, 1),
        interleave_dest: (3, 3),
    };
    let transfer1_map = transfer1.calculate_map();
    assert_eq!(
        transfer1_map.evaluate((1, 1)),
        Some(vec! {(2, 2), (2, 8), (8, 2), (8, 8)}),
        "Failed type replicate 1"
    );
    assert_eq!(
        transfer1_map.evaluate((2, 1)),
        Some(vec! {(5, 2), (5, 8), (11, 2), (11, 8)}),
        "Failed type replicate 1"
    );

    let transfer2 = TransferRegion {
        source_plate: Plate::new(PlateType::Source, PlateFormat::W384),
        dest_plate: Plate::new(PlateType::Destination, PlateFormat::W384),
        source_region: Region::Rect((1, 1), (2, 3)),
        dest_region: Region::Rect((2, 2), (11, 16)),
        interleave_source: (1, 1),
        interleave_dest: (2, 2),
    };
    let transfer2_source = transfer2.get_source_wells();
    let transfer2_dest = transfer2.get_destination_wells();
    assert_eq!(
        transfer2_source,
        vec![(1, 1), (1, 2), (1, 3), (2, 1), (2, 2), (2, 3)],
        "Failed type replicate 2 source"
    );
    assert_eq!(
        transfer2_dest,
        vec![
            (2, 2),
            (2, 8),
            (6, 2),
            (6, 8),
            (2, 4),
            (2, 10),
            (6, 4),
            (6, 10),
            (2, 6),
            (2, 12),
            (6, 6),
            (6, 12),
            (4, 2),
            (4, 8),
            (8, 2),
            (8, 8),
            (4, 4),
            (4, 10),
            (8, 4),
            (8, 10),
            (4, 6),
            (4, 12),
            (8, 6),
            (8, 12)
        ],
        "Failed type replicate 2 destination"
    );
}

#[test]
fn test_pooling_transfer() {
    let transfer1 = TransferRegion {
        source_plate: Plate::new(PlateType::Source, PlateFormat::W384),
        dest_plate: Plate::new(PlateType::Destination, PlateFormat::W384),
        source_region: Region::Rect((1, 4), (3, 7)),
        dest_region: Region::Point((1, 9)),
        interleave_source: (1, 1),
        interleave_dest: (0, 2),
    };
    let mut transfer1_dest = transfer1.get_destination_wells();
    transfer1_dest.sort();
    transfer1_dest.dedup(); // Makes our check easier, otherwise we have repeated wells
    let transfer1_map = transfer1.calculate_map();
    // Skipping source check---it's just 12 wells.
    assert_eq!(
        transfer1_dest,
        vec![(1, 9), (1, 11), (1, 13), (1, 15)],
        "Failed type pool 1 dest"
    );
    assert_eq!(
        transfer1_map.evaluate((2, 6)),
        Some(vec![(1, 13)]),
        "Failed type pool 1 map 1"
    );
    assert_eq!(
        transfer1_map.evaluate((3, 7)),
        Some(vec![(1, 15)]),
        "Failed type pool 1 map 2"
    );
}
