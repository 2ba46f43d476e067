use plate_tool::region_display::{parse_well, RegionDisplay};
use plate_tool::transfer_region::Region;
use plate_tool::well_name::{letters_to_num, num_to_letters, read_decimal, well_name, write_decimal};

#[test]
fn test_letters_to_num() {
    assert_eq!(letters_to_num("D"), Some(4));
    assert_eq!(letters_to_num("d"), None);
    assert_eq!(letters_to_num("AD"), Some(26 + 4));
    assert_eq!(letters_to_num("CG"), Some(3 * 26 + 7));
}

#[test]
fn test_num_to_letters() {
    println!("27 is {:?}", num_to_letters(27));
    assert_eq!(num_to_letters(1), Some("A".to_string()));
    assert_eq!(num_to_letters(26), Some("Z".to_string()));
    assert_eq!(num_to_letters(27), Some("AA".to_string()));
    assert_eq!(num_to_letters(111), Some("DG".to_string()));
}

#[test]
fn test_l2n_and_n2l() {
    assert_eq!(
        num_to_letters(letters_to_num("A").unwrap()),
        Some("A".to_string())
    );
    assert_eq!(
        num_to_letters(letters_to_num("BJ").unwrap()),
        Some("BJ".to_string())
    );
    for i in 1..=255 {
        assert_eq!(letters_to_num(&num_to_letters(i as u8).unwrap()), Some(i));
    }
}

#[test]
fn test_try_from_string_for_regiondisplay() {
    let desired = RegionDisplay {
        text: "A1:E5".to_string(),
        row_start: 1,
        row_end: 5,
        col_start: 1,
        col_end: 5,
    };
    assert_eq!(desired, "A1:E5".to_string().try_into().unwrap());
    assert_eq!(desired, RegionDisplay::from_text("A1:E5".to_string()).unwrap());
}

#[test]
fn letters_edge_cases() {
    assert_eq!(num_to_letters(0), None);
    assert_eq!(num_to_letters(52), Some("AZ".to_string()));
    assert_eq!(num_to_letters(53), Some("BA".to_string()));
    assert_eq!(num_to_letters(255), Some("IU".to_string()));
    assert_eq!(letters_to_num(""), Some(0));
    assert_eq!(letters_to_num("IU"), Some(255));
    assert_eq!(letters_to_num("IV"), None);
    assert_eq!(letters_to_num("AAA"), None);
    assert_eq!(letters_to_num("AAAAAAAAAAAA"), None);
    assert_eq!(letters_to_num("A1"), None);
    assert_eq!(letters_to_num("\u{141}"), None);
    assert_eq!(letters_to_num("AB"), Some(28));
}

#[test]
fn decimal_edge_cases() {
    assert_eq!(read_decimal("12"), Some(12));
    assert_eq!(read_decimal("+12"), Some(12));
    assert_eq!(read_decimal("007"), Some(7));
    assert_eq!(read_decimal("255"), Some(255));
    assert_eq!(read_decimal("256"), None);
    assert_eq!(read_decimal(""), None);
    assert_eq!(read_decimal("+"), None);
    assert_eq!(read_decimal("-1"), None);
    assert_eq!(read_decimal("1a"), None);
    assert_eq!(read_decimal("\u{663}"), None);
    for n in 0..=255u8 {
        assert_eq!(write_decimal(n), n.to_string());
        assert_eq!(read_decimal(&n.to_string()), n.to_string().parse::<u8>().ok());
        assert_eq!(read_decimal(&write_decimal(n)), Some(n));
    }
}

#[test]
fn well_names() {
    assert_eq!(well_name((28, 12)), Some("AB12".to_string()));
    assert_eq!(well_name((1, 0)), Some("A0".to_string()));
    assert_eq!(well_name((0, 1)), None);
    assert_eq!(parse_well("AB12"), Some((28, 12)));
    assert_eq!(parse_well("well AB12 of plate"), Some((28, 12)));
    assert_eq!(parse_well("ab12"), None);
    assert_eq!(parse_well("A"), None);
    assert_eq!(parse_well("ZZZ1"), None);
    assert_eq!(parse_well("A256"), None);
    assert_eq!(parse_well("A1B2"), Some((1, 1)));
}

#[test]
fn region_text_faults() {
    assert_eq!(RegionDisplay::from_text("A1".to_string()), Err("Regex match failed"));
    assert_eq!(RegionDisplay::from_text("a1:e5".to_string()), Err("Regex match failed"));
    assert_eq!(
        RegionDisplay::from_text("ZZZ1:A1".to_string()),
        Err("Column start failed to parse")
    );
    assert_eq!(
        RegionDisplay::from_text("A1:ZZZ1".to_string()),
        Err("Column end failed to parse")
    );
    assert_eq!(
        RegionDisplay::from_text("ZZZ999:ZZZ999".to_string()),
        Err("Column start failed to parse")
    );
    assert_eq!(
        RegionDisplay::from_text("A999:ZZZ1".to_string()),
        Err("Column end failed to parse")
    );
    assert_eq!(RegionDisplay::from_text("A999:B1".to_string()), Err("Row start failed to parse"));
    assert_eq!(RegionDisplay::from_text("A1:B999".to_string()), Err("Row end failed to parse"));
    assert_eq!(
        RegionDisplay::from_text("A\u{663}:B1".to_string()),
        Err("Row start failed to parse")
    );
    let found = RegionDisplay::from_text("see AB12:C3!".to_string()).unwrap();
    assert_eq!(found.text, "see AB12:C3!");
    assert_eq!(
        (found.col_start, found.row_start, found.col_end, found.row_end),
        (28, 12, 3, 3)
    );
    let none: Vec<Option<String>> = vec![];
    assert_eq!(
        RegionDisplay::from_groups("x".to_string(), &none),
        Err("Not enough capture groups")
    );
    let holes = vec![Some("A1:B2".to_string()), Some("A".to_string()), None, None, None];
    assert_eq!(
        RegionDisplay::from_groups("x".to_string(), &holes),
        Err("Not enough capture groups")
    );
}

#[test]
fn region_labels() {
    let display = RegionDisplay::from_corners((1, 1, 5, 5)).unwrap();
    assert_eq!(display.text, "A1:E5");
    assert_eq!(RegionDisplay::from_corners((28, 12, 255, 255)).unwrap().text, "AB12:IU255");
    assert_eq!(RegionDisplay::from_corners((0, 1, 5, 5)), Err("Column start failed to parse"));
    assert_eq!(RegionDisplay::from_corners((1, 1, 0, 5)), Err("Column end failed to parse"));
    assert_eq!(RegionDisplay::from_corners((1, 0, 1, 0)).unwrap().text, "A0:A0");
    assert_eq!(Region::from(&display), Region::Rect((1, 1), (5, 5)));
    let point = RegionDisplay::from_region(&Region::Point((3, 4))).unwrap();
    assert_eq!(point.text, "C4:C4");
    assert_eq!(Region::from(&point), Region::Point((3, 4)));
    let rect = RegionDisplay::from_region(&Region::Rect((2, 9), (1, 10))).unwrap();
    assert_eq!(rect.text, "B9:A10");
    assert_eq!(Region::from(&rect), Region::Rect((2, 9), (1, 10)));
    let same_row = RegionDisplay::from_corners((2, 9, 3, 9)).unwrap();
    assert_eq!(Region::from(&same_row), Region::Rect((2, 9), (3, 9)));
    assert_eq!(
        RegionDisplay::try_from("A1:E5".to_string()),
        RegionDisplay::from_text("A1:E5".to_string())
    );
    assert_eq!(RegionDisplay::try_from("A1".to_string()), Err("Regex match failed"));
    assert_eq!(display.clone(), display);
    assert_eq!(RegionDisplay::from_region(&Region::Point((0, 4))), None);
    assert_eq!(RegionDisplay::from_region(&Region::new_custom(&[((1, 1), (2, 2))])), None);
    assert_eq!(RegionDisplay::default().text, "");
    for cs in 1..=40u8 {
        for rs in [0u8, 1, 9, 10, 99, 100, 255] {
            let d = RegionDisplay::from_corners((cs, rs, 255 - cs, rs)).unwrap();
            let back = RegionDisplay::from_text(d.text.clone()).unwrap();
            assert_eq!(back, d);
        }
    }
}
