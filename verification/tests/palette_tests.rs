use dnsq::config::OutputConfig;
use dnsq::format::RecordFormatter;
use dnsq::palette::{record_color, NAME_COLOR, UNKNOWN_COLOR};
use dnsq::record::ResourceRecord;

fn listed() -> Vec<(u16, u8)> {
    vec![
        (1, 1),
        (28, 2),
        (65305, 3),
        (255, 4),
        (252, 5),
        (257, 6),
        (59, 7),
        (60, 8),
        (62, 9),
        (48, 10),
        (43, 11),
        (13, 12),
        (65, 13),
        (251, 14),
        (25, 15),
        (15, 38),
        (35, 17),
        (2, 18),
        (47, 19),
        (50, 20),
        (51, 21),
        (10, 22),
        (61, 23),
        (41, 24),
        (12, 25),
        (46, 26),
        (24, 27),
        (6, 28),
        (33, 29),
        (44, 30),
        (64, 31),
        (52, 32),
        (250, 33),
        (16, 34),
        (0, 36),
        (5, 37),
    ]
}

#[test]
fn each_listed_type_has_its_entry() {
    for (code, index) in listed() {
        assert_eq!(record_color(code), index);
    }
}

#[test]
fn every_type_code_has_a_color() {
    let table = listed();
    let mut code: u16 = 0;
    loop {
        let index = record_color(code);
        let own = table.iter().find(|entry| entry.0 == code);
        match own {
            Some(entry) => assert_eq!(index, entry.1),
            None => assert_eq!(index, UNKNOWN_COLOR),
        }
        if code == u16::MAX {
            break;
        }
        code += 1;
    }
}

#[test]
fn unknown_types_share_one_color() {
    assert_eq!(UNKNOWN_COLOR, 35);
    assert_eq!(record_color(4242), 35);
    assert_eq!(record_color(65535), 35);
    assert_eq!(record_color(3), 35);
}

#[test]
fn listed_types_have_distinct_colors() {
    let table = listed();
    for a in &table {
        assert_ne!(a.1, UNKNOWN_COLOR);
        for b in &table {
            if a.0 != b.0 {
                assert_ne!(a.1, b.1);
            }
        }
    }
}

#[test]
fn name_color_is_no_record_color() {
    assert_eq!(NAME_COLOR, 75);
    let mut code: u16 = 0;
    loop {
        assert_ne!(record_color(code), NAME_COLOR);
        if code == u16::MAX {
            break;
        }
        code += 1;
    }
}

#[test]
fn same_type_same_color() {
    assert_eq!(record_color(15), record_color(15));
    assert_eq!(record_color(9999), record_color(9999));
}

#[test]
fn formatter_color_follows_the_record_type() {
    let config = OutputConfig::new(true, true);
    let mx = ResourceRecord::new(15, String::from("example.com."), 60, None);
    assert_eq!(RecordFormatter::new(mx, &config).get_record_color(), 38);
    let other = ResourceRecord::new(1234, String::from("example.com."), 60, None);
    assert_eq!(RecordFormatter::new(other, &config).get_record_color(), 35);
}
