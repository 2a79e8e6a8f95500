use dnsq::config::OutputConfig;
use dnsq::format::{compose_line, RecordFormatter};
use dnsq::record::ResourceRecord;
use hickory_client::rr::rdata::A;
use hickory_client::rr::{Name, RData, Record};
use std::str::FromStr;

fn record(code: u16, name: &str, ttl: u32, payload: Option<&str>) -> ResourceRecord {
    ResourceRecord::new(code, String::from(name), ttl, payload.map(String::from))
}

fn line(code: u16, name: &str, ttl: u32, payload: Option<&str>, seconds: bool, ansi: bool) -> String {
    let config = OutputConfig::new(seconds, ansi);
    RecordFormatter::new(record(code, name, ttl, payload), &config).format()
}

// What a terminal shows: control sequences run from the escape character and
// `[` to the first character in `@..=~`.
fn visible(text: &str) -> String {
    let mut out = String::new();
    let mut chars = text.chars();
    while let Some(c) = chars.next() {
        if c != '\u{1b}' {
            out.push(c);
            continue;
        }
        if chars.next() == Some('[') {
            for p in chars.by_ref() {
                if ('@'..='~').contains(&p) {
                    break;
                }
            }
        }
    }
    out
}

#[test]
fn address_record_without_colors() {
    assert_eq!(
        line(1, "example.com.", 300, Some("93.184.216.34"), true, false),
        "    A example.com.        5m00s 93.184.216.34"
    );
}

#[test]
fn address_record_with_colors() {
    assert_eq!(
        line(1, "example.com.", 300, Some("93.184.216.34"), true, true),
        "\u{1b}[38;5;1m    A\u{1b}[39m \u{1b}[38;5;75mexample.com.\u{1b}[39m        5m00s 93.184.216.34"
    );
}

#[test]
fn mail_record_with_bare_seconds() {
    assert_eq!(
        line(15, "example.org.", 3600, Some("10 mail.example.org."), false, false),
        "   MX example.org.         3600 10 mail.example.org."
    );
    assert_eq!(
        line(15, "example.org.", 3600, Some("10 mail.example.org."), false, true),
        "\u{1b}[38;5;38m   MX\u{1b}[39m \u{1b}[38;5;75mexample.org.\u{1b}[39m         3600 10 mail.example.org."
    );
}

#[test]
fn zero_ttl_as_duration() {
    assert_eq!(line(1, "a.", 0, Some("x"), true, false), "    A a.           0s x");
    assert_eq!(line(1, "a.", 0, Some("x"), false, false), "    A a.            0 x");
}

#[test]
fn absent_payload_renders_empty() {
    assert_eq!(line(2, "example.com.", 59, None, true, false), "   NS example.com.          59s ");
    let config = OutputConfig::new(true, false);
    let formatter = RecordFormatter::new(record(2, "example.com.", 59, None), &config);
    assert_eq!(formatter.format_payload(), "");
    let with = RecordFormatter::new(record(2, "example.com.", 59, Some("ns1.")), &config);
    assert_eq!(with.format_payload(), "ns1.");
}

#[test]
fn fields_in_order() {
    let config = OutputConfig::new(true, false);
    let formatter = RecordFormatter::new(record(16, "t.example.", 90061, Some("\"v=spf1\"")), &config);
    assert_eq!(formatter.format_record_type(), "TXT");
    assert_eq!(formatter.format_name(), "t.example.");
    assert_eq!(formatter.format_duration(), "1d1h01m01s");
    assert_eq!(formatter.format_payload(), "\"v=spf1\"");
    assert_eq!(formatter.format(), "  TXT t.example.   1d1h01m01s \"v=spf1\"");
}

#[test]
fn mnemonics_come_from_the_type_code() {
    let config = OutputConfig::new(true, false);
    let cases: Vec<(u16, &str)> = vec![
        (1, "A"),
        (28, "AAAA"),
        (5, "CNAME"),
        (15, "MX"),
        (2, "NS"),
        (6, "SOA"),
        (33, "SRV"),
        (16, "TXT"),
        (257, "CAA"),
        (52, "TLSA"),
        (51, "NSEC3PARAM"),
        (0, "ZERO"),
        (4242, "Unknown"),
    ];
    for (code, mnemonic) in cases {
        let formatter = RecordFormatter::new(record(code, "x.", 1, None), &config);
        assert_eq!(formatter.format_record_type(), mnemonic);
    }
}

#[test]
fn long_type_and_long_ttl_are_not_cut() {
    assert_eq!(
        line(51, "example.com.", u32::MAX, Some("1 0 10 AABB"), true, false),
        "NSEC3PARAM example.com. 49710d6h28m15s 1 0 10 AABB"
    );
    assert_eq!(
        line(4242, "example.com.", 1, None, true, false),
        "Unknown example.com.           1s "
    );
}

#[test]
fn same_input_same_line() {
    for ansi in [false, true] {
        for seconds in [false, true] {
            let first = line(28, "example.com.", 86400, Some("2606:2800:220:1::"), seconds, ansi);
            let second = line(28, "example.com.", 86400, Some("2606:2800:220:1::"), seconds, ansi);
            assert_eq!(first, second);
            assert_eq!(first.as_bytes(), second.as_bytes());
            let config = OutputConfig::new(seconds, ansi);
            let formatter = RecordFormatter::new(
                record(28, "example.com.", 86400, Some("2606:2800:220:1::")),
                &config,
            );
            assert_eq!(formatter.format(), formatter.format());
            assert_eq!(formatter.format(), first);
        }
    }
}

#[test]
fn plain_line_has_no_escape_and_aligned_fields() {
    let codes: Vec<u16> = vec![1, 28, 5, 15, 51, 0, 4242];
    let ttls: Vec<u32> = vec![0, 59, 60, 3661, 90061, u32::MAX];
    for code in &codes {
        for ttl in &ttls {
            for seconds in [false, true] {
                let out = line(*code, "example.com.", *ttl, Some("data"), seconds, false);
                assert!(!out.contains('\u{1b}'));
                let config = OutputConfig::new(seconds, false);
                let formatter =
                    RecordFormatter::new(record(*code, "example.com.", *ttl, Some("data")), &config);
                let type_text = formatter.format_record_type();
                let ttl_text = formatter.format_duration();
                let type_field = format!("{:>5}", type_text);
                let ttl_field = format!("{:>12}", ttl_text);
                assert!(type_field.chars().count() >= 5);
                assert!(ttl_field.chars().count() >= 12);
                assert!(type_field.ends_with(type_text.as_str()));
                assert!(ttl_field.ends_with(ttl_text.as_str()));
                assert_eq!(out, format!("{} example.com. {} data", type_field, ttl_field));
            }
        }
    }
}

#[test]
fn colors_leave_the_visible_text_unchanged() {
    let codes: Vec<u16> = vec![1, 28, 5, 15, 51, 0, 4242, 65305];
    let ttls: Vec<u32> = vec![0, 59, 60, 3661, 90061, u32::MAX];
    for code in &codes {
        for ttl in &ttls {
            for seconds in [false, true] {
                let plain = line(*code, "mail.example.com.", *ttl, Some("10 mx."), seconds, false);
                let colored = line(*code, "mail.example.com.", *ttl, Some("10 mx."), seconds, true);
                assert_ne!(plain, colored);
                assert_eq!(visible(&colored), plain);
                assert_eq!(visible(&plain), plain);
            }
        }
    }
}

#[test]
fn colors_wrap_type_and_name_only() {
    let colored = line(6, "example.com.", 60, Some("ns. admin. 1 2 3 4 5"), true, true);
    assert_eq!(colored.matches('\u{1b}').count(), 4);
    assert_eq!(colored.matches("\u{1b}[39m").count(), 2);
    assert!(colored.starts_with("\u{1b}[38;5;28m  SOA\u{1b}[39m "));
    assert!(colored.ends_with("\u{1b}[39m        1m00s ns. admin. 1 2 3 4 5"));
}

#[test]
fn color_support_decides_over_the_flag() {
    let wanted = OutputConfig::new(true, true);
    let degraded = wanted.with_color_support(false);
    assert!(!degraded.ansi());
    assert!(degraded.format_seconds());
    let kept = wanted.with_color_support(true);
    assert!(kept.ansi());
    let off = OutputConfig::new(false, false).with_color_support(true);
    assert!(!off.ansi());
    assert!(!off.format_seconds());
    let plain = OutputConfig::new(true, false);
    let a = RecordFormatter::new(record(1, "example.com.", 300, Some("1.2.3.4")), &degraded).format();
    let b = RecordFormatter::new(record(1, "example.com.", 300, Some("1.2.3.4")), &plain).format();
    assert_eq!(a, b);
}

#[test]
fn config_keeps_its_flags() {
    let config = OutputConfig::new(true, false);
    assert!(config.format_seconds());
    assert!(!config.ansi());
    let other = OutputConfig::new(false, true);
    assert!(!other.format_seconds());
    assert!(other.ansi());
}

#[test]
fn record_from_the_dns_library() {
    let name = Name::from_str("example.com.").unwrap();
    let answer: Record = Record::from_rdata(name, 300, RData::A(A::new(93, 184, 216, 34)));
    let own = ResourceRecord::new(
        u16::from(answer.record_type()),
        answer.name().to_string(),
        answer.ttl(),
        answer.data().map(|data| data.to_string()),
    );
    let config = OutputConfig::new(true, false);
    assert_eq!(
        RecordFormatter::new(own, &config).format(),
        "    A example.com.        5m00s 93.184.216.34"
    );
}

#[test]
fn line_is_composed_from_its_fields() {
    assert_eq!(
        compose_line("A", "example.com.", "5m00s", "93.184.216.34", None),
        "    A example.com.        5m00s 93.184.216.34"
    );
    assert_eq!(compose_line("", "", "", "", None), "                    ");
    assert_eq!(
        compose_line("TYPE65534", "n.", "1234567890123", "p", None),
        "TYPE65534 n. 1234567890123 p"
    );
}

#[test]
fn colored_line_is_composed_from_its_fields() {
    assert_eq!(
        compose_line("A", "n.", "1s", "p", Some(0)),
        "\u{1b}[38;5;0m    A\u{1b}[39m \u{1b}[38;5;75mn.\u{1b}[39m           1s p"
    );
    assert_eq!(
        compose_line("A", "n.", "1s", "p", Some(9)),
        "\u{1b}[38;5;9m    A\u{1b}[39m \u{1b}[38;5;75mn.\u{1b}[39m           1s p"
    );
    assert_eq!(
        compose_line("A", "n.", "1s", "p", Some(42)),
        "\u{1b}[38;5;42m    A\u{1b}[39m \u{1b}[38;5;75mn.\u{1b}[39m           1s p"
    );
    assert_eq!(
        compose_line("A", "n.", "1s", "p", Some(255)),
        "\u{1b}[38;5;255m    A\u{1b}[39m \u{1b}[38;5;75mn.\u{1b}[39m           1s p"
    );
}

#[test]
fn escape_in_a_name_is_kept_as_it_is() {
    let out = line(1, "a\u{1b}[1mb.", 1, None, true, false);
    assert_eq!(out, "    A a\u{1b}[1mb.           1s ");
    assert_ne!(visible(&out), out);
}
