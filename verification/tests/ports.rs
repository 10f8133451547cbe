use port_scanner::number::{parse_number, NumberError};
use port_scanner::ports::{parse_item_at, parse_ports, PortRange, PortSpecError};
use port_scanner::text::is_whitespace;

/// The port list as the standard library's own tools give it: split, trim,
/// parse, expand, sort, remove repeats, drop zero.
fn with_std_tools(spec: &str) -> Option<Vec<u16>> {
    let mut ports: Vec<u16> = Vec::new();
    for part in spec.split(',') {
        let part = part.trim();
        if part.is_empty() {
            continue;
        }
        if part.contains('-') {
            let ends: Vec<&str> = part.split('-').collect();
            if ends.len() != 2 {
                return None;
            }
            let start: u16 = ends[0].parse().ok()?;
            let end: u16 = ends[1].parse().ok()?;
            if start > end {
                return None;
            }
            for port in start..=end {
                ports.push(port);
            }
        } else {
            ports.push(part.parse().ok()?);
        }
    }
    ports.sort();
    ports.dedup();
    ports.retain(|&port| port != 0);
    if ports.is_empty() {
        None
    } else {
        Some(ports)
    }
}

fn number(text: &str) -> Result<u16, NumberError> {
    let chars: Vec<char> = text.chars().collect();
    parse_number(&chars, 0, chars.len())
}

#[test]
fn parse_ports_sorts_and_drops_repeats_and_zero() {
    assert_eq!(parse_ports("22,22,80-82,0"), Ok(vec![22, 80, 81, 82]));
}

#[test]
fn parse_ports_rejects_an_inverted_range() {
    assert_eq!(parse_ports("100-50"), Err(PortSpecError::InvertedRange));
}

#[test]
fn parse_ports_rejects_a_word() {
    assert_eq!(
        parse_ports("abc"),
        Err(PortSpecError::InvalidNumber(NumberError::InvalidDigit))
    );
}

#[test]
fn parse_ports_rejects_the_empty_specification() {
    assert_eq!(parse_ports(""), Err(PortSpecError::NoPorts));
}

#[test]
fn parse_ports_rejects_what_names_only_port_zero() {
    assert_eq!(parse_ports("0"), Err(PortSpecError::NoPorts));
    assert_eq!(parse_ports("0-0"), Err(PortSpecError::NoPorts));
    assert_eq!(parse_ports(" , ,"), Err(PortSpecError::NoPorts));
}

#[test]
fn parse_ports_wants_exactly_one_dash_in_a_range() {
    assert_eq!(parse_ports("1-2-3"), Err(PortSpecError::InvalidRange));
    assert_eq!(parse_ports("1--3"), Err(PortSpecError::InvalidRange));
    assert_eq!(parse_ports("--"), Err(PortSpecError::InvalidRange));
}

#[test]
fn parse_ports_wants_a_number_on_both_sides_of_the_dash() {
    assert_eq!(
        parse_ports("-5"),
        Err(PortSpecError::InvalidNumber(NumberError::Empty))
    );
    assert_eq!(
        parse_ports("5-"),
        Err(PortSpecError::InvalidNumber(NumberError::Empty))
    );
    assert_eq!(
        parse_ports("-"),
        Err(PortSpecError::InvalidNumber(NumberError::Empty))
    );
    assert_eq!(
        parse_ports("1 - 5"),
        Err(PortSpecError::InvalidNumber(NumberError::InvalidDigit))
    );
}

#[test]
fn parse_ports_rejects_numbers_above_sixteen_bits() {
    assert_eq!(
        parse_ports("65536"),
        Err(PortSpecError::InvalidNumber(NumberError::Overflow))
    );
    assert_eq!(
        parse_ports("1-70000"),
        Err(PortSpecError::InvalidNumber(NumberError::Overflow))
    );
    assert_eq!(parse_ports("65535"), Ok(vec![65535]));
}

#[test]
fn parse_ports_reports_the_first_faulty_item() {
    assert_eq!(
        parse_ports("abc,100-50"),
        Err(PortSpecError::InvalidNumber(NumberError::InvalidDigit))
    );
    assert_eq!(parse_ports("100-50,abc"), Err(PortSpecError::InvertedRange));
    assert_eq!(parse_ports("22,1-2-3,abc"), Err(PortSpecError::InvalidRange));
}

#[test]
fn parse_ports_gives_nothing_when_a_late_item_is_faulty() {
    assert_eq!(
        parse_ports("22,80,x"),
        Err(PortSpecError::InvalidNumber(NumberError::InvalidDigit))
    );
}

#[test]
fn parse_ports_ignores_blank_items_and_outer_white_space() {
    assert_eq!(parse_ports(" 22 ,, 80 ,"), Ok(vec![22, 80]));
    assert_eq!(parse_ports("\t443\n"), Ok(vec![443]));
    assert_eq!(parse_ports("\u{a0}22\u{3000},\u{2003}80-81\u{85}"), Ok(vec![22, 80, 81]));
}

#[test]
fn parse_ports_accepts_a_plus_sign_and_leading_zeros() {
    assert_eq!(parse_ports("+80"), Ok(vec![80]));
    assert_eq!(parse_ports("+1-+3"), Ok(vec![1, 2, 3]));
    assert_eq!(parse_ports("0022"), Ok(vec![22]));
    assert_eq!(
        parse_ports("+"),
        Err(PortSpecError::InvalidNumber(NumberError::InvalidDigit))
    );
}

#[test]
fn parse_ports_merges_overlapping_ranges() {
    assert_eq!(parse_ports("5-8,1-6,7"), Ok(vec![1, 2, 3, 4, 5, 6, 7, 8]));
}

#[test]
fn parse_ports_covers_the_whole_range() {
    let ports = parse_ports("0-65535").unwrap();
    assert_eq!(ports.len(), 65535);
    assert_eq!(ports[0], 1);
    assert_eq!(ports[65534], 65535);
}

#[test]
fn parse_ports_is_strictly_ascending_without_zero() {
    let specs = [
        "1000-1024,22,80,22,1010",
        "65535,1,0,3-2000,7",
        "9,22,80-81",
        "0-10,5-15,10-20",
    ];
    for spec in specs {
        let ports = parse_ports(spec).unwrap();
        assert!(!ports.is_empty());
        assert!(ports[0] != 0);
        for pair in ports.windows(2) {
            assert!(pair[0] < pair[1]);
        }
    }
}

#[test]
fn parse_ports_agrees_with_the_standard_tools() {
    let specs = [
        "22,22,80-82,0",
        "100-50",
        "abc",
        "",
        "0",
        ",",
        "1-2-3",
        "-5",
        "5-",
        "65536",
        "65535",
        " 22 ,, 80 ,",
        "+80",
        "+1-+3",
        "+",
        "1 - 5",
        "0-65535",
        "8080,443,1-1024",
        "\u{a0}22\u{3000}",
        "22;80",
        "٢٢",
        "1e3",
        "0x16",
        "22,+",
        "3-3",
        "00000000000000000000012",
    ];
    for spec in specs {
        assert_eq!(parse_ports(spec).ok(), with_std_tools(spec), "for {:?}", spec);
    }
}

#[test]
fn each_refusal_says_why() {
    assert_eq!(PortSpecError::InvalidRange.message(), "Invalid range format");
    assert_eq!(PortSpecError::InvertedRange.message(), "Start > end");
    assert_eq!(PortSpecError::NoPorts.message(), "No valid ports");
    for (text, kind) in [
        ("", NumberError::Empty),
        ("x", NumberError::InvalidDigit),
        ("65536", NumberError::Overflow),
    ] {
        let expected = text.parse::<u16>().unwrap_err().to_string();
        assert_eq!(kind.message(), expected);
        assert_eq!(PortSpecError::InvalidNumber(kind).message(), expected);
    }
}

#[test]
fn parse_item_reads_blanks_single_ports_and_ranges() {
    let chars: Vec<char> = "  ,7, 10-12 ".chars().collect();
    assert_eq!(parse_item_at(&chars, 0, 2), Ok(None));
    assert_eq!(parse_item_at(&chars, 3, 4), Ok(Some(PortRange { start: 7, end: 7 })));
    assert_eq!(parse_item_at(&chars, 5, 12), Ok(Some(PortRange { start: 10, end: 12 })));
    assert_eq!(parse_item_at(&chars, 0, 0), Ok(None));
}

#[test]
fn numbers_are_read_as_the_standard_library_reads_them() {
    let texts = [
        "", "0", "7", "65535", "65536", "99999", "99999x", "6553x9", "12x", "x12", "+", "-",
        "+5", "-5", "++5", "+-5", " 5", "5 ", "0005", "000000000000065535", "655350", "١٢",
        "1_000", "4294967296", "+65535", "+65536", "5+",
    ];
    for text in texts {
        let expected = match text.parse::<u16>() {
            Ok(n) => Ok(n),
            Err(e) => Err(match e.kind() {
                std::num::IntErrorKind::Empty => NumberError::Empty,
                std::num::IntErrorKind::InvalidDigit => NumberError::InvalidDigit,
                std::num::IntErrorKind::PosOverflow => NumberError::Overflow,
                other => panic!("unexpected kind {:?} for {:?}", other, text),
            }),
        };
        assert_eq!(number(text), expected, "for {:?}", text);
    }
}

#[test]
fn every_small_number_reads_back() {
    for n in 0..=65535u32 {
        assert_eq!(number(&format!("{}", n)), Ok(n as u16));
    }
    for n in 65536..=70000u32 {
        assert_eq!(number(&format!("{}", n)), Err(NumberError::Overflow));
    }
}

#[test]
fn a_number_may_stand_inside_a_longer_text() {
    let chars: Vec<char> = "ab123cd".chars().collect();
    assert_eq!(parse_number(&chars, 2, 5), Ok(123));
    assert_eq!(parse_number(&chars, 2, 6), Err(NumberError::InvalidDigit));
    assert_eq!(parse_number(&chars, 3, 3), Err(NumberError::Empty));
}

#[test]
fn white_space_is_what_the_standard_library_calls_white_space() {
    for code in 0..=0x10FFFFu32 {
        if let Some(c) = char::from_u32(code) {
            assert_eq!(is_whitespace(c), c.is_whitespace(), "for U+{:04X}", code);
        }
    }
}
