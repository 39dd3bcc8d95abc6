use linkclihost::meter::{label_for_sixteenths, Meter};

#[test]
fn parses_common_meters() {
    assert_eq!(Meter::parse("4/4"), Ok(Meter { num: 4, den: 4 }));
    assert_eq!(Meter::parse("5/4"), Ok(Meter { num: 5, den: 4 }));
    assert_eq!(Meter::parse("7/8"), Ok(Meter { num: 7, den: 8 }));
    assert_eq!(Meter::parse(" 6 / 8 "), Ok(Meter { num: 6, den: 8 }));
}

#[test]
fn steps_is_sixteenths_per_bar() {
    assert_eq!(Meter::parse("4/4").unwrap().steps(), 16);
    assert_eq!(Meter::parse("5/4").unwrap().steps(), 20);
    assert_eq!(Meter::parse("7/8").unwrap().steps(), 14);
    assert_eq!(Meter::parse("6/8").unwrap().steps(), 12);
    assert_eq!(Meter::parse("15/16").unwrap().steps(), 15);
}

#[test]
fn rejects_malformed_input() {
    assert!(Meter::parse("44").is_err());
    assert!(Meter::parse("0/4").is_err());
    assert!(Meter::parse("4/3").is_err());
    assert!(Meter::parse("a/b").is_err());
    assert!(Meter::parse("").is_err());
}

#[test]
fn rejects_bars_longer_than_max_steps() {
    assert!(Meter::parse("9/4").is_err()); // 36 sixteenths
    assert!(Meter::parse("8/4").is_ok()); // 32 sixteenths, exactly max
    assert!(Meter::parse("17/8").is_err()); // 34 sixteenths
}

#[test]
fn label_round_trips() {
    assert_eq!(Meter::parse("7/8").unwrap().label(), "7/8");
}

#[test]
fn error_messages_name_the_input() {
    assert_eq!(
        Meter::parse("44"),
        Err("invalid meter \"44\" (expected N/D, e.g. 4/4, 5/4, 7/8)".to_string())
    );
    assert_eq!(
        Meter::parse("0/4"),
        Err("invalid meter \"0/4\" (expected N/D, e.g. 4/4, 5/4, 7/8)".to_string())
    );
    assert_eq!(
        Meter::parse("4/3"),
        Err("invalid meter \"4/3\": denominator must be 2, 4, 8, or 16".to_string())
    );
    assert_eq!(
        Meter::parse("9/4"),
        Err("meter \"9/4\" is too long: 36 sixteenths per bar (max 32)".to_string())
    );
}

#[test]
fn numbers_follow_unsigned_parsing() {
    assert_eq!(Meter::parse("+3/+4"), Ok(Meter { num: 3, den: 4 }));
    assert_eq!(Meter::parse("\t2\u{00A0}/\u{3000}2\n"), Ok(Meter { num: 2, den: 2 }));
    assert_eq!(Meter::parse("007/08"), Ok(Meter { num: 7, den: 8 }));
    assert!(Meter::parse("-3/4").is_err());
    assert!(Meter::parse("+/4").is_err());
    assert!(Meter::parse("3/").is_err());
    assert!(Meter::parse("3 3/4").is_err());
    assert!(Meter::parse("4/4/4").is_err());
    // past u32: rejected as malformed, not as too long
    assert_eq!(
        Meter::parse("4294967296/4"),
        Err("invalid meter \"4294967296/4\" (expected N/D, e.g. 4/4, 5/4, 7/8)".to_string())
    );
    assert_eq!(
        Meter::parse("4294967295/2"),
        Err("meter \"4294967295/2\" is too long: 34359738360 sixteenths per bar (max 32)".to_string())
    );
}

#[test]
fn labels_of_valid_meters_parse_back() {
    for den in [2u32, 4, 8, 16] {
        for num in 1u32..=32 {
            let m = Meter { num, den };
            if num as usize * 16 / den as usize <= 32 {
                assert_eq!(Meter::parse(&m.label()), Ok(m));
            }
        }
    }
}

/// The program's label of a bare quantum: the float test for a whole number
/// of sixteenths, then the library's label.
fn label_for_quantum(quantum: f64) -> String {
    let sixteenths = quantum * 4.0;
    if sixteenths > 0.0 && (sixteenths - sixteenths.round()).abs() < 1e-9 {
        return label_for_sixteenths(sixteenths.round() as u32);
    }
    format!("q={quantum}")
}

#[test]
fn quantum_labels_prefer_quarters() {
    assert_eq!(label_for_quantum(4.0), "4/4");
    assert_eq!(label_for_quantum(5.0), "5/4");
    assert_eq!(label_for_quantum(3.5), "7/8");
    assert_eq!(label_for_quantum(3.0), "3/4");
    assert_eq!(label_for_quantum(3.75), "15/16");
    assert_eq!(label_for_quantum(4.3), "q=4.3");
}

#[test]
fn sixteenths_labels_parse_back() {
    for k in 1u32..=32 {
        let m = Meter::parse(&label_for_sixteenths(k)).unwrap();
        assert_eq!(m.steps(), k as usize);
        let den = if k % 4 == 0 { 4 } else if k % 2 == 0 { 8 } else { 16 };
        assert_eq!(m.den, den);
    }
}

#[test]
fn sixteenth_counts_label_as_quarters_then_eighths() {
    assert_eq!(label_for_sixteenths(16), "4/4");
    assert_eq!(label_for_sixteenths(20), "5/4");
    assert_eq!(label_for_sixteenths(14), "7/8");
    assert_eq!(label_for_sixteenths(12), "3/4");
    assert_eq!(label_for_sixteenths(15), "15/16");
}
