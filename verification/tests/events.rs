use linkclihost::events::{csv_escape, csv_line, csv_row, csv_row_at, LogEvent, CSV_HEADERS};

/// 2026-05-28T12:03:14Z in milliseconds since the Unix epoch.
const T_MS: i64 = 1_779_969_794_000;

fn row(e: &LogEvent) -> [String; 7] {
    csv_row(T_MS, e).expect("timestamp in range")
}

#[test]
fn csv_headers_have_seven_columns() {
    assert_eq!(CSV_HEADERS.len(), 7);
}

#[test]
fn tempo_changed_csv_row() {
    let r = row(&LogEvent::TempoChanged { from_bpm: "120".into(), to_bpm: "119.5".into() });
    assert_eq!(r[1], "tempo_changed");
    assert_eq!(r[2], "120");
    assert_eq!(r[3], "119.5");
    assert!(r[4].is_empty());
    assert!(r[5].is_empty());
}

#[test]
fn session_start_csv_row_carries_metadata_in_note() {
    let r = row(&LogEvent::SessionStart { quantum: "4".into(), peer_name: "rig".into() });
    assert_eq!(r[1], "session_start");
    assert!(r[6].contains("quantum=4"));
    assert!(r[6].contains("peer=rig"));
}

#[test]
fn transport_changed_csv_row_records_playing() {
    let r = row(&LogEvent::TransportChanged { playing: true });
    assert_eq!(r[5], "true");
}

#[test]
fn clock_stats_csv_row_carries_metrics_in_note() {
    let r = row(&LogEvent::ClockStats {
        port: "Midi Through".into(),
        ticks: 480,
        mean_abs_err_us: "42.5".into(),
        max_abs_err_us: 310,
    });
    assert_eq!(r[1], "clock_stats");
    assert!(r[6].contains("port=Midi Through"));
    assert!(r[6].contains("ticks=480"));
    assert!(r[6].contains("mean_abs_us=42.5"));
    assert!(r[6].contains("max_abs_us=310"));
}

#[test]
fn timestamp_is_rfc3339_utc_millis() {
    let r = row(&LogEvent::PeersChanged { count: 1 });
    assert_eq!(r[0], "2026-05-28T12:03:14.000Z");
    let r = csv_row(T_MS + 812, &LogEvent::PeersChanged { count: 1 }).unwrap();
    assert_eq!(r[0], "2026-05-28T12:03:14.812Z");
    assert!(csv_row(i64::MAX, &LogEvent::PeersChanged { count: 1 }).is_none());
}

#[test]
fn every_variant_fills_its_own_cells() {
    let empty = String::new();
    let r = csv_row_at("T", &LogEvent::PeersChanged { count: 3 });
    assert_eq!(r, ["T".to_string(), "peers_changed".into(), empty.clone(), empty.clone(), "3".into(), empty.clone(), empty.clone()]);
    let r = csv_row_at("T", &LogEvent::TransportChanged { playing: false });
    assert_eq!(r[5], "false");
    let r = csv_row_at("T", &LogEvent::SessionEnd { reason: "sigint".into() });
    assert_eq!(r, ["T".to_string(), "session_end".into(), empty.clone(), empty.clone(), empty.clone(), empty.clone(), "sigint".into()]);
    let r = csv_row_at("T", &LogEvent::ClockStats {
        port: "p".into(),
        ticks: 0,
        mean_abs_err_us: "0.0".into(),
        max_abs_err_us: -7,
    });
    assert_eq!(r[6], "port=p ticks=0 mean_abs_us=0.0 max_abs_us=-7");
    let r = csv_row_at("T", &LogEvent::SessionStart { quantum: "3.5".into(), peer_name: "a b".into() });
    assert_eq!(r[6], "quantum=3.5 peer=a b");
}

#[test]
fn csv_escapes_commas_in_notes() {
    assert_eq!(csv_escape("a, b"), "\"a, b\"");
}

#[test]
fn csv_escape_quotes_and_newlines() {
    assert_eq!(csv_escape("plain"), "plain");
    assert_eq!(csv_escape(""), "");
    assert_eq!(csv_escape("say \"hi\""), "\"say \"\"hi\"\"\"");
    assert_eq!(csv_escape("two\nlines"), "\"two\nlines\"");
}

#[test]
fn csv_line_joins_escaped_cells() {
    let r = csv_row_at("2026-05-28T12:00:00.000Z", &LogEvent::SessionEnd { reason: "a, b".into() });
    assert_eq!(csv_line(&r), "2026-05-28T12:00:00.000Z,session_end,,,,,\"a, b\"");
    let h: [String; 7] = CSV_HEADERS.map(|s| s.to_string());
    assert_eq!(csv_line(&h), "timestamp_utc,event,bpm_from,bpm_to,peer_count,playing,note");
}

/// Reading a field back the way a CSV reader does gives the text written.
#[test]
fn escaped_fields_read_back() {
    fn unescape(s: &str) -> String {
        if s.len() >= 2 && s.starts_with('"') && s.ends_with('"') {
            s[1..s.len() - 1].replace("\"\"", "\"")
        } else {
            s.to_string()
        }
    }
    for s in ["", "x", "a,b", "\"", "\"\"", "q\"q", "line\nbreak", "\"quoted\""] {
        assert_eq!(unescape(&csv_escape(s)), s);
    }
}
