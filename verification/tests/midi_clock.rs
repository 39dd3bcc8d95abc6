use linkclihost::midi_clock::{
    plan_wait, select_port, stats_due, transport_message, ClockStats, WaitPlan, MIDI_START,
    MIDI_STOP, MIDI_TICK,
};

fn mean_abs_err_us(s: &ClockStats) -> f64 {
    if s.ticks == 0 {
        0.0
    } else {
        s.sum_abs_err_us as f64 / s.ticks as f64
    }
}

#[test]
fn stats_record_tracks_mean_and_max() {
    let mut s = ClockStats::default();
    s.record(100);
    s.record(-300);
    s.record(200);
    assert_eq!(s.ticks, 3);
    assert_eq!(s.last_err_us, 200);
    assert_eq!(s.max_abs_err_us, 300);
    assert!((mean_abs_err_us(&s) - 200.0).abs() < 1e-9);
}

#[test]
fn stats_empty_mean_is_zero() {
    let s = ClockStats::default();
    assert_eq!(mean_abs_err_us(&s), 0.0);
    assert_eq!(s.sum_abs_err_us, 0);
}

#[test]
fn stats_sum_counts_absolute_errors() {
    let mut s = ClockStats::default();
    for e in [5, -5, 0, -12, 3] {
        s.record(e);
    }
    assert_eq!(s.ticks, 5);
    assert_eq!(s.sum_abs_err_us, 25);
    assert_eq!(s.max_abs_err_us, 12);
    assert_eq!(s.last_err_us, 3);
}

#[test]
fn transport_edges_send_start_and_stop() {
    assert_eq!(transport_message(false, true), Some(MIDI_START));
    assert_eq!(transport_message(true, false), Some(MIDI_STOP));
    assert_eq!(transport_message(true, true), None);
    assert_eq!(transport_message(false, false), None);
    assert_eq!((MIDI_TICK, MIDI_START, MIDI_STOP), (0xF8, 0xFA, 0xFC));
}

#[test]
fn stats_are_due_every_480_ticks() {
    assert!(!stats_due(0, 0));
    assert!(!stats_due(479, 0));
    assert!(stats_due(480, 0));
    assert!(!stats_due(959, 480));
    assert!(stats_due(960, 480));
    assert!(!stats_due(10, u64::MAX));
}

#[test]
fn waits_sleep_coarsely_then_poll() {
    assert_eq!(plan_wait(10_000), WaitPlan::Sleep(8_000));
    assert_eq!(plan_wait(2_501), WaitPlan::Sleep(501));
    assert_eq!(plan_wait(2_500), WaitPlan::Poll);
    assert_eq!(plan_wait(-40), WaitPlan::Poll);
}

fn names() -> Vec<String> {
    vec!["Midi Through:Port-0".to_string(), "USB MIDI Interface".to_string(), "Другой порт".to_string()]
}

#[test]
fn port_selected_by_index() {
    assert_eq!(select_port(&names(), "0"), Ok(0));
    assert_eq!(select_port(&names(), "2"), Ok(2));
    assert_eq!(select_port(&names(), "+1"), Ok(1));
    assert_eq!(
        select_port(&names(), "3"),
        Err("MIDI port index 3 out of range (0..2)".to_string())
    );
}

#[test]
fn port_selected_by_name_ignoring_case() {
    assert_eq!(select_port(&names(), "through"), Ok(0));
    assert_eq!(select_port(&names(), "usb midi"), Ok(1));
    assert_eq!(select_port(&names(), "midi"), Ok(0));
    assert_eq!(select_port(&names(), "ДРУГОЙ"), Ok(2));
    assert_eq!(select_port(&names(), ""), Ok(0));
    assert_eq!(
        select_port(&names(), "pulse"),
        Err("no MIDI port matches \"pulse\"; available: Midi Through:Port-0, USB MIDI Interface, Другой порт".to_string())
    );
}

#[test]
fn no_ports_is_an_error() {
    assert_eq!(
        select_port(&Vec::new(), "0"),
        Err("no MIDI output ports found (try --list-midi-ports)".to_string())
    );
}

#[test]
fn oversized_index_falls_back_to_name_search() {
    assert_eq!(
        select_port(&vec!["a".to_string()], "99999999999999999999999"),
        Err("no MIDI port matches \"99999999999999999999999\"; available: a".to_string())
    );
    assert_eq!(select_port(&vec!["port 7".to_string(), "x".to_string()], "7"), Err("MIDI port index 7 out of range (0..1)".to_string()));
}
