use linkclihost::sequencer::{
    preset_index, preset_names, presets, row, wrap_step, NUM_PRESETS, STEPS, TRACKS,
};

#[test]
fn row_parses_pattern_string() {
    let m = row("x...x...x...x...");
    assert_eq!(m, 0x1111);
    assert!(m & 1 == 1);
    assert!((m >> 4) & 1 == 1);
    assert!((m >> 1) & 1 == 0);
}

#[test]
fn four_floor_kick_on_quarters() {
    let bank = presets();
    let p = &bank[0];
    for step in 0..STEPS {
        let expected = step % 4 == 0;
        assert_eq!(p.step(0, step), expected, "step {step}");
    }
}

#[test]
fn four_floor_snare_on_two_and_four() {
    let bank = presets();
    let p = &bank[0];
    assert!(p.step(1, 4));
    assert!(p.step(1, 12));
    assert!(!p.step(1, 0));
    assert!(!p.step(1, 8));
}

#[test]
fn hits_returns_all_tracks_for_step_zero_of_backbeat() {
    let bank = presets();
    let p = &bank[1];
    let h = p.hits(0);
    assert!(h[0]); // BD
    assert!(!h[1]); // SD
    assert!(h[2]); // HH
    assert!(!h[3]); // TOM
}

#[test]
fn preset_names_are_unique() {
    let names = preset_names();
    let mut sorted = names.clone();
    sorted.sort_unstable();
    sorted.dedup();
    assert_eq!(names.len(), sorted.len());
}

#[test]
fn preset_index_finds_by_name() {
    assert_eq!(preset_index("four-floor"), Some(0));
    assert_eq!(preset_index("breaks"), Some(2));
    assert_eq!(preset_index("nope"), None);
}

/// The bank's masks are exactly the documented pattern strings.
#[test]
fn bank_matches_pattern_strings() {
    let patterns: [[&str; 4]; 4] = [
        ["x...x...x...x...", "....x.......x...", "..x...x...x...x.", "..............x."],
        ["x......x..x.....", "....x.......x...", "x.x.x.x.x.x.x.x.", ".............x.."],
        ["x.x.......x..x..", "....x..x.x..x..x", "x.x.x.x.x.x.x.x.", "................"],
        ["x.......x.......", "....x.......x...", "x..x..x..x..x..x", "..x...x...x.xx.."],
    ];
    let bank = presets();
    for (i, rows) in patterns.iter().enumerate() {
        for t in 0..TRACKS {
            let m = row(rows[t]);
            for s in 0..STEPS {
                assert_eq!(bank[i].step(t, s), (m >> s) & 1 == 1, "preset {i} track {t} step {s}");
            }
        }
    }
    assert_eq!(bank.len(), NUM_PRESETS);
    assert_eq!(preset_names(), vec!["four-floor", "backbeat", "breaks", "tom-jam"]);
}

#[test]
fn row_ignores_dots_spaces_and_steps_past_sixteen() {
    assert_eq!(row(""), 0);
    assert_eq!(row(". . . . "), 0);
    assert_eq!(row("X-o"), 0b111);
    assert_eq!(row("...............xxxx"), 0x8000);
    // one step per char, whatever its UTF-8 length
    assert_eq!(row("é"), 0b1);
    assert_eq!(row("é.é"), 0b101);
    assert_eq!(row("...............éé"), 0x8000);
}

#[test]
fn preset_index_of_every_listed_name() {
    for (i, n) in preset_names().iter().enumerate() {
        assert_eq!(preset_index(n), Some(i));
    }
    assert_eq!(preset_index("Four-Floor"), None);
}

#[test]
fn hits_of_tom_jam_step_twelve() {
    let bank = presets();
    assert_eq!(bank[3].hits(12), [false, true, true, true]);
    assert_eq!(bank[2].hits(15), [false, true, false, false]);
}

#[test]
fn wrap_step_repeats_every_sixteen() {
    assert_eq!(wrap_step(0), 0);
    assert_eq!(wrap_step(5), 5);
    assert_eq!(wrap_step(16), 0);
    assert_eq!(wrap_step(21), 5);
    assert_eq!(wrap_step(-1), 15);
    assert_eq!(wrap_step(-16), 0);
    assert_eq!(wrap_step(-17), 15);
    assert_eq!(wrap_step(i64::MIN), 0);
    assert_eq!(wrap_step(i64::MAX), 15);
}
