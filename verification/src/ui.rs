//! Text of the dashboard: the sequencer panel's grid and status lines, the
//! footer's log label, the uptime clock and the too-small notice.

use crate::sequencer::{bit, Preset, MAX_STEPS, STEPS, TRACKS};
use crate::text::{dec, dec2, push_dec, push_dec2, push_str};
use vstd::prelude::*;

verus! {

pub const MIN_WIDTH: u16 = 50;

pub const MIN_HEIGHT: u16 = 26;

/// Sequencer state for display: pattern grid plus audio device info.
#[derive(Debug, Clone)]
pub struct SeqDisplay {
    pub preset_name: &'static str,
    pub pattern: [[bool; MAX_STEPS]; TRACKS],
    /// Sixteenths per bar; only the first `steps` columns of `pattern` are live.
    pub steps: usize,
    /// Step currently sounding, or -1 while transport is stopped.
    pub current_step: i64,
    pub muted: bool,
    pub device: String,
    pub sample_rate: u32,
    pub stream_errors: u64,
}

/// Whether the terminal is large enough for the full dashboard.
pub fn fits(width: u16, height: u16) -> (ok: bool)
    ensures
        ok == (width >= MIN_WIDTH && height >= MIN_HEIGHT),
{
    !(width < MIN_WIDTH || height < MIN_HEIGHT)
}

pub open spec fn too_small_text(width: nat, height: nat) -> Seq<char> {
    "terminal too small\nneed at least 50x26, got "@ + dec(width) + seq!['x'] + dec(height)
}

/// Notice drawn instead of the dashboard when the terminal is too small.
pub fn too_small_message(width: u16, height: u16) -> (m: String)
    ensures
        m@ == too_small_text(width as nat, height as nat),
{
    let mut m = String::new();
    push_str(&mut m, "terminal too small\nneed at least 50x26, got ");
    push_dec(&mut m, width as u64);
    push_str(&mut m, "x");
    push_dec(&mut m, height as u64);
    proof {
        reveal_strlit("x");
    }
    m
}

/// `secs` as hh:mm:ss (hours keep growing past 99).
pub open spec fn hms(secs: nat) -> Seq<char> {
    dec2(secs / 3600) + seq![':'] + dec2((secs % 3600) / 60) + seq![':'] + dec2(secs % 60)
}

/// The uptime clock reads back as the time it shows: hours, minutes below
/// 60 and seconds below 60 that add up to `secs`.
pub proof fn lemma_hms_reads_back(secs: nat)
    ensures
        exists|h: nat, m: nat, sec: nat|
            #![trigger dec2(h), dec2(m), dec2(sec)]
            m < 60 && sec < 60 && h * 3600 + m * 60 + sec == secs && hms(secs) == dec2(h) + seq![
                ':',
            ] + dec2(m) + seq![':'] + dec2(sec),
{
    let h = secs / 3600;
    let m = (secs % 3600) / 60;
    let sec = secs % 60;
    assert(h * 3600 + m * 60 + sec == secs);
    assert(dec2(h) == dec2(secs / 3600) && dec2(m) == dec2((secs % 3600) / 60) && dec2(sec)
        == dec2(secs % 60));
}

/// Uptime clock of the header.
pub fn fmt_duration(secs: u64) -> (s: String)
    ensures
        s@ == hms(secs as nat),
        exists|h: nat, m: nat, sec: nat|
            #![trigger dec2(h), dec2(m), dec2(sec)]
            m < 60 && sec < 60 && h * 3600 + m * 60 + sec == secs && s@ == dec2(h) + seq![':']
                + dec2(m) + seq![':'] + dec2(sec),
{
    proof {
        lemma_hms_reads_back(secs as nat);
    }
    let h = secs / 3600;
    let m = (secs % 3600) / 60;
    let sec = secs % 60;
    let mut s = String::new();
    push_dec2(&mut s, h);
    push_str(&mut s, ":");
    push_dec2(&mut s, m);
    push_str(&mut s, ":");
    push_dec2(&mut s, sec);
    proof {
        reveal_strlit(":");
    }
    s
}

pub open spec fn yes_no_text(b: bool) -> Seq<char> {
    if b {
        "yes"@
    } else {
        "no"@
    }
}

pub fn yes_no(b: bool) -> (s: String)
    ensures
        s@ == yes_no_text(b),
{
    let mut s = String::new();
    if b {
        push_str(&mut s, "yes");
    } else {
        push_str(&mut s, "no");
    }
    s
}

pub open spec fn log_text(log_path: Option<Seq<char>>) -> Seq<char> {
    match log_path {
        Some(p) => "log: "@ + p,
        None => "log: none"@,
    }
}

/// Footer text naming the event log.
pub fn log_label(log_path: Option<&str>) -> (s: String)
    ensures
        s@ == log_text(
            match log_path {
                Some(p) => Some(p@),
                None => None,
            },
        ),
{
    let mut s = String::new();
    match log_path {
        Some(p) => {
            push_str(&mut s, "log: ");
            push_str(&mut s, p);
        },
        None => push_str(&mut s, "log: none"),
    }
    s
}

/// The sounding step, counted from 1 and zero padded, or "--" while
/// stopped.
pub open spec fn step_text(current_step: int) -> Seq<char> {
    if current_step >= 0 {
        dec2((current_step + 1) as nat)
    } else {
        "--"@
    }
}

pub fn step_label(current_step: i64) -> (s: String)
    ensures
        s@ == step_text(current_step as int),
{
    let mut s = String::new();
    if current_step >= 0 {
        push_dec2(&mut s, (current_step as u64) + 1);
    } else {
        push_str(&mut s, "--");
    }
    s
}

/// Whether the cell of `track`, `step` is on in the grid shown for `p`.
pub open spec fn grid_cell(p: Preset, track: int, step: int) -> bool {
    step < STEPS && bit(p.mask(track), step)
}

/// One track of the grid: the preset's 16 steps, then empty columns.
pub fn pattern_row(p: &Preset, track: usize) -> (row: [bool; MAX_STEPS])
    requires
        track < TRACKS,
    ensures
        forall|s: int| 0 <= s < MAX_STEPS ==> row@[s] == grid_cell(*p, track as int, s),
{
    let mut row = [false; 32];
    let mut s: usize = 0;
    while s < STEPS
        invariant
            s <= STEPS,
            track < TRACKS,
            forall|k: int| 0 <= k < s ==> row@[k] == grid_cell(*p, track as int, k),
            forall|k: int| s <= k < MAX_STEPS ==> !row@[k],
        decreases STEPS - s,
    {
        let on = p.step(track, s);
        row.set(s, on);
        s = s + 1;
    }
    row
}

/// The grid shown for `p`: one row per track.
pub fn pattern_grid(p: &Preset) -> (g: [[bool; MAX_STEPS]; TRACKS])
    ensures
        forall|t: int, s: int|
            0 <= t < TRACKS && 0 <= s < MAX_STEPS ==> #[trigger] g@[t]@[s] == grid_cell(*p, t, s),
{
    [pattern_row(p, 0), pattern_row(p, 1), pattern_row(p, 2), pattern_row(p, 3)]
}

pub open spec fn status_text(
    preset: Seq<char>,
    current_step: int,
    steps: nat,
    muted: bool,
) -> Seq<char> {
    "  preset: "@ + preset + "   step: "@ + step_text(current_step) + seq!['/'] + dec(steps)
        + "   muted: "@ + yes_no_text(muted)
}

pub open spec fn audio_text(device: Seq<char>, sample_rate: nat, errors: nat) -> Seq<char> {
    "  audio: "@ + device + " @ "@ + dec(sample_rate) + " Hz   stream errors: "@ + dec(errors)
}

/// The status line shows the bar's step count after the '/': for every
/// preset name, step, step count and mute state, the '/' that follows the step
/// text is followed by the decimal of the step count.
pub proof fn lemma_status_shows_steps(p: Seq<char>, c: int, n: nat, m: bool)
    ensures
        ({
            let k = ("  preset: "@ + p + "   step: "@ + step_text(c)).len();
            status_text(p, c, n, m).subrange(k as int, (k + 1 + dec(n).len()) as int) == seq!['/'] + dec(n)
        }),
{
    let pre = "  preset: "@ + p + "   step: "@ + step_text(c);
    let mid = seq!['/'] + dec(n);
    let t = status_text(p, c, n, m);
    assert(t == pre + mid + ("   muted: "@ + yes_no_text(m)));
    assert(t.subrange(pre.len() as int, (pre.len() + mid.len()) as int) =~= mid);
}

impl SeqDisplay {
    /// Status line under the grid: preset, step and mute state.
    pub fn status_line(&self) -> (s: String)
        ensures
            s@ == status_text(
                self.preset_name@,
                self.current_step as int,
                self.steps as nat,
                self.muted,
            ),
            s@ == "  preset: "@ + self.preset_name@ + "   step: "@ + step_text(
                self.current_step as int,
            ) + seq!['/'] + dec(self.steps as nat) + "   muted: "@ + yes_no_text(self.muted),
    {
        let mut s = String::new();
        push_str(&mut s, "  preset: ");
        push_str(&mut s, self.preset_name);
        push_str(&mut s, "   step: ");
        let st = step_label(self.current_step);
        push_str(&mut s, st.as_str());
        push_str(&mut s, "/");
        push_dec(&mut s, self.steps as u64);
        push_str(&mut s, "   muted: ");
        let m = yes_no(self.muted);
        push_str(&mut s, m.as_str());
        proof {
            reveal_strlit("/");
        }
        s
    }

    /// Audio device line of the sequencer panel.
    pub fn audio_line(&self) -> (s: String)
        ensures
            s@ == audio_text(self.device@, self.sample_rate as nat, self.stream_errors as nat),
    {
        let mut s = String::new();
        push_str(&mut s, "  audio: ");
        push_str(&mut s, self.device.as_str());
        push_str(&mut s, " @ ");
        push_dec(&mut s, self.sample_rate as u64);
        push_str(&mut s, " Hz   stream errors: ");
        push_dec(&mut s, self.stream_errors);
        s
    }
}

} // verus!
