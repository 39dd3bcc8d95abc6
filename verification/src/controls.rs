//! Keyboard commands, the cadence and mode of the display loops, and the
//! session-end bookkeeping.

use crate::text::{ascii_lower, dec, push_dec, push_str};
use std::sync::atomic::AtomicBool;
use vstd::prelude::*;

verus! {

/// A key press, as far as the dashboard tells keys apart.
#[derive(Debug, Clone, Copy, PartialEq, Eq, Structural)]
pub enum Key {
    Char(char),
    Esc,
    Other,
}

/// Key commands available while the dashboard runs.
#[derive(Debug, Clone, Copy, PartialEq, Eq, Structural)]
pub enum Action {
    Quit,
    TogglePlay,
    NextPreset,
    ToggleMute,
    TempoUp,
    TempoDown,
}

/// The key map: q/Q/Esc quit, Space toggles transport, p/P cycles the
/// preset, m/M mutes, +/= and - nudge the tempo.
pub open spec fn key_action(k: Key) -> Option<Action> {
    match k {
        Key::Esc => Some(Action::Quit),
        Key::Other => None,
        Key::Char(c) => if c == 'q' || c == 'Q' {
            Some(Action::Quit)
        } else if c == ' ' {
            Some(Action::TogglePlay)
        } else if c == 'p' || c == 'P' {
            Some(Action::NextPreset)
        } else if c == 'm' || c == 'M' {
            Some(Action::ToggleMute)
        } else if c == '+' || c == '=' {
            Some(Action::TempoUp)
        } else if c == '-' {
            Some(Action::TempoDown)
        } else {
            None
        },
    }
}

pub fn action_for_key(k: Key) -> (a: Option<Action>)
    ensures
        a == key_action(k),
        k == Key::Esc ==> a == Some(Action::Quit),
        k == Key::Other ==> a == None::<Action>,
        k == Key::Char('q') || k == Key::Char('Q') ==> a == Some(Action::Quit),
        k == Key::Char(' ') ==> a == Some(Action::TogglePlay),
        k == Key::Char('p') || k == Key::Char('P') ==> a == Some(Action::NextPreset),
        k == Key::Char('m') || k == Key::Char('M') ==> a == Some(Action::ToggleMute),
        k == Key::Char('+') || k == Key::Char('=') ==> a == Some(Action::TempoUp),
        k == Key::Char('-') ==> a == Some(Action::TempoDown),
        forall|c: char|
            k == Key::Char(c) && c != 'q' && c != 'Q' && c != ' ' && c != 'p' && c != 'P'
                && c != 'm' && c != 'M' && c != '+' && c != '=' && c != '-'
                ==> a == None::<Action>,
{
    match k {
        Key::Esc => Some(Action::Quit),
        Key::Other => None,
        Key::Char(c) => {
            if c == 'q' || c == 'Q' {
                Some(Action::Quit)
            } else if c == ' ' {
                Some(Action::TogglePlay)
            } else if c == 'p' || c == 'P' {
                Some(Action::NextPreset)
            } else if c == 'm' || c == 'M' {
                Some(Action::ToggleMute)
            } else if c == '+' || c == '=' {
                Some(Action::TempoUp)
            } else if c == '-' {
                Some(Action::TempoDown)
            } else {
                None
            }
        },
    }
}

/// Letter commands do not depend on case: an upper-case letter acts as its
/// lower-case form does.
pub proof fn lemma_keys_ignore_case(c: char)
    requires
        'A' <= c <= 'Z',
    ensures
        key_action(Key::Char(c)) == key_action(Key::Char(ascii_lower(c))),
        'a' <= ascii_lower(c) <= 'z',
{
    assert('a' <= ascii_lower(c) <= 'z');
    if c == 'Q' {
        assert(ascii_lower(c) == 'q');
    } else if c == 'P' {
        assert(ascii_lower(c) == 'p');
    } else if c == 'M' {
        assert(ascii_lower(c) == 'm');
    } else {
        assert(ascii_lower(c) != 'q' && ascii_lower(c) != 'p' && ascii_lower(c) != 'm');
    }
}

/// Redraw period of the dashboard (about 30 Hz).
pub const TICK_MS: u64 = 33;

/// Period of the status line printed without the dashboard.
pub const HEADLESS_TICK_MS: u64 = 1000;

/// What a display loop does next.
#[derive(Debug, Clone, Copy, PartialEq, Eq, Structural)]
pub enum UiStep {
    /// Shutdown was requested: leave the loop.
    Stop,
    /// Wait this long (reading keys, when there is a dashboard) before the
    /// next frame is due.
    Poll { wait_ms: u64 },
    /// Draw a frame now; the next one is due at `next_tick_ms`.
    Draw { next_tick_ms: u64 },
}

/// One step of a display loop redrawing every `period_ms`.
pub open spec fn step_of(shutdown: bool, now_ms: nat, next_tick_ms: nat, period_ms: nat) -> UiStep {
    if shutdown {
        UiStep::Stop
    } else if now_ms < next_tick_ms {
        UiStep::Poll { wait_ms: (next_tick_ms - now_ms) as u64 }
    } else {
        UiStep::Draw { next_tick_ms: (now_ms + period_ms) as u64 }
    }
}

fn cadence_step(shutdown: bool, now_ms: u64, next_tick_ms: u64, period_ms: u64) -> (s: UiStep)
    requires
        now_ms + period_ms <= u64::MAX,
    ensures
        s == step_of(shutdown, now_ms as nat, next_tick_ms as nat, period_ms as nat),
{
    if shutdown {
        UiStep::Stop
    } else if now_ms < next_tick_ms {
        UiStep::Poll { wait_ms: next_tick_ms - now_ms }
    } else {
        UiStep::Draw { next_tick_ms: now_ms + period_ms }
    }
}

/// The dashboard loop: stop on the shutdown flag, read keys until the next
/// frame is due, or draw and schedule the next frame `TICK_MS` later.
pub fn ui_step(shutdown: bool, now_ms: u64, next_tick_ms: u64) -> (s: UiStep)
    requires
        now_ms + TICK_MS <= u64::MAX,
    ensures
        shutdown ==> s == UiStep::Stop,
        !shutdown && now_ms < next_tick_ms ==> s == (UiStep::Poll {
            wait_ms: (next_tick_ms - now_ms) as u64,
        }),
        !shutdown && now_ms >= next_tick_ms ==> s == (UiStep::Draw {
            next_tick_ms: (now_ms + TICK_MS) as u64,
        }),
{
    cadence_step(shutdown, now_ms, next_tick_ms, TICK_MS)
}

/// The loop without a dashboard: stop on the shutdown flag, sleep until the
/// next status line is due, or print it and schedule the next one a second
/// later.
pub fn headless_step(shutdown: bool, now_ms: u64, next_tick_ms: u64) -> (s: UiStep)
    requires
        now_ms + HEADLESS_TICK_MS <= u64::MAX,
    ensures
        shutdown ==> s == UiStep::Stop,
        !shutdown && now_ms < next_tick_ms ==> s == (UiStep::Poll {
            wait_ms: (next_tick_ms - now_ms) as u64,
        }),
        !shutdown && now_ms >= next_tick_ms ==> s == (UiStep::Draw {
            next_tick_ms: (now_ms + HEADLESS_TICK_MS) as u64,
        }),
{
    cadence_step(shutdown, now_ms, next_tick_ms, HEADLESS_TICK_MS)
}

/// Whether to run without the dashboard, and whether to say so on stderr:
/// `--no-tui` asks for it, and a stdout that is not a terminal forces it
/// (with a notice).
pub fn ui_mode(no_tui: bool, stdout_is_tty: bool) -> (r: (bool, bool))
    ensures
        r.0 == (no_tui || !stdout_is_tty),
        r.1 == (!no_tui && !stdout_is_tty),
{
    (no_tui || !stdout_is_tty, !no_tui && !stdout_is_tty)
}

/// The `reason` of the session_end event.
pub open spec fn end_reason(interrupted: bool) -> Seq<char> {
    if interrupted {
        "sigint"@
    } else {
        "normal"@
    }
}

pub fn reason_for(interrupted: bool) -> (r: String)
    ensures
        r@ == end_reason(interrupted),
{
    let mut r = String::new();
    if interrupted {
        push_str(&mut r, "sigint");
    } else {
        push_str(&mut r, "normal");
    }
    r
}

/// Reason the session ended, read from the flag the signal handler sets.
/// The flag is shared with the handler, so only the two possible texts are
/// stated.
pub fn shutdown_reason(flag: &AtomicBool) -> (r: String)
    ensures
        r@ == end_reason(true) || r@ == end_reason(false),
{
    reason_for(flag.load(std::sync::atomic::Ordering::SeqCst))
}

/// The lines printed for `--list-midi-ports` / `--list-audio-devices`.
pub open spec fn listing_lines(what: Seq<char>, items: Seq<Seq<char>>) -> Seq<Seq<char>> {
    if items.len() == 0 {
        seq!["no "@ + what + " found"@]
    } else {
        seq![what + ":"@] + Seq::new(
            items.len(),
            |i: int| "  ["@ + dec(i as nat) + "] "@ + items[i],
        )
    }
}

pub fn listing(what: &str, items: &Vec<String>) -> (lines: Vec<String>)
    ensures
        lines@.map_values(|l: String| l@) == listing_lines(
            what@,
            items@.map_values(|s: String| s@),
        ),
{
    let ghost iv = items@.map_values(|s: String| s@);
    let mut lines: Vec<String> = Vec::new();
    if items.len() == 0 {
        let mut l = String::new();
        push_str(&mut l, "no ");
        push_str(&mut l, what);
        push_str(&mut l, " found");
        lines.push(l);
        assert(lines@.map_values(|l: String| l@) =~= listing_lines(what@, iv));
        return lines;
    }
    let mut head = String::new();
    push_str(&mut head, what);
    push_str(&mut head, ":");
    lines.push(head);
    let mut i: usize = 0;
    while i < items.len()
        invariant
            i <= items.len(),
            iv == items@.map_values(|s: String| s@),
            lines@.len() == i + 1,
            lines@[0]@ == what@ + ":"@,
            forall|k: int|
                0 <= k < i ==> (#[trigger] lines@[k + 1])@ == "  ["@ + dec(k as nat) + "] "@
                    + iv[k],
        decreases items.len() - i,
    {
        let mut l = String::new();
        push_str(&mut l, "  [");
        push_dec(&mut l, i as u64);
        push_str(&mut l, "] ");
        push_str(&mut l, items[i].as_str());
        lines.push(l);
        i = i + 1;
    }
    let ghost want = listing_lines(what@, iv);
    assert forall|k: int| 0 <= k < lines@.len() implies lines@.map_values(|l: String| l@)[k]
        == want[k] by {
        if k > 0 {
            assert(lines@[(k - 1) + 1]@ == "  ["@ + dec((k - 1) as nat) + "] "@ + iv[k - 1]);
        }
    }
    assert(lines@.map_values(|l: String| l@) =~= want);
    lines
}

} // verus!
