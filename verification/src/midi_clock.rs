//! MIDI clock decisions for a clock locked to the Link session.
//!
//! The clock thread sends 0xF8 ticks at 24 PPQN, each scheduled from the
//! Link timeline; transport edges send Start (0xFA) / Stop (0xFC), and ticks
//! keep running while stopped (continuous-clock convention) so receivers stay
//! tempo-locked. Per-tick scheduling error against the Link timeline is
//! recorded here: that jitter is the main stability signal.

use crate::text::{
    chars_of, contains_seq, dec, join, join_names, parse_unsigned, parse_unsigned_in, push_dec,
    push_str, views,
};
use vstd::prelude::*;

verus! {

pub const MIDI_TICK: u8 = 0xF8;

pub const MIDI_START: u8 = 0xFA;

pub const MIDI_STOP: u8 = 0xFC;

/// Emit a clock_stats log event roughly every this many ticks (10 s at 120 BPM).
pub const STATS_EVERY_TICKS: u64 = 480;

/// Running jitter statistics of the clock ticks sent so far.
#[derive(Debug, Clone)]
pub struct ClockStats {
    pub ticks: u64,
    pub last_err_us: i64,
    pub max_abs_err_us: i64,
    /// Sum of the absolute errors recorded so far, in microseconds (the
    /// mean is this over `ticks`).
    pub sum_abs_err_us: u64,
}

pub open spec fn abs(x: int) -> int {
    if x < 0 {
        -x
    } else {
        x
    }
}

pub open spec fn max(a: int, b: int) -> int {
    if a >= b {
        a
    } else {
        b
    }
}

impl View for ClockStats {
    /// (ticks, last error, largest absolute error, sum of absolute errors)
    type V = (int, int, int, int);

    open spec fn view(&self) -> (int, int, int, int) {
        (
            self.ticks as int,
            self.last_err_us as int,
            self.max_abs_err_us as int,
            self.sum_abs_err_us as int,
        )
    }
}

/// The statistics after recording one more tick whose error was `err`.
pub open spec fn recorded(v: (int, int, int, int), err: i64) -> (int, int, int, int) {
    (v.0 + 1, err as int, max(v.2, abs(err as int)), v.3 + abs(err as int))
}

impl ClockStats {
    /// Record the scheduling error of one tick.
    pub fn record(&mut self, err_us: i64)
        requires
            old(self)@.0 < u64::MAX,
            err_us > i64::MIN,
            old(self)@.3 + abs(err_us as int) <= u64::MAX,
        ensures
            final(self)@ == recorded(old(self)@, err_us),
    {
        self.ticks = self.ticks + 1;
        self.last_err_us = err_us;
        let a: i64 = if err_us < 0 {
            -err_us
        } else {
            err_us
        };
        if a > self.max_abs_err_us {
            self.max_abs_err_us = a;
        }
        self.sum_abs_err_us = self.sum_abs_err_us + a as u64;
    }
}

impl Default for ClockStats {
    /// Statistics with nothing recorded.
    fn default() -> (s: Self)
        ensures
            s@ == (0int, 0int, 0int, 0int),
    {
        ClockStats { ticks: 0, last_err_us: 0, max_abs_err_us: 0, sum_abs_err_us: 0 }
    }
}

/// Statistics after recording `errs` in order, starting from nothing.
pub open spec fn stats_after(errs: Seq<i64>) -> (int, int, int, int)
    decreases errs.len(),
{
    if errs.len() == 0 {
        (0, 0, 0, 0)
    } else {
        let p = stats_after(errs.drop_last());
        let e = errs.last() as int;
        (p.0 + 1, e, max(p.2, abs(e)), p.3 + abs(e))
    }
}

/// Largest absolute error in `errs`, 0 when empty.
pub open spec fn max_abs(errs: Seq<i64>) -> int
    decreases errs.len(),
{
    if errs.len() == 0 {
        0
    } else {
        max(max_abs(errs.drop_last()), abs(errs.last() as int))
    }
}

/// Sum of the absolute errors in `errs`.
pub open spec fn sum_abs(errs: Seq<i64>) -> int
    decreases errs.len(),
{
    if errs.len() == 0 {
        0
    } else {
        sum_abs(errs.drop_last()) + abs(errs.last() as int)
    }
}

/// Recording one error moves the statistics along `stats_after`.
pub proof fn lemma_record_step(v: (int, int, int, int), errs: Seq<i64>, e: i64)
    requires
        v == stats_after(errs),
    ensures
        recorded(v, e) == stats_after(errs.push(e)),
{
    assert(errs.push(e).drop_last() == errs);
}

/// Whatever errors were recorded: `ticks` counts them, `last_err_us` is the
/// latest, `max_abs_err_us` is the largest absolute error and the running sum
/// is the sum of the absolute errors.
pub proof fn lemma_stats_summarize(errs: Seq<i64>)
    ensures
        stats_after(errs).0 == errs.len(),
        errs.len() > 0 ==> stats_after(errs).1 == errs.last() as int,
        stats_after(errs).2 == max_abs(errs),
        stats_after(errs).3 == sum_abs(errs),
        forall|i: int| 0 <= i < errs.len() ==> abs(#[trigger] errs[i] as int) <= stats_after(
            errs,
        ).2,
    decreases errs.len(),
{
    if errs.len() > 0 {
        lemma_stats_summarize(errs.drop_last());
        assert forall|i: int| 0 <= i < errs.len() implies abs(#[trigger] errs[i] as int)
            <= stats_after(errs).2 by {
            if i < errs.len() - 1 {
                assert(errs[i] == errs.drop_last()[i]);
            }
        }
    }
}

/// What to send when the transport state is observed: Start on a rising
/// edge, Stop on a falling edge, nothing otherwise.
pub fn transport_message(was_playing: bool, playing: bool) -> (m: Option<u8>)
    ensures
        m == (if playing && !was_playing {
            Some(MIDI_START)
        } else if !playing && was_playing {
            Some(MIDI_STOP)
        } else {
            None::<u8>
        }),
{
    if playing != was_playing {
        Some(
            if playing {
                MIDI_START
            } else {
                MIDI_STOP
            },
        )
    } else {
        None
    }
}

/// Whether a clock_stats event is due, `ticks` ticks in and the last one
/// emitted at `last_emit`.
pub fn stats_due(ticks: u64, last_emit: u64) -> (due: bool)
    ensures
        due == (ticks >= last_emit + STATS_EVERY_TICKS),
{
    ticks >= last_emit && ticks - last_emit >= STATS_EVERY_TICKS
}

/// How to wait for the next tick.
#[derive(Debug, Clone, Copy, PartialEq, Eq, Structural)]
pub enum WaitPlan {
    /// Sleep this many microseconds, then look again.
    Sleep(u64),
    /// Close to the deadline: poll in short steps until it passes.
    Poll,
}

/// Coarse sleep until 2 ms before a tick more than 2.5 ms away; otherwise
/// poll.
pub fn plan_wait(wait_us: i64) -> (p: WaitPlan)
    ensures
        p == (if wait_us > 2_500 {
            WaitPlan::Sleep((wait_us - 2_000) as u64)
        } else {
            WaitPlan::Poll
        }),
{
    if wait_us > 2_500 {
        WaitPlan::Sleep((wait_us - 2_000) as u64)
    } else {
        WaitPlan::Poll
    }
}

// ---------------------------------------------------------------------------
// Port selection
// ---------------------------------------------------------------------------
/// What `str::to_lowercase` gives for `s` (full Unicode case mapping).
pub uninterp spec fn lowercase(s: Seq<char>) -> Seq<char>;

/// Lower-cases `s` with `str::to_lowercase`. The result is named by
/// `lowercase`, a function of the characters alone; nothing more of the
/// Unicode case tables is stated.
#[verifier::external_body]
pub(crate) fn to_lowercase(s: &str) -> (r: String)
    ensures
        r@ == lowercase(s@),
{
    s.to_lowercase()
}

/// Name `k` contains the (lower-cased) selector, ignoring case.
pub open spec fn name_matches(names: Seq<Seq<char>>, k: int, needle: Seq<char>) -> bool {
    contains_seq(lowercase(names[k]), needle)
}

pub open spec fn no_ports_message() -> Seq<char> {
    "no MIDI output ports found (try --list-midi-ports)"@
}

pub open spec fn out_of_range_message(i: nat, last: nat) -> Seq<char> {
    "MIDI port index "@ + dec(i) + " out of range (0.."@ + dec(last) + ")"@
}

pub open spec fn no_match_message(sel: Seq<char>, names: Seq<Seq<char>>) -> Seq<char> {
    "no MIDI port matches \""@ + sel + "\"; available: "@ + join(names, ", "@)
}

/// Whether `needle` occurs in `hay` (`str::contains`).
pub fn contains(hay: &Vec<char>, needle: &Vec<char>) -> (r: bool)
    ensures
        r == contains_seq(hay@, needle@),
{
    if needle.len() > hay.len() {
        return false;
    }
    let last = hay.len() - needle.len();
    let mut i: usize = 0;
    while i <= last
        invariant
            last == hay.len() - needle.len(),
            i <= last + 1,
            forall|k: int| 0 <= k < i ==> #[trigger] hay@.subrange(k, k + needle@.len()) != needle@,
        decreases last + 1 - i,
    {
        let mut j: usize = 0;
        while j < needle.len() && hay[i + j] == needle[j]
            invariant
                i <= last,
                last == hay.len() - needle.len(),
                j <= needle.len(),
                forall|q: int| 0 <= q < j ==> hay@[i + q] == needle@[q],
            decreases needle.len() - j,
        {
            j = j + 1;
        }
        if j == needle.len() {
            assert(hay@.subrange(i as int, i + needle@.len()) == needle@);
            return true;
        }
        assert(hay@.subrange(i as int, i + needle@.len())[j as int] != needle@[j as int]);
        i = i + 1;
    }
    false
}

/// Position of the first name containing `selector`, ignoring case.
pub fn first_name_match(names: &Vec<String>, selector: &str) -> (r: Option<usize>)
    ensures
        match r {
            Some(k) => k < names.len() && name_matches(views(names@), k as int, lowercase(selector@))
                && forall|j: int|
                0 <= j < k ==> !name_matches(views(names@), j, lowercase(selector@)),
            None => forall|j: int|
                0 <= j < names.len() ==> !name_matches(views(names@), j, lowercase(selector@)),
        },
{
    let needle_s = to_lowercase(selector);
    let needle = chars_of(needle_s.as_str());
    let mut k: usize = 0;
    while k < names.len()
        invariant
            k <= names.len(),
            needle@ == lowercase(selector@),
            forall|j: int| 0 <= j < k ==> !name_matches(views(names@), j, lowercase(selector@)),
        decreases names.len() - k,
    {
        let low = to_lowercase(names[k].as_str());
        let hay = chars_of(low.as_str());
        if contains(&hay, &needle) {
            return Some(k);
        }
        k = k + 1;
    }
    None
}

/// Which MIDI port `selector` designates: an index into `names`, or else
/// the first name containing it, ignoring case.
pub fn select_port(names: &Vec<String>, selector: &str) -> (r: Result<usize, String>)
    ensures
        names.len() == 0 ==> (r matches Err(e) && e@ == no_ports_message()),
        names.len() > 0 ==> match parse_unsigned(selector@, usize::MAX as nat) {
            Some(i) => if i < names.len() {
                r == Ok::<usize, String>(i as usize)
            } else {
                (r matches Err(e) && e@ == out_of_range_message(i, (names.len() - 1) as nat))
            },
            None => match r {
                Ok(k) => k < names.len() && name_matches(views(names@), k as int, lowercase(
                    selector@,
                )) && forall|j: int|
                    0 <= j < k ==> !name_matches(views(names@), j, lowercase(selector@)),
                Err(e) => e@ == no_match_message(selector@, views(names@)) && forall|j: int|
                    0 <= j < names.len() ==> !name_matches(views(names@), j, lowercase(selector@)),
            },
        },
{
    if names.len() == 0 {
        let mut e = String::new();
        push_str(&mut e, "no MIDI output ports found (try --list-midi-ports)");
        return Err(e);
    }
    let v = chars_of(selector);
    assert(v@.subrange(0, v@.len() as int) == selector@);
    match parse_unsigned_in(&v, 0, v.len(), usize::MAX as u64) {
        Some(i) => {
            if i < names.len() as u64 {
                Ok(i as usize)
            } else {
                let mut e = String::new();
                push_str(&mut e, "MIDI port index ");
                push_dec(&mut e, i);
                push_str(&mut e, " out of range (0..");
                push_dec(&mut e, (names.len() - 1) as u64);
                push_str(&mut e, ")");
                Err(e)
            }
        },
        None => match first_name_match(names, selector) {
            Some(k) => Ok(k),
            None => {
                let mut e = String::new();
                push_str(&mut e, "no MIDI port matches \"");
                push_str(&mut e, selector);
                push_str(&mut e, "\"; available: ");
                let joined = join_names(names);
                push_str(&mut e, joined.as_str());
                Err(e)
            },
        },
    }
}

} // verus!
