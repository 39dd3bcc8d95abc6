//! Control state shared between the dashboard and the audio callback.
//!
//! All shared control state is atomic, so the audio thread never blocks on a
//! lock. The updates applied to it are the verified functions
//! `next_preset_index` and `toggled`.

use crate::midi_clock::{first_name_match, lowercase, name_matches};
use crate::sequencer::NUM_PRESETS;
use crate::text::{push_str, views};
use std::sync::atomic::{AtomicBool, AtomicI64, AtomicU64, AtomicUsize};
use vstd::prelude::*;

verus! {

/// Control/observation state shared between the UI and the audio callback.
pub struct AudioShared {
    pub preset_idx: AtomicUsize,
    pub muted: AtomicBool,
    /// Step currently sounding, or -1 while transport is stopped.
    pub current_step: AtomicI64,
    pub stream_errors: AtomicU64,
}

/// The preset after `i` in the bank, wrapping around.
pub fn next_preset_index(i: usize) -> (j: usize)
    ensures
        j == (i + 1) % (NUM_PRESETS as int),
        j < NUM_PRESETS,
{
    (i % NUM_PRESETS + 1) % NUM_PRESETS
}

/// The mute state after a toggle.
#[verifier::allow_in_spec]
pub fn toggled(m: bool) -> bool
    returns
        !m,
{
    !m
}

/// Index reached from `i` after `k` presses of the preset key.
pub open spec fn presses(i: int, k: nat) -> int
    decreases k,
{
    if k == 0 {
        i
    } else {
        (presses(i, (k - 1) as nat) + 1) % (NUM_PRESETS as int)
    }
}

/// After `k` presses the preset index has moved `k` places around the bank.
pub proof fn lemma_presses(i: int, k: nat)
    requires
        0 <= i,
        k > 0,
    ensures
        presses(i, k) == (i + k) % (NUM_PRESETS as int),
    decreases k,
{
    assert(presses(i, k) == (presses(i, (k - 1) as nat) + 1) % 4);
    if k > 1 {
        lemma_presses(i, (k - 1) as nat);
        assert(((i + k - 1) % 4 + 1) % 4 == (i + k) % 4);
    } else {
        assert(presses(i, 0) == i);
    }
}

/// `NUM_PRESETS` presses of the preset key bring every preset back.
pub proof fn lemma_presets_cycle(i: int)
    requires
        0 <= i < NUM_PRESETS,
    ensures
        presses(i, NUM_PRESETS as nat) == i,
{
    lemma_presses(i, NUM_PRESETS as nat);
}

/// Two toggles leave the mute state as it was.
pub proof fn lemma_toggle_twice(m: bool)
    ensures
        toggled(toggled(m)) == m,
{
}

/// `AtomicUsize::fetch_update` (SeqCst, SeqCst) applying `next_preset_index`.
/// Nothing is stated of the value: other threads read and write it.
#[verifier::external_body]
fn advance_preset(a: &AtomicUsize) {
    let _ = a.fetch_update(
        std::sync::atomic::Ordering::SeqCst,
        std::sync::atomic::Ordering::SeqCst,
        |i| Some(next_preset_index(i)),
    );
}

/// `AtomicBool::fetch_update` (SeqCst, SeqCst) applying `toggled`.
/// Nothing is stated of the value: other threads read and write it.
#[verifier::external_body]
fn flip(a: &AtomicBool) {
    let _ = a.fetch_update(
        std::sync::atomic::Ordering::SeqCst,
        std::sync::atomic::Ordering::SeqCst,
        |m| Some(toggled(m)),
    );
}

pub open spec fn no_device_message(sel: Seq<char>) -> Seq<char> {
    "no audio device matches \""@ + sel + "\" (try --list-audio-devices)"@
}

/// The output device `selector` designates: the first whose name contains
/// it, ignoring case.
pub fn pick_device_index(names: &Vec<String>, selector: &str) -> (r: Result<usize, String>)
    ensures
        match r {
            Ok(k) => k < names.len() && name_matches(views(names@), k as int, lowercase(selector@))
                && forall|j: int|
                0 <= j < k ==> !name_matches(views(names@), j, lowercase(selector@)),
            Err(e) => e@ == no_device_message(selector@) && forall|j: int|
                0 <= j < names.len() ==> !name_matches(views(names@), j, lowercase(selector@)),
        },
{
    match first_name_match(names, selector) {
        Some(k) => Ok(k),
        None => {
            let mut e = String::new();
            push_str(&mut e, "no audio device matches \"");
            push_str(&mut e, selector);
            push_str(&mut e, "\" (try --list-audio-devices)");
            Err(e)
        },
    }
}

impl AudioShared {
    /// Fresh state: the given preset, unmuted, stopped, no stream errors.
    pub fn new(preset_idx: usize) -> Self {
        AudioShared {
            preset_idx: AtomicUsize::new(preset_idx),
            muted: AtomicBool::new(false),
            current_step: AtomicI64::new(-1),
            stream_errors: AtomicU64::new(0),
        }
    }

    /// Atomically select the next preset of the bank.
    pub fn next_preset(&self) {
        advance_preset(&self.preset_idx);
    }

    /// Atomically mute or unmute.
    pub fn toggle_mute(&self) {
        flip(&self.muted);
    }
}

} // verus!
