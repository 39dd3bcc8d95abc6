//! Step-sequencer pattern data.
//!
//! Patterns are 16 steps of 16th notes (4 steps per Link beat) across four
//! drum tracks. Steps are derived from the session phase, so every peer
//! that joins the same Link session hears the same step at the same time.

use crate::text::{chars_of, str_eq};
use vstd::prelude::*;

verus! {

broadcast use vstd::string::group_string_axioms;

pub const TRACKS: usize = 4;

pub const STEPS: usize = 16;

/// Longest bar, in sixteenth notes, that a meter may ask for.
pub const MAX_STEPS: usize = 32;

pub const NUM_PRESETS: usize = 4;

/// Bit `i` of a row mask (bit 0 is step 0).
pub open spec fn bit(m: u16, i: int) -> bool {
    (m >> (i as u16)) & 1u16 == 1u16
}

/// Whether a pattern character marks an active step.
pub open spec fn marks_step(c: char) -> bool {
    c != '.' && c != ' '
}

/// One pattern preset. Each row is a 16-bit mask, bit 0 = step 0.
#[derive(Debug, Clone, Copy, PartialEq, Eq)]
pub struct Preset {
    pub name: &'static str,
    pub rows: [u16; TRACKS],
}

impl Preset {
    /// Row mask of `track`.
    pub open spec fn mask(self, track: int) -> u16 {
        self.rows@[track]
    }

    pub fn new(name: &'static str, bd: u16, sd: u16, hh: u16, tom: u16) -> (p: Self)
        ensures
            p.name == name,
            p.mask(0) == bd,
            p.mask(1) == sd,
            p.mask(2) == hh,
            p.mask(3) == tom,
    {
        Preset { name, rows: [bd, sd, hh, tom] }
    }

    /// Whether `track` fires on `step`.
    pub fn step(&self, track: usize, step: usize) -> (on: bool)
        requires
            track < TRACKS,
            step < STEPS,
        ensures
            on == bit(self.mask(track as int), step as int),
    {
        let m = self.rows[track];
        let sh = step as u16;
        (m >> sh) & 1u16 == 1u16
    }

    /// Tracks that fire on the given step.
    pub fn hits(&self, step: usize) -> (out: [bool; TRACKS])
        requires
            step < STEPS,
        ensures
            forall|t: int| 0 <= t < TRACKS ==> out@[t] == bit(#[trigger] self.mask(t), step as int),
    {
        [self.step(0, step), self.step(1, step), self.step(2, step), self.step(3, step)]
    }
}

proof fn lemma_or_bit(m: u16, i: u16, j: u16)
    by (bit_vector)
    requires
        i < 16,
        j < 16,
    ensures
        ((m | (1u16 << i)) >> j) & 1u16 == (if i == j {
            1u16
        } else {
            (m >> j) & 1u16
        }),
{
}

proof fn lemma_zero_bit(j: u16)
    by (bit_vector)
    requires
        j < 16,
    ensures
        (0u16 >> j) & 1u16 == 0u16,
{
}

/// Build a row mask from a human-readable pattern string, e.g.
/// "x...x...x...x...". Any char other than '.' or ' ' marks an active step;
/// only the first 16 chars count.
pub fn row(s: &str) -> (mask: u16)
    ensures
        forall|i: int|
            0 <= i < STEPS ==> #[trigger] bit(mask, i) == (i < s@.len() && marks_step(s@[i])),
{
    let chars = chars_of(s);
    let mut mask: u16 = 0;
    let mut i: usize = 0;
    proof {
        assert forall|j: int| 0 <= j < STEPS implies !bit(mask, j) by {
            lemma_zero_bit(j as u16);
        }
    }
    while i < chars.len() && i < STEPS
        invariant
            i <= STEPS,
            i <= chars@.len(),
            chars@ == s@,
            forall|j: int| 0 <= j < i ==> bit(mask, j) == marks_step(#[trigger] chars@[j]),
            forall|j: int| i <= j < STEPS ==> !bit(mask, j),
        decreases STEPS - i,
    {
        let c = chars[i];
        if c != '.' && c != ' ' {
            let old_mask = mask;
            let sh = i as u16;
            mask = mask | (1u16 << sh);
            proof {
                assert forall|j: int| 0 <= j < STEPS implies bit(mask, j) == (j == i || bit(
                    old_mask,
                    j,
                )) by {
                    lemma_or_bit(old_mask, sh, j as u16);
                }
            }
        }
        i = i + 1;
    }
    mask
}

/// Name of preset `i` of the bank.
pub open spec fn preset_name_view(i: int) -> Seq<char> {
    if i == 0 {
        "four-floor"@
    } else if i == 1 {
        "backbeat"@
    } else if i == 2 {
        "breaks"@
    } else {
        "tom-jam"@
    }
}

/// Row masks of preset `i`, track `t`, written out from the patterns
/// four-floor: `x...x...x...x...` `....x.......x...` `..x...x...x...x.` `..............x.`
/// backbeat:   `x......x..x.....` `....x.......x...` `x.x.x.x.x.x.x.x.` `.............x..`
/// breaks:     `x.x.......x..x..` `....x..x.x..x..x` `x.x.x.x.x.x.x.x.` `................`
/// tom-jam:    `x.......x.......` `....x.......x...` `x..x..x..x..x..x` `..x...x...x.xx..`
pub open spec fn preset_mask(i: int, t: int) -> u16 {
    if i == 0 {
        if t == 0 {
            0x1111u16
        } else if t == 1 {
            0x1010u16
        } else if t == 2 {
            0x4444u16
        } else {
            0x4000u16
        }
    } else if i == 1 {
        if t == 0 {
            0x0481u16
        } else if t == 1 {
            0x1010u16
        } else if t == 2 {
            0x5555u16
        } else {
            0x2000u16
        }
    } else if i == 2 {
        if t == 0 {
            0x2405u16
        } else if t == 1 {
            0x9290u16
        } else if t == 2 {
            0x5555u16
        } else {
            0x0000u16
        }
    } else {
        if t == 0 {
            0x0101u16
        } else if t == 1 {
            0x1010u16
        } else if t == 2 {
            0x9249u16
        } else {
            0x3444u16
        }
    }
}

/// Preset `i` of the bank is the one described by `preset_name_view` and
/// `preset_mask`.
pub open spec fn is_bank_preset(p: Preset, i: int) -> bool {
    &&& p.name@ == preset_name_view(i)
    &&& forall|t: int| 0 <= t < TRACKS ==> #[trigger] p.mask(t) == preset_mask(i, t)
}

/// The preset bank, in the order the `p` key cycles through it.
pub fn presets() -> (bank: [Preset; NUM_PRESETS])
    ensures
        forall|i: int| 0 <= i < NUM_PRESETS ==> is_bank_preset(#[trigger] bank@[i], i),
{
    proof {
        reveal_strlit("four-floor");
        reveal_strlit("backbeat");
        reveal_strlit("breaks");
        reveal_strlit("tom-jam");
    }
    let bank = [
        Preset::new("four-floor", 0x1111, 0x1010, 0x4444, 0x4000),
        Preset::new("backbeat", 0x0481, 0x1010, 0x5555, 0x2000),
        Preset::new("breaks", 0x2405, 0x9290, 0x5555, 0x0000),
        Preset::new("tom-jam", 0x0101, 0x1010, 0x9249, 0x3444),
    ];
    assert forall|i: int| 0 <= i < NUM_PRESETS implies is_bank_preset(#[trigger] bank@[i], i) by {
        assert forall|t: int| 0 <= t < TRACKS implies #[trigger] bank@[i].mask(t) == preset_mask(
            i,
            t,
        ) by {
            if t == 0 {
            } else if t == 1 {
            } else if t == 2 {
            } else {
            }
        }
    }
    bank
}

/// The bank's preset names are pairwise distinct.
pub proof fn lemma_preset_names_distinct()
    ensures
        forall|i: int, j: int|
            0 <= i < NUM_PRESETS && 0 <= j < NUM_PRESETS && i != j ==> preset_name_view(i)
                != preset_name_view(j),
{
    reveal_strlit("four-floor");
    reveal_strlit("backbeat");
    reveal_strlit("breaks");
    reveal_strlit("tom-jam");
    assert("four-floor"@.len() == 10);
    assert("backbeat"@.len() == 8);
    assert("breaks"@.len() == 6);
    assert("tom-jam"@.len() == 7);
}

/// Names of the presets, in bank order.
pub fn preset_names() -> (names: Vec<&'static str>)
    ensures
        names@.len() == NUM_PRESETS,
        forall|i: int| 0 <= i < NUM_PRESETS ==> (#[trigger] names@[i])@ == preset_name_view(i),
{
    let bank = presets();
    let mut names: Vec<&'static str> = Vec::new();
    let mut i: usize = 0;
    while i < NUM_PRESETS
        invariant
            i <= NUM_PRESETS,
            names@.len() == i,
            forall|k: int| 0 <= k < NUM_PRESETS ==> is_bank_preset(#[trigger] bank@[k], k),
            forall|k: int| 0 <= k < i ==> (#[trigger] names@[k])@ == preset_name_view(k),
        decreases NUM_PRESETS - i,
    {
        names.push(bank[i].name);
        assert(is_bank_preset(bank@[i as int], i as int));
        i = i + 1;
    }
    names
}

/// Position of the preset called `name`, if there is one.
pub fn preset_index(name: &str) -> (r: Option<usize>)
    ensures
        match r {
            Some(i) => i < NUM_PRESETS && preset_name_view(i as int) == name@,
            None => forall|i: int| 0 <= i < NUM_PRESETS ==> preset_name_view(i) != name@,
        },
{
    let bank = presets();
    let mut i: usize = 0;
    while i < NUM_PRESETS
        invariant
            i <= NUM_PRESETS,
            forall|k: int| 0 <= k < NUM_PRESETS ==> is_bank_preset(#[trigger] bank@[k], k),
            forall|k: int| 0 <= k < i ==> preset_name_view(k) != name@,
        decreases NUM_PRESETS - i,
    {
        assert(is_bank_preset(bank@[i as int], i as int));
        if str_eq(bank[i].name, name) {
            return Some(i);
        }
        i = i + 1;
    }
    None
}

/// Each name is found at its own position: `preset_index` inverts the
/// listing of `preset_names`.
pub proof fn lemma_preset_index_of_name(i: int, name: Seq<char>)
    requires
        0 <= i < NUM_PRESETS,
        name == preset_name_view(i),
    ensures
        forall|j: int| 0 <= j < NUM_PRESETS && preset_name_view(j) == name ==> j == i,
{
    lemma_preset_names_distinct();
}

/// Step index (0..16) of a global sixteenth-note counter; the pattern
/// repeats every 16 sixteenths, also before zero.
pub fn wrap_step(tick: i64) -> (s: usize)
    ensures
        s as int == tick as int % (STEPS as int),
        s < STEPS,
{
    if tick >= 0 {
        (tick % 16) as usize
    } else {
        let k: i64 = -(tick + 1);
        (15 - k % 16) as usize
    }
}

} // verus!
