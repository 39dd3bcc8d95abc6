//! Time-signature handling on top of Link's quantum.
//!
//! Link itself has no meter concept, only a `quantum` (beats per bar, where
//! a beat is a quarter note). A meter maps onto that: 5/4 -> quantum 5,
//! 7/8 -> quantum 3.5, 6/8 -> quantum 3. The sequencer derives its pattern
//! length (16th notes per bar) from the same fraction.

use crate::sequencer::MAX_STEPS;
use crate::text::{
    all_digits, chars_of, dec, find_char, find_char_in, is_digit, is_ws, lemma_dec_all_digits,
    lemma_dec_len, lemma_find_char, lemma_parse_dec, parse_unsigned, parse_unsigned_in, push_dec,
    push_str, trim, trim_bounds, trim_start,
};
use vstd::prelude::*;

verus! {

#[derive(Debug, Clone, Copy, PartialEq, Eq, Structural)]
pub struct Meter {
    pub num: u32,
    pub den: u32,
}

/// Denominators the 16th-note grid can represent.
pub open spec fn grid_denominator(den: nat) -> bool {
    den == 2 || den == 4 || den == 8 || den == 16
}

/// Sixteenth notes in a bar of `num`/`den`.
pub open spec fn sixteenths(num: nat, den: nat) -> nat {
    num * 16 / den
}

/// A meter that `Meter::parse` accepts.
pub open spec fn valid_meter(m: Meter) -> bool {
    &&& m.num > 0
    &&& grid_denominator(m.den as nat)
    &&& sixteenths(m.num as nat, m.den as nat) <= MAX_STEPS
}

pub open spec fn invalid_message(s: Seq<char>) -> Seq<char> {
    "invalid meter \""@ + s + "\" (expected N/D, e.g. 4/4, 5/4, 7/8)"@
}

pub open spec fn denominator_message(s: Seq<char>) -> Seq<char> {
    "invalid meter \""@ + s + "\": denominator must be 2, 4, 8, or 16"@
}

pub open spec fn too_long_message(s: Seq<char>, steps: nat) -> Seq<char> {
    "meter \""@ + s + "\" is too long: "@ + dec(steps) + " sixteenths per bar (max 32)"@
}

/// What parsing `s` gives: a numerator and a denominator separated by the
/// first `/`, each an unsigned 32-bit decimal surrounded by optional
/// whitespace; a positive numerator; a grid denominator; and a bar of at
/// most `MAX_STEPS` sixteenths.
pub open spec fn parse_meter(s: Seq<char>) -> Result<Meter, Seq<char>> {
    let k = find_char(s, '/') as int;
    if k == s.len() {
        Err(invalid_message(s))
    } else {
        let n = parse_unsigned(trim(s.take(k)), u32::MAX as nat);
        let d = parse_unsigned(trim(s.skip(k + 1)), u32::MAX as nat);
        if n is None || d is None {
            Err(invalid_message(s))
        } else if n->0 == 0 {
            Err(invalid_message(s))
        } else if !grid_denominator(d->0) {
            Err(denominator_message(s))
        } else if sixteenths(n->0, d->0) > MAX_STEPS {
            Err(too_long_message(s, sixteenths(n->0, d->0)))
        } else {
            Ok(Meter { num: n->0 as u32, den: d->0 as u32 })
        }
    }
}

/// `num/den` written out in decimal.
pub open spec fn meter_label(m: Meter) -> Seq<char> {
    dec(m.num as nat) + seq!['/'] + dec(m.den as nat)
}

impl Meter {
    /// Parse "N/D", e.g. "4/4", "5/4", "7/8". The denominator must be a
    /// note value the 16th-note grid can represent (2, 4, 8, or 16).
    pub fn parse(s: &str) -> (r: Result<Meter, String>)
        ensures
            match r {
                Ok(m) => parse_meter(s@) == Ok::<Meter, Seq<char>>(m),
                Err(e) => parse_meter(s@) == Err::<Meter, Seq<char>>(e@),
            },
            r is Ok ==> valid_meter(r->Ok_0),
    {
        let v = chars_of(s);
        let k = find_char_in(&v, '/');
        if k == v.len() {
            return Err(invalid_meter(s));
        }
        let (a0, a1) = trim_bounds(&v, 0, k);
        let (b0, b1) = trim_bounds(&v, k + 1, v.len());
        proof {
            assert(v@.subrange(0, k as int) == s@.take(k as int));
            assert(v@.subrange(k + 1, v@.len() as int) == s@.skip(k + 1));
        }
        let n = parse_unsigned_in(&v, a0, a1, 0xFFFF_FFFF);
        let d = parse_unsigned_in(&v, b0, b1, 0xFFFF_FFFF);
        let (num, den) = match (n, d) {
            (Some(n), Some(d)) => (n, d),
            _ => {
                return Err(invalid_meter(s));
            },
        };
        if num == 0 {
            return Err(invalid_meter(s));
        }
        if !(den == 2 || den == 4 || den == 8 || den == 16) {
            let mut e = String::new();
            push_str(&mut e, "invalid meter \"");
            push_str(&mut e, s);
            push_str(&mut e, "\": denominator must be 2, 4, 8, or 16");
            return Err(e);
        }
        let steps: u64 = num * 16 / den;
        if steps > 32 {
            let mut e = String::new();
            push_str(&mut e, "meter \"");
            push_str(&mut e, s);
            push_str(&mut e, "\" is too long: ");
            push_dec(&mut e, steps);
            push_str(&mut e, " sixteenths per bar (max 32)");
            return Err(e);
        }
        Ok(Meter { num: num as u32, den: den as u32 })
    }

    /// Sixteenth notes per bar.
    pub fn steps(&self) -> (n: usize)
        requires
            self.den > 0,
            self.num * 16 <= usize::MAX,
        ensures
            n == sixteenths(self.num as nat, self.den as nat),
    {
        (self.num as usize) * 16 / (self.den as usize)
    }

    /// The meter written as "N/D".
    pub fn label(&self) -> (l: String)
        ensures
            l@ == meter_label(*self),
    {
        let mut l = String::new();
        push_dec(&mut l, self.num as u64);
        push_str(&mut l, "/");
        push_dec(&mut l, self.den as u64);
        proof {
            reveal_strlit("/");
        }
        l
    }
}

/// Meter label for a bar of `s` sixteenths, preferring quarters, then
/// eighths, then sixteenths.
pub open spec fn sixteenths_label(s: nat) -> Seq<char> {
    if s % 4 == 0 {
        dec(s / 4) + "/4"@
    } else if s % 2 == 0 {
        dec(s / 2) + "/8"@
    } else {
        dec(s) + "/16"@
    }
}

/// Best-effort meter label for a bar of `s` sixteenth notes (used when the
/// bar length comes from a bare quantum: `s` is the quantum times four).
pub fn label_for_sixteenths(s: u32) -> (l: String)
    ensures
        l@ == sixteenths_label(s as nat),
{
    let mut l = String::new();
    if s % 4 == 0 {
        push_dec(&mut l, (s / 4) as u64);
        push_str(&mut l, "/4");
    } else if s % 2 == 0 {
        push_dec(&mut l, (s / 2) as u64);
        push_str(&mut l, "/8");
    } else {
        push_dec(&mut l, s as u64);
        push_str(&mut l, "/16");
    }
    l
}

fn invalid_meter(s: &str) -> (e: String)
    ensures
        e@ == invalid_message(s@),
{
    let mut e = String::new();
    push_str(&mut e, "invalid meter \"");
    push_str(&mut e, s);
    push_str(&mut e, "\" (expected N/D, e.g. 4/4, 5/4, 7/8)");
    e
}

proof fn lemma_trim_digits(s: Seq<char>)
    requires
        s.len() > 0,
        all_digits(s),
    ensures
        trim(s) == s,
{
    assert(!is_ws(s[0]));
    assert(trim_start(s) == s);
    assert(!is_ws(s.last()));
}

/// Writing a valid meter out and reading it back gives the same meter.
pub proof fn lemma_label_round_trip(m: Meter)
    requires
        valid_meter(m),
    ensures
        parse_meter(meter_label(m)) == Ok::<Meter, Seq<char>>(m),
{
    let a = dec(m.num as nat);
    let b = dec(m.den as nat);
    let s = meter_label(m);
    lemma_dec_len(m.num as nat);
    lemma_dec_len(m.den as nat);
    lemma_dec_all_digits(m.num as nat);
    lemma_dec_all_digits(m.den as nat);
    assert forall|j: int| 0 <= j < a.len() implies #[trigger] s[j] != '/' by {
        assert(s[j] == a[j]);
        assert(is_digit(a[j]));
    }
    assert(s[a.len() as int] == '/');
    lemma_find_char(s, '/', a.len() as int);
    assert(s.take(a.len() as int) == a);
    assert(s.skip(a.len() as int + 1) == b);
    lemma_trim_digits(a);
    lemma_trim_digits(b);
    lemma_parse_dec(m.num as nat, u32::MAX as nat);
    lemma_parse_dec(m.den as nat, u32::MAX as nat);
}

/// The label of a bar of `k` sixteenths, 1 <= k <= 32, parses back to a
/// meter of `k` sixteenths over 4 when `k` is a multiple of 4, else over 8
/// when `k` is even, else over 16.
pub proof fn lemma_sixteenths_label_parses(k: nat)
    requires
        1 <= k <= MAX_STEPS,
    ensures
        parse_meter(sixteenths_label(k)) is Ok,
        sixteenths(
            parse_meter(sixteenths_label(k))->Ok_0.num as nat,
            parse_meter(sixteenths_label(k))->Ok_0.den as nat,
        ) == k,
        parse_meter(sixteenths_label(k))->Ok_0.den == (if k % 4 == 0 {
            4u32
        } else if k % 2 == 0 {
            8u32
        } else {
            16u32
        }),
{
    reveal_strlit("/4");
    reveal_strlit("/8");
    reveal_strlit("/16");
    let m = if k % 4 == 0 {
        Meter { num: (k / 4) as u32, den: 4 }
    } else if k % 2 == 0 {
        Meter { num: (k / 2) as u32, den: 8 }
    } else {
        Meter { num: k as u32, den: 16 }
    };
    assert(dec(4) == seq!['4']);
    assert(dec(8) == seq!['8']);
    assert(dec(1) == seq!['1']);
    assert(dec(16) == seq!['1', '6']);
    assert(sixteenths_label(k) =~= meter_label(m));
    lemma_label_round_trip(m);
}

} // verus!
