//! Decisions behind the command-line options: the log format implied by a
//! file extension, the preset named on the command line, and the peer name.

use crate::sequencer::{preset_index, preset_name_view, preset_names, NUM_PRESETS};
use crate::text::{
    ascii_lower, ascii_lower_seq, chars_of, join, join_names, push_str, str_eq, string_from_chars,
};
use vstd::prelude::*;

verus! {

broadcast use vstd::string::group_string_axioms;

#[derive(Debug, Clone, Copy, PartialEq, Eq, Structural)]
pub enum LogFormat {
    Jsonl,
    Csv,
}

pub open spec fn no_extension_message() -> Seq<char> {
    "log path needs an extension (.jsonl, .ndjson, or .csv)"@
}

pub open spec fn bad_extension_message(ext: Seq<char>) -> Seq<char> {
    "unsupported log extension: ."@ + ext
}

/// The log format a file extension selects, compared case-insensitively
/// (ASCII): `.jsonl` / `.ndjson` give JSON Lines, `.csv` gives CSV.
pub open spec fn format_for(ext: Option<Seq<char>>) -> Result<LogFormat, Seq<char>> {
    match ext {
        None => Err(no_extension_message()),
        Some(e) => {
            let l = ascii_lower_seq(e);
            if l == "jsonl"@ || l == "ndjson"@ {
                Ok(LogFormat::Jsonl)
            } else if l == "csv"@ {
                Ok(LogFormat::Csv)
            } else {
                Err(bad_extension_message(l))
            }
        },
    }
}

pub open spec fn opt_view(o: Option<&str>) -> Option<Seq<char>> {
    match o {
        Some(s) => Some(s@),
        None => None,
    }
}

/// Log format for a log path whose extension is `ext` (`None` when the path
/// has none).
pub fn log_format_for(ext: Option<&str>) -> (r: Result<LogFormat, String>)
    ensures
        match r {
            Ok(f) => format_for(opt_view(ext)) == Ok::<LogFormat, Seq<char>>(f),
            Err(e) => format_for(opt_view(ext)) == Err::<LogFormat, Seq<char>>(e@),
        },
{
    match ext {
        None => {
            let mut e = String::new();
            push_str(&mut e, "log path needs an extension (.jsonl, .ndjson, or .csv)");
            Err(e)
        },
        Some(x) => {
            let v = chars_of(x);
            let mut low: Vec<char> = Vec::new();
            let mut i: usize = 0;
            while i < v.len()
                invariant
                    i <= v.len(),
                    low@ == ascii_lower_seq(v@.take(i as int)),
                decreases v.len() - i,
            {
                let c = v[i];
                let d = if 'A' <= c && c <= 'Z' {
                    ((c as u8) + 32) as char
                } else {
                    c
                };
                assert(d == ascii_lower(c));
                low.push(d);
                assert(ascii_lower_seq(v@.take(i + 1)) =~= ascii_lower_seq(v@.take(i as int)).push(
                    d,
                ));
                i = i + 1;
            }
            assert(v@.take(v@.len() as int) == v@);
            let l = string_from_chars(&low);
            if str_eq(l.as_str(), "jsonl") || str_eq(l.as_str(), "ndjson") {
                Ok(LogFormat::Jsonl)
            } else if str_eq(l.as_str(), "csv") {
                Ok(LogFormat::Csv)
            } else {
                let mut e = String::new();
                push_str(&mut e, "unsupported log extension: .");
                push_str(&mut e, l.as_str());
                Err(e)
            }
        },
    }
}

pub open spec fn unknown_preset_message(name: Seq<char>) -> Seq<char> {
    "unknown preset \""@ + name + "\"; available: "@ + join(
        Seq::new(NUM_PRESETS as nat, |i: int| preset_name_view(i)),
        ", "@,
    )
}

/// Index of the preset named on the command line, or the error listing the
/// available presets.
pub fn preset_idx(name: &str) -> (r: Result<usize, String>)
    ensures
        match r {
            Ok(i) => i < NUM_PRESETS && preset_name_view(i as int) == name@,
            Err(e) => e@ == unknown_preset_message(name@) && forall|i: int|
                0 <= i < NUM_PRESETS ==> preset_name_view(i) != name@,
        },
{
    match preset_index(name) {
        Some(i) => Ok(i),
        None => {
            let names = preset_names();
            let mut owned: Vec<String> = Vec::new();
            let mut i: usize = 0;
            while i < names.len()
                invariant
                    i <= names.len() == NUM_PRESETS,
                    owned@.len() == i,
                    forall|k: int| 0 <= k < NUM_PRESETS ==> (#[trigger] names@[k])@ == preset_name_view(k),
                    forall|k: int| 0 <= k < i ==> (#[trigger] owned@[k])@ == preset_name_view(k),
                decreases names.len() - i,
            {
                let mut s = String::new();
                push_str(&mut s, names[i]);
                owned.push(s);
                i = i + 1;
            }
            let mut e = String::new();
            push_str(&mut e, "unknown preset \"");
            push_str(&mut e, name);
            push_str(&mut e, "\"; available: ");
            let joined = join_names(&owned);
            push_str(&mut e, joined.as_str());
            assert(owned@.map_values(|n: String| n@) =~= Seq::new(
                NUM_PRESETS as nat,
                |i: int| preset_name_view(i),
            ));
            Err(e)
        },
    }
}

/// The peer name to show: the one given on the command line, else the
/// host's name, else "linkclihost".
pub open spec fn chosen_name(name: Option<Seq<char>>, host: Option<Seq<char>>) -> Seq<char> {
    match name {
        Some(n) => n,
        None => match host {
            Some(h) => h,
            None => "linkclihost"@,
        },
    }
}

pub open spec fn opt_string_view(o: Option<String>) -> Option<Seq<char>> {
    match o {
        Some(s) => Some(s@),
        None => None,
    }
}

/// Peer name from an optional override and the host's name (when it could
/// be read as UTF-8).
pub fn choose_name(name: Option<String>, host: Option<String>) -> (r: String)
    ensures
        r@ == chosen_name(opt_string_view(name), opt_string_view(host)),
{
    match name {
        Some(n) => n,
        None => match host {
            Some(h) => h,
            None => {
                let mut s = String::new();
                push_str(&mut s, "linkclihost");
                s
            },
        },
    }
}

/// `gethostname::gethostname()`, converted to a `String` when it is valid
/// UTF-8. The host's name depends on the machine, so nothing is stated of
/// it. (gethostname panics only when the system call fails, which its
/// documentation says cannot realistically happen.)
#[verifier::external_body]
fn host_name() -> Option<String> {
    gethostname::gethostname().into_string().ok()
}

/// Peer display name: the override when given; otherwise the host's name
/// or, when that is not UTF-8, "linkclihost".
pub fn resolved_name(name: Option<String>) -> (r: String)
    ensures
        name matches Some(n) ==> r@ == n@,
{
    match name {
        Some(n) => n,
        None => choose_name(None, host_name()),
    }
}

} // verus!
