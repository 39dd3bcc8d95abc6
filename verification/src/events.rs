//! Event-log rows: the CSV layout of every logged event, and the quoting of
//! CSV fields.
//!
//! Values that are floating point in the running program (tempi, quantum,
//! mean jitter) reach this module already rendered as text.

use crate::text::{chars_of, dec, dec_int, join, push_char, push_dec, push_dec_i64, push_str};
use vstd::prelude::*;

verus! {

/// Fixed column order for CSV output:
/// timestamp_utc, event, bpm_from, bpm_to, peer_count, playing, note
pub const CSV_HEADERS: [&'static str; 7] = [
    "timestamp_utc",
    "event",
    "bpm_from",
    "bpm_to",
    "peer_count",
    "playing",
    "note",
];

/// An event as the log writer lays it out: what each variant carries, with
/// floating-point values already rendered as text.
#[derive(Debug, Clone)]
pub enum LogEvent {
    SessionStart { quantum: String, peer_name: String },
    TempoChanged { from_bpm: String, to_bpm: String },
    PeersChanged { count: u64 },
    TransportChanged { playing: bool },
    /// Periodic MIDI clock jitter report (scheduling error vs the Link timeline).
    ClockStats { port: String, ticks: u64, mean_abs_err_us: String, max_abs_err_us: i64 },
    SessionEnd { reason: String },
}

/// The `type` tag of each event in both log formats.
pub open spec fn event_name(e: LogEvent) -> Seq<char> {
    match e {
        LogEvent::SessionStart { .. } => "session_start"@,
        LogEvent::TempoChanged { .. } => "tempo_changed"@,
        LogEvent::PeersChanged { .. } => "peers_changed"@,
        LogEvent::TransportChanged { .. } => "transport_changed"@,
        LogEvent::ClockStats { .. } => "clock_stats"@,
        LogEvent::SessionEnd { .. } => "session_end"@,
    }
}

pub open spec fn bool_text(b: bool) -> Seq<char> {
    if b {
        "true"@
    } else {
        "false"@
    }
}

/// The seven CSV cells of `e` logged at the timestamp text `ts`; unused
/// cells are empty.
pub open spec fn csv_cells(ts: Seq<char>, e: LogEvent) -> Seq<Seq<char>> {
    let z = Seq::<char>::empty();
    match e {
        LogEvent::SessionStart { quantum, peer_name } => seq![
            ts,
            event_name(e),
            z,
            z,
            z,
            z,
            "quantum="@ + quantum@ + " peer="@ + peer_name@,
        ],
        LogEvent::TempoChanged { from_bpm, to_bpm } => seq![
            ts,
            event_name(e),
            from_bpm@,
            to_bpm@,
            z,
            z,
            z,
        ],
        LogEvent::PeersChanged { count } => seq![ts, event_name(e), z, z, dec(count as nat), z, z],
        LogEvent::TransportChanged { playing } => seq![
            ts,
            event_name(e),
            z,
            z,
            z,
            bool_text(playing),
            z,
        ],
        LogEvent::ClockStats { port, ticks, mean_abs_err_us, max_abs_err_us } => seq![
            ts,
            event_name(e),
            z,
            z,
            z,
            z,
            "port="@ + port@ + " ticks="@ + dec(ticks as nat) + " mean_abs_us="@
                + mean_abs_err_us@ + " max_abs_us="@ + dec_int(max_abs_err_us as int),
        ],
        LogEvent::SessionEnd { reason } => seq![ts, event_name(e), z, z, z, z, reason@],
    }
}

/// Every row, whatever the event, has seven cells and starts with the
/// timestamp text followed by the event's type name.
pub proof fn lemma_row_leads_with_time_and_type(ts: Seq<char>, e: LogEvent)
    ensures
        csv_cells(ts, e).len() == 7,
        csv_cells(ts, e)[0] == ts,
        csv_cells(ts, e)[1] == event_name(e),
{
}

pub open spec fn cell_views(row: [String; 7]) -> Seq<Seq<char>> {
    row@.map_values(|c: String| c@)
}

fn name_of(e: &LogEvent) -> (s: String)
    ensures
        s@ == event_name(*e),
{
    let mut s = String::new();
    match e {
        LogEvent::SessionStart { .. } => push_str(&mut s, "session_start"),
        LogEvent::TempoChanged { .. } => push_str(&mut s, "tempo_changed"),
        LogEvent::PeersChanged { .. } => push_str(&mut s, "peers_changed"),
        LogEvent::TransportChanged { .. } => push_str(&mut s, "transport_changed"),
        LogEvent::ClockStats { .. } => push_str(&mut s, "clock_stats"),
        LogEvent::SessionEnd { .. } => push_str(&mut s, "session_end"),
    }
    s
}

fn copy_of(t: &String) -> (s: String)
    ensures
        s@ == t@,
{
    let mut s = String::new();
    push_str(&mut s, t.as_str());
    s
}

/// The CSV cells of `e` logged at the timestamp text `ts`.
pub fn csv_row_at(ts: &str, e: &LogEvent) -> (row: [String; 7])
    ensures
        cell_views(row) == csv_cells(ts@, *e),
        row@[0]@ == ts@,
        row@[1]@ == event_name(*e),
{
    proof {
        lemma_row_leads_with_time_and_type(ts@, *e);
    }
    let mut t = String::new();
    push_str(&mut t, ts);
    let name = name_of(e);
    let row: [String; 7] = match e {
        LogEvent::SessionStart { quantum, peer_name } => {
            let mut note = String::new();
            push_str(&mut note, "quantum=");
            push_str(&mut note, quantum.as_str());
            push_str(&mut note, " peer=");
            push_str(&mut note, peer_name.as_str());
            [t, name, String::new(), String::new(), String::new(), String::new(), note]
        },
        LogEvent::TempoChanged { from_bpm, to_bpm } => {
            [
                t,
                name,
                copy_of(from_bpm),
                copy_of(to_bpm),
                String::new(),
                String::new(),
                String::new(),
            ]
        },
        LogEvent::PeersChanged { count } => {
            let mut c = String::new();
            push_dec(&mut c, *count);
            [t, name, String::new(), String::new(), c, String::new(), String::new()]
        },
        LogEvent::TransportChanged { playing } => {
            let mut p = String::new();
            if *playing {
                push_str(&mut p, "true");
            } else {
                push_str(&mut p, "false");
            }
            [t, name, String::new(), String::new(), String::new(), p, String::new()]
        },
        LogEvent::ClockStats { port, ticks, mean_abs_err_us, max_abs_err_us } => {
            let mut note = String::new();
            push_str(&mut note, "port=");
            push_str(&mut note, port.as_str());
            push_str(&mut note, " ticks=");
            push_dec(&mut note, *ticks);
            push_str(&mut note, " mean_abs_us=");
            push_str(&mut note, mean_abs_err_us.as_str());
            push_str(&mut note, " max_abs_us=");
            push_dec_i64(&mut note, *max_abs_err_us);
            [t, name, String::new(), String::new(), String::new(), String::new(), note]
        },
        LogEvent::SessionEnd { reason } => {
            [
                t,
                name,
                String::new(),
                String::new(),
                String::new(),
                String::new(),
                copy_of(reason),
            ]
        },
    };
    assert(cell_views(row) =~= csv_cells(ts@, *e));
    row
}

/// RFC 3339 text, UTC with a `Z` and millisecond precision, of the instant
/// `ms` milliseconds after the Unix epoch; `None` outside chrono's range.
pub uninterp spec fn rfc3339_millis(ms: int) -> Option<Seq<char>>;

/// `chrono::DateTime::<Utc>::from_timestamp_millis` followed by
/// `to_rfc3339_opts(SecondsFormat::Millis, true)`. The text, and which
/// instants chrono can represent, are named by `rfc3339_millis`; the
/// calendar arithmetic behind them is not stated.
#[verifier::external_body]
fn format_timestamp(ms: i64) -> (r: Option<String>)
    ensures
        match r {
            Some(s) => rfc3339_millis(ms as int) == Some(s@),
            None => rfc3339_millis(ms as int) is None,
        },
{
    match chrono::DateTime::from_timestamp_millis(ms) {
        Some(t) => Some(t.to_rfc3339_opts(chrono::SecondsFormat::Millis, true)),
        None => None,
    }
}

/// The CSV cells of `e` logged at `at_ms` milliseconds after the Unix
/// epoch; `None` when that instant has no calendar rendering.
pub fn csv_row(at_ms: i64, e: &LogEvent) -> (row: Option<[String; 7]>)
    ensures
        match rfc3339_millis(at_ms as int) {
            Some(ts) => row matches Some(r) && cell_views(r) == csv_cells(ts, *e) && r@[0]@ == ts
                && r@[1]@ == event_name(*e),
            None => row is None,
        },
{
    match format_timestamp(at_ms) {
        Some(ts) => Some(csv_row_at(ts.as_str(), e)),
        None => None,
    }
}

// ---------------------------------------------------------------------------
// Quoting
// ---------------------------------------------------------------------------
pub open spec fn special(c: char) -> bool {
    c == ',' || c == '"' || c == '\n'
}

/// The field holds a comma, a quote or a newline, so it must be quoted.
pub open spec fn needs_quotes(s: Seq<char>) -> bool {
    exists|i: int| 0 <= i < s.len() && special(#[trigger] s[i])
}

/// `s` with every quote doubled.
pub open spec fn double_quotes(s: Seq<char>) -> Seq<char>
    decreases s.len(),
{
    if s.len() == 0 {
        Seq::empty()
    } else if s.last() == '"' {
        double_quotes(s.drop_last()) + seq!['"', '"']
    } else {
        double_quotes(s.drop_last()).push(s.last())
    }
}

/// The CSV form of one field.
pub open spec fn escaped(s: Seq<char>) -> Seq<char> {
    if needs_quotes(s) {
        seq!['"'] + double_quotes(s) + seq!['"']
    } else {
        s
    }
}

/// `s` with every doubled quote read back as one quote.
pub open spec fn undouble(s: Seq<char>) -> Seq<char>
    decreases s.len(),
{
    if s.len() == 0 {
        Seq::empty()
    } else if s.len() >= 2 && s[0] == '"' && s[1] == '"' {
        seq!['"'] + undouble(s.skip(2))
    } else {
        seq![s[0]] + undouble(s.skip(1))
    }
}

/// How a CSV reader reads one field back.
pub open spec fn unescaped(s: Seq<char>) -> Seq<char> {
    if s.len() >= 2 && s[0] == '"' && s.last() == '"' {
        undouble(s.subrange(1, s.len() - 1))
    } else {
        s
    }
}

proof fn lemma_undouble_append(a: Seq<char>, b: Seq<char>)
    ensures
        undouble(double_quotes(a) + b) == a + undouble(b),
    decreases a.len(),
{
    if a.len() > 0 {
        let c = a[0];
        let rest = a.skip(1);
        lemma_double_first(a);
        lemma_undouble_append(rest, b);
        if c == '"' {
            assert(double_quotes(a) + b == seq!['"', '"'] + (double_quotes(rest) + b));
            let t = seq!['"', '"'] + (double_quotes(rest) + b);
            assert(t.skip(2) == double_quotes(rest) + b);
            assert(a == seq![c] + rest);
        } else {
            assert(double_quotes(a) + b == seq![c] + (double_quotes(rest) + b));
            let t = seq![c] + (double_quotes(rest) + b);
            assert(t.skip(1) == double_quotes(rest) + b);
            assert(a == seq![c] + rest);
        }
    } else {
        assert(double_quotes(a) + b == b);
        assert(a + undouble(b) == undouble(b));
    }
}

/// `double_quotes` read from the front.
proof fn lemma_double_first(a: Seq<char>)
    requires
        a.len() > 0,
    ensures
        double_quotes(a) == (if a[0] == '"' {
            seq!['"', '"']
        } else {
            seq![a[0]]
        }) + double_quotes(a.skip(1)),
    decreases a.len(),
{
    if a.len() == 1 {
        assert(a.drop_last() == Seq::<char>::empty());
        assert(a.skip(1) == Seq::<char>::empty());
    } else {
        lemma_double_first(a.drop_last());
        assert(a.drop_last().skip(1) == a.skip(1).drop_last());
        assert(a.skip(1).last() == a.last());
        assert(a.drop_last()[0] == a[0]);
    }
}

proof fn lemma_no_quote_undouble(s: Seq<char>)
    requires
        forall|i: int| 0 <= i < s.len() ==> #[trigger] s[i] != '"',
    ensures
        undouble(s) == s,
    decreases s.len(),
{
    if s.len() > 0 {
        lemma_no_quote_undouble(s.skip(1));
        assert(s == seq![s[0]] + s.skip(1));
    }
}

/// A field written by the logger reads back as it was: unquoting the CSV
/// form of any text gives the text.
pub proof fn lemma_escape_round_trip(s: Seq<char>)
    ensures
        unescaped(escaped(s)) == s,
{
    if needs_quotes(s) {
        let q = seq!['"'] + double_quotes(s) + seq!['"'];
        assert(q.subrange(1, q.len() - 1) == double_quotes(s));
        lemma_undouble_append(s, Seq::empty());
        assert(double_quotes(s) + Seq::<char>::empty() == double_quotes(s));
        assert(s + Seq::<char>::empty() == s);
    } else {
        assert forall|i: int| 0 <= i < s.len() implies #[trigger] s[i] != '"' by {
            assert(!special(s[i]));
        }
        if s.len() >= 2 && s[0] == '"' && s.last() == '"' {
            assert(false);
        }
    }
}

/// A field as written to the CSV log: quoted, with inner quotes doubled,
/// when it holds a comma, a quote or a newline; unchanged otherwise.
pub fn csv_escape(s: &str) -> (out: String)
    ensures
        out@ == escaped(s@),
{
    let v = chars_of(s);
    let mut special_at: bool = false;
    let mut i: usize = 0;
    while i < v.len()
        invariant
            i <= v.len(),
            v@ == s@,
            special_at <==> exists|j: int| 0 <= j < i && special(#[trigger] v@[j]),
        decreases v.len() - i,
    {
        if v[i] == ',' || v[i] == '"' || v[i] == '\n' {
            special_at = true;
        }
        i = i + 1;
    }
    if !special_at {
        let mut out = String::new();
        push_str(&mut out, s);
        return out;
    }
    let mut out = String::new();
    push_char(&mut out, '"');
    let mut k: usize = 0;
    while k < v.len()
        invariant
            k <= v.len(),
            v@ == s@,
            out@ == seq!['"'] + double_quotes(v@.take(k as int)),
        decreases v.len() - k,
    {
        let c = v[k];
        let ghost before = out@;
        if c == '"' {
            push_char(&mut out, '"');
            push_char(&mut out, '"');
        } else {
            push_char(&mut out, c);
        }
        proof {
            assert(v@.take(k + 1).drop_last() == v@.take(k as int));
            assert(v@.take(k + 1).last() == c);
        }
        k = k + 1;
    }
    push_char(&mut out, '"');
    assert(v@.take(v@.len() as int) == v@);
    out
}

/// One CSV line (without the newline): every cell quoted as needed, joined
/// by commas.
pub fn csv_line(row: &[String; 7]) -> (line: String)
    ensures
        line@ == join(cell_views(*row).map_values(|c: Seq<char>| escaped(c)), ","@),
{
    let ghost cells = cell_views(*row).map_values(|c: Seq<char>| escaped(c));
    let mut line = String::new();
    let mut i: usize = 0;
    while i < 7
        invariant
            i <= 7,
            cells == cell_views(*row).map_values(|c: Seq<char>| escaped(c)),
            line@ == join(cells.take(i as int), ","@),
        decreases 7 - i,
    {
        let ghost before = line@;
        if i > 0 {
            push_str(&mut line, ",");
        }
        let cell = csv_escape(row[i].as_str());
        push_str(&mut line, cell.as_str());
        proof {
            assert(cells.take(i + 1).drop_last() == cells.take(i as int));
            assert(cells.take(i + 1).last() == escaped(row@[i as int]@));
            if i == 0 {
                assert(before == Seq::<char>::empty());
            }
        }
        i = i + 1;
    }
    assert(cells.take(7) == cells);
    line
}

} // verus!
