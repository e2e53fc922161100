//! Short user-facing strings: session names, hints, warning lines and
//! compact relative times.

use crate::text::{
    chars_of, decimal, decimal2, decimal2_chars, decimal_chars, extend_chars, extend_str,
    first_line, lines, lines_of, string_of, sub_chars, trim, trim_chars,
};
use base64::Engine;
use vstd::string::StringSliceAdditionalSpecFns;
use vstd::prelude::*;

verus! {

/// A line cut to fit 40 characters: longer lines keep their first 39
/// characters and gain an ellipsis.
pub open spec fn clip40(line: Seq<char>) -> Seq<char> {
    if line.len() > 40 {
        line.take(39).push('…')
    } else {
        line
    }
}

/// `s.lines().next().unwrap_or(s)` over characters.
pub fn first_line_chars(v: &Vec<char>) -> (r: Vec<char>)
    ensures
        r@ == first_line(v@),
{
    if v.len() == 0 {
        return Vec::new();
    }
    let ls = lines_of(v);
    assert(lines(v@).len() > 0);
    let r = sub_chars(&ls[0], 0, ls[0].len());
    assert(r@ =~= ls@[0]@);
    r
}

fn clip40_chars(line: &Vec<char>) -> (r: Vec<char>)
    ensures
        r@ == clip40(line@),
{
    if line.len() > 40 {
        let mut h = sub_chars(line, 0, 39);
        h.push('…');
        assert(h@ =~= line@.take(39).push('…'));
        h
    } else {
        sub_chars(line, 0, line.len())
    }
}

/// A queued-message hint: the first line, cut to 40 characters.
pub fn truncate_for_hint(s: &str) -> (r: String)
    ensures
        r@ == clip40(first_line(s@)),
{
    let v = chars_of(s);
    let l = first_line_chars(&v);
    string_of(&clip40_chars(&l))
}

/// Seconds into the local day of a millisecond timestamp at a zone offset.
pub open spec fn second_of_day(ts_ms: i64, tz_offset_secs: i32) -> int {
    (ts_ms as int / 1000 + tz_offset_secs as int) % 86400
}

/// `session HH:MM` for a second of the day.
pub open spec fn session_clock_name(sod: int) -> Seq<char> {
    "session "@ + decimal2((sod / 3600) as nat) + ":"@ + decimal2(((sod % 3600) / 60) as nat)
}

/// The automatic session name: the trimmed first user message's first
/// line cut to 40 characters, or `session HH:MM` from the timestamp when
/// there is no non-blank message.
pub open spec fn session_name(msg: Option<Seq<char>>, ts_ms: i64, tz_offset_secs: i32) -> Seq<char> {
    match msg {
        Some(m) if trim(m).len() > 0 => clip40(first_line(trim(m))),
        _ => session_clock_name(second_of_day(ts_ms, tz_offset_secs)),
    }
}

/// Auto-derive a session name: the first user message truncated to 40
/// chars, else `session HH:MM` from the timestamp at the given offset.
pub fn derive_session_name(first_user_msg: Option<&str>, ts_ms: i64, tz_offset_secs: i32) -> (r: String)
    ensures
        r@ == session_name(
            match first_user_msg {
                Some(m) => Some(m@),
                None => None,
            },
            ts_ms,
            tz_offset_secs,
        ),
{
    if let Some(m) = first_user_msg {
        let t = trim_chars(&chars_of(m));
        if t.len() > 0 {
            let l = first_line_chars(&t);
            return string_of(&clip40_chars(&l));
        }
    }
    let q: i64 = match ts_ms.checked_div_euclid(1000) {
        Some(q) => q,
        None => 0,
    };
    assert(q == ts_ms as int / 1000);
    let secs: i64 = q + tz_offset_secs as i64;
    let sod: i64 = match secs.checked_rem_euclid(86400) {
        Some(s) => s,
        None => 0,
    };
    assert(sod == second_of_day(ts_ms, tz_offset_secs));
    assert(0 <= sod < 86400);
    let mut out = chars_of("session ");
    extend_chars(&mut out, &decimal2_chars((sod / 3600) as u64));
    extend_str(&mut out, ":");
    extend_chars(&mut out, &decimal2_chars(((sod % 3600) / 60) as u64));
    string_of(&out)
}

/// `"{mins}m ago"`, `"{h}h ago"` or `"{d}d ago"` for the whole minutes
/// (never negative) between two stamps.
pub open spec fn since_text(then_ms: i64, now_ms: i64) -> Seq<char> {
    let d: int = if now_ms - then_ms > 0 {
        now_ms - then_ms
    } else {
        0
    };
    let mins: nat = (d / 60_000) as nat;
    if mins < 60 {
        decimal(mins) + "m ago"@
    } else if mins < 1440 {
        decimal(mins / 60) + "h ago"@
    } else {
        decimal(mins / 1440) + "d ago"@
    }
}

/// Compact "N ago" from two epoch-millis stamps (e.g. "12m ago", "3h ago").
pub fn fmt_since(then_ms: i64, now_ms: i64) -> (r: String)
    requires
        i64::MIN <= now_ms - then_ms <= i64::MAX,
    ensures
        r@ == since_text(then_ms, now_ms),
{
    let d: i64 = if now_ms - then_ms > 0 {
        now_ms - then_ms
    } else {
        0
    };
    let mins: u64 = (d / 60_000) as u64;
    let mut out = if mins < 60 {
        decimal_chars(mins)
    } else if mins < 1440 {
        decimal_chars(mins / 60)
    } else {
        decimal_chars(mins / 1440)
    };
    if mins < 60 {
        extend_str(&mut out, "m ago");
    } else if mins < 1440 {
        extend_str(&mut out, "h ago");
    } else {
        extend_str(&mut out, "d ago");
    }
    string_of(&out)
}

/// `"{mins}m"` below an hour, else `"{h}h{m}m"`, for the whole minutes
/// (never negative) since `start_ms`.
pub open spec fn duration_text(start_ms: i64, now_ms: i64) -> Seq<char> {
    let d: int = if now_ms - start_ms > 0 {
        now_ms - start_ms
    } else {
        0
    };
    let mins: nat = (d / 60_000) as nat;
    if mins < 60 {
        decimal(mins) + "m"@
    } else {
        decimal(mins / 60) + "h"@ + decimal(mins % 60) + "m"@
    }
}

/// Compact duration since `start_ms` (e.g. "12m", "1h3m").
pub fn fmt_duration(start_ms: i64, now_ms: i64) -> (r: String)
    requires
        i64::MIN <= now_ms - start_ms <= i64::MAX,
    ensures
        r@ == duration_text(start_ms, now_ms),
{
    let d: i64 = if now_ms - start_ms > 0 {
        now_ms - start_ms
    } else {
        0
    };
    let mins: u64 = (d / 60_000) as u64;
    if mins < 60 {
        let mut out = decimal_chars(mins);
        extend_str(&mut out, "m");
        string_of(&out)
    } else {
        let mut out = decimal_chars(mins / 60);
        extend_str(&mut out, "h");
        extend_chars(&mut out, &decimal_chars(mins % 60));
        extend_str(&mut out, "m");
        string_of(&out)
    }
}

/// `"{s}s"` below a minute, `"{m}m"` below an hour, else `"{h}h"`; a
/// negative delta reads as zero.
pub open spec fn age_text(ms_ago: i64) -> Seq<char> {
    let d: int = if ms_ago > 0 {
        ms_ago as int
    } else {
        0
    };
    if d < 60_000 {
        decimal((d / 1000) as nat) + "s"@
    } else if d < 3_600_000 {
        decimal((d / 60_000) as nat) + "m"@
    } else {
        decimal((d / 3_600_000) as nat) + "h"@
    }
}

/// Compact relative age from a millisecond delta (e.g. "45s", "12m", "3h").
pub fn fmt_age(ms_ago: i64) -> (r: String)
    ensures
        r@ == age_text(ms_ago),
{
    let d: u64 = if ms_ago > 0 {
        ms_ago as u64
    } else {
        0
    };
    let mut out = if d < 60_000 {
        decimal_chars(d / 1000)
    } else if d < 3_600_000 {
        decimal_chars(d / 60_000)
    } else {
        decimal_chars(d / 3_600_000)
    };
    if d < 60_000 {
        extend_str(&mut out, "s");
    } else if d < 3_600_000 {
        extend_str(&mut out, "m");
    } else {
        extend_str(&mut out, "h");
    }
    string_of(&out)
}

/// One unknown-key warning for the log, qualified by its source file.
pub fn layer_warning_line(file: &str, key: &str) -> (r: String)
    ensures
        r@ == file@ + ": ignored unknown key "@ + key@,
{
    let mut out = chars_of(file);
    extend_str(&mut out, ": ignored unknown key ");
    extend_str(&mut out, key);
    string_of(&out)
}

/// The status-bar summary of ignored config keys: none for no keys, the key
/// named inline for one, a count for several.
pub fn config_warning_hint(keys: &[String]) -> (r: Option<String>)
    ensures
        keys@.len() == 0 ==> r is None,
        keys@.len() == 1 ==> (r matches Some(h) && h@ == "config: 1 key ignored ("@ + keys@[0]@
            + ")"@),
        keys@.len() > 1 ==> (r matches Some(h) && h@ == "config: "@ + decimal(keys@.len())
            + " keys ignored — see log"@),
{
    if keys.len() == 0 {
        None
    } else if keys.len() == 1 {
        let mut out = chars_of("config: 1 key ignored (");
        extend_str(&mut out, keys[0].as_str());
        extend_str(&mut out, ")");
        Some(string_of(&out))
    } else {
        let mut out = chars_of("config: ");
        extend_chars(&mut out, &decimal_chars(keys.len() as u64));
        extend_str(&mut out, " keys ignored — see log");
        Some(string_of(&out))
    }
}

/// The no-active-turn subagent-kill escalation: a first press arms and asks
/// for confirmation; a second press fires and disarms. Returns
/// `(next_armed, should_fire, status_hint)`.
pub fn subagent_kill_decision(armed: bool, pending: usize) -> (r: (bool, bool, String))
    ensures
        r.0 == !armed,
        r.1 == armed,
        armed ==> r.2@ == "killing "@ + decimal(pending as nat) + " subagent(s)…"@,
        !armed ==> r.2@ == "kill "@ + decimal(pending as nat) + " subagent(s)? Esc again to confirm"@,
{
    if armed {
        let mut out = chars_of("killing ");
        extend_chars(&mut out, &decimal_chars(pending as u64));
        extend_str(&mut out, " subagent(s)…");
        (false, true, string_of(&out))
    } else {
        let mut out = chars_of("kill ");
        extend_chars(&mut out, &decimal_chars(pending as u64));
        extend_str(&mut out, " subagent(s)? Esc again to confirm");
        (true, false, string_of(&out))
    }
}

/// How far a cancel press goes.
#[derive(Debug, Clone, Copy, PartialEq, Eq, Structural)]
pub enum CancelTier {
    /// Ask the running turn to stop.
    Graceful,
    /// Force-stop the turn and kill every running subagent.
    Hard,
}

/// The interrupt a cancel press fires: the first (nothing fired yet) asks
/// the turn to stop; a second, once the graceful stop has fired, forces it.
/// Returns the tier and the status hint.
pub fn cancel_escalation(graceful_fired: bool) -> (r: (CancelTier, String))
    ensures
        graceful_fired ==> r.0 == CancelTier::Hard && r.1@ == "force-stopping…"@,
        !graceful_fired ==> r.0 == CancelTier::Graceful && r.1@ == "cancelling… (Esc again to force)"@,
{
    if graceful_fired {
        (CancelTier::Hard, String::from_str("force-stopping…"))
    } else {
        (CancelTier::Graceful, String::from_str("cancelling… (Esc again to force)"))
    }
}

/// The lines a copied block counts for the hint: at least one.
pub open spec fn copied_lines(source: Seq<char>) -> nat {
    if lines(source).len() > 1 {
        lines(source).len()
    } else {
        1
    }
}

/// The status hint after copying a code block: `copied 1 line` or
/// `copied {n} lines`.
pub fn copied_hint(source: &str) -> (r: String)
    ensures
        r@ == "copied "@ + decimal(copied_lines(source@)) + (if copied_lines(source@) == 1 {
            " line"@
        } else {
            " lines"@
        }),
{
    let ls = lines_of(&chars_of(source));
    let n: usize = if ls.len() > 1 {
        ls.len()
    } else {
        1
    };
    let mut out = chars_of("copied ");
    extend_chars(&mut out, &decimal_chars(n as u64));
    if n == 1 {
        extend_str(&mut out, " line");
    } else {
        extend_str(&mut out, " lines");
    }
    string_of(&out)
}

/// What the base64 crate's standard engine (standard alphabet, padded)
/// encodes a byte sequence to.
pub uninterp spec fn base64_standard(bytes: Seq<u8>) -> Seq<char>;

/// `base64::engine::general_purpose::STANDARD.encode`. Claims the result is
/// the standard padded encoding of exactly these bytes, four characters per
/// started group of three bytes. The crate panics when that length overflows
/// `usize`, which `requires` rules out.
#[verifier::external_body]
fn base64_encode(bytes: &[u8]) -> (r: String)
    requires
        bytes@.len() / 3 * 4 + 4 <= usize::MAX,
    ensures
        r@ == base64_standard(bytes@),
        r@.len() == (bytes@.len() + 2) / 3 * 4,
{
    base64::engine::general_purpose::STANDARD.encode(bytes)
}

/// The OSC 52 escape that puts `text` on the terminal's clipboard:
/// `ESC ] 52 ; c ; <base64 of the UTF-8 bytes> BEL`.
pub fn osc52_sequence(text: &str) -> (r: String)
    requires
        text.spec_bytes().len() / 3 * 4 + 4 <= usize::MAX,
    ensures
        r@ == "\x1b]52;c;"@ + base64_standard(text.spec_bytes()) + "\x07"@,
{
    let b64 = base64_encode(text.as_bytes());
    let mut out = chars_of("\x1b]52;c;");
    extend_str(&mut out, b64.as_str());
    extend_str(&mut out, "\x07");
    string_of(&out)
}

/// Why a feedback report cannot be sent yet: its title or its description
/// is blank. `None` when both are filled in.
pub fn feedback_problem(title: &str, body: &str) -> (r: Option<String>)
    ensures
        (trim(title@).len() == 0 || trim(body@).len() == 0) ==> (r matches Some(m) && m@
            == "Title and description are required."@),
        (trim(title@).len() > 0 && trim(body@).len() > 0) ==> r is None,
{
    if trim_chars(&chars_of(title)).len() == 0 || trim_chars(&chars_of(body)).len() == 0 {
        Some(String::from_str("Title and description are required."))
    } else {
        None
    }
}

} // verus!
