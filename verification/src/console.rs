//! The console: a bounded log of what templates, plugins and saves report.

use vstd::prelude::*;
use vstd::string::*;
use crate::labels::Icon;
use crate::runtimes::{Diagnostic, Severity};
use crate::text::{join2, push_char, push_dec, push_hex_padded};
#[allow(unused_imports)]
use crate::text::{dec, digits, zero_padded};

verus! {

/// How grave a message is.
#[derive(Clone, Copy, Debug, PartialEq, Eq, Structural)]
pub enum ConsoleSeverity {
    Info,
    Warning,
    Error,
}

/// One message. `context` tells which run or file it is about.
pub struct ConsoleEntry {
    /// When it came, in seconds since the start of 1970.
    pub second: i64,
    pub severity: ConsoleSeverity,
    pub context: String,
    pub message: String,
}

/// How many messages the console keeps.
pub const CONSOLE_CAPACITY: usize = 2048;

/// First second that has a calendar date here: the start of the year -9999.
pub const FIRST_SECOND: i64 = -377705023201;

/// Last second that has a calendar date here, at the end of the year 9999.
pub const LAST_SECOND: i64 = 253402207200;

/// The current time, by `jiff::Timestamp::now` and `as_second`. A `Timestamp`
/// never lies outside the given bounds; nothing else is claimed of the clock.
#[verifier::external_body]
fn now_second() -> (r: i64)
    ensures
        FIRST_SECOND <= r <= LAST_SECOND,
{
    jiff::Timestamp::now().as_second()
}

/// Hour, minute and second of a time of day in UTC, by
/// `jiff::Timestamp::from_second` and `to_zoned` with `TimeZone::UTC`. UTC has
/// an offset of zero and no leap seconds there, so that the time of day is
/// what is left of the seconds after whole days.
#[verifier::external_body]
fn utc_clock(second: i64) -> (r: (i8, i8, i8))
    requires
        FIRST_SECOND <= second <= LAST_SECOND,
    ensures
        r.0 == (second as int % 86400) / 3600,
        r.1 == (second as int % 3600) / 60,
        r.2 == second as int % 60,
{
    let stamp = jiff::Timestamp::from_second(second).expect("second in bounds");
    let zoned = stamp.to_zoned(jiff::tz::TimeZone::UTC);
    (zoned.hour(), zoned.minute(), zoned.second())
}

/// A number below one hundred with two digits.
pub open spec fn two_digits(n: nat) -> Seq<char> {
    zero_padded(dec(n), 2)
}

/// A time of day as it is shown, in UTC.
pub open spec fn clock_text(second: int) -> Seq<char> {
    two_digits(((second % 86400) / 3600) as nat) + ":"@ + two_digits(
        ((second % 3600) / 60) as nat,
    ) + ":"@ + two_digits((second % 60) as nat)
}

fn push_two_digits(out: &mut String, n: i8)
    requires
        0 <= n < 100,
    ensures
        final(out)@ == old(out)@ + two_digits(n as nat),
{
    let value: u64 = n as u64;
    proof {
        reveal_with_fuel(digits, 3);
    }
    if value < 10 {
        push_char(out, '0');
        assert(dec(n as nat).len() == 1);
        assert(crate::text::zeros(1) =~= seq!['0']);
    } else {
        assert(dec(n as nat).len() == 2);
    }
    push_dec(out, value);
    assert(out@ =~= old(out)@ + two_digits(n as nat));
}

/// Writes a time of day.
pub fn format_console_time(second: i64) -> (r: String)
    requires
        FIRST_SECOND <= second <= LAST_SECOND,
    ensures
        r@ == clock_text(second as int),
{
    let clock = utc_clock(second);
    let mut out = String::new();
    push_two_digits(&mut out, clock.0);
    out.append(":");
    push_two_digits(&mut out, clock.1);
    out.append(":");
    push_two_digits(&mut out, clock.2);
    assert(out@ =~= clock_text(second as int));
    out
}

/// The last `n` elements.
pub open spec fn tail_of<T>(s: Seq<T>, n: nat) -> Seq<T> {
    if s.len() <= n {
        s
    } else {
        s.skip(s.len() - n)
    }
}

/// The console after a message came: the latest messages, as many as it keeps.
pub open spec fn logged(console: Seq<ConsoleEntry>, entry: ConsoleEntry) -> Seq<ConsoleEntry> {
    tail_of(console.push(entry), CONSOLE_CAPACITY as nat)
}

/// Appends a message and drops the oldest where the console is full.
pub fn append_entry(console: &mut Vec<ConsoleEntry>, entry: ConsoleEntry)
    ensures
        final(console)@ == logged(old(console)@, entry),
        final(console)@.len() <= CONSOLE_CAPACITY,
{
    let ghost all = console@;
    let ghost mut dropped: int = 0;
    assert(all.skip(0) =~= all);
    while console.len() >= CONSOLE_CAPACITY
        invariant
            0 <= dropped <= all.len(),
            console@ == all.skip(dropped),
            dropped > 0 ==> all.len() - dropped >= CONSOLE_CAPACITY - 1,
        decreases console.len(),
    {
        console.remove(0);
        proof {
            dropped = dropped + 1;
        }
        assert(console@ =~= all.skip(dropped));
    }
    console.push(entry);
    assert(console@ =~= logged(all, entry));
}

/// However many messages come, the console holds the latest of them in order
/// of their coming, and never more than it keeps.
pub proof fn law_console_keeps_latest(
    console: Seq<ConsoleEntry>,
    entry: ConsoleEntry,
    next: ConsoleEntry,
)
    requires
        console.len() <= CONSOLE_CAPACITY,
    ensures
        logged(console, entry).len() <= CONSOLE_CAPACITY,
        logged(console, entry).last() == entry,
        logged(logged(console, entry), next) == tail_of(
            console.push(entry).push(next),
            CONSOLE_CAPACITY as nat,
        ),
{
    let twice = logged(logged(console, entry), next);
    let whole = tail_of(console.push(entry).push(next), CONSOLE_CAPACITY as nat);
    assert(twice.len() == whole.len());
    assert(twice =~= whole);
}

/// A message that comes now.
pub fn entry_now(severity: ConsoleSeverity, context: String, message: String) -> (r: ConsoleEntry)
    ensures
        FIRST_SECOND <= r.second <= LAST_SECOND,
        r.severity == severity,
        r.context@ == context@,
        r.message@ == message@,
{
    ConsoleEntry { second: now_second(), severity, context, message }
}

/// Whether every message has a time that can be shown.
pub open spec fn times_shown(console: Seq<ConsoleEntry>) -> bool {
    forall|i: int|
        0 <= i < console.len() ==> FIRST_SECOND <= (#[trigger] console[i]).second <= LAST_SECOND
}

/// A row of the console.
pub struct ConsoleRow {
    pub time: String,
    pub icon: Icon,
    pub severity: ConsoleSeverity,
    pub context: String,
    pub message: String,
}

/// Whether a row shows a message.
pub open spec fn row_shows(row: ConsoleRow, entry: ConsoleEntry) -> bool {
    &&& row.time@ == clock_text(entry.second as int)
    &&& row.icon == match entry.severity {
        ConsoleSeverity::Info => Icon::Info,
        ConsoleSeverity::Warning => Icon::Warning,
        ConsoleSeverity::Error => Icon::XCircle,
    }
    &&& row.severity == entry.severity
    &&& row.context@ == entry.context@
    &&& row.message@ == entry.message@
}

/// The rows of the console, the newest last.
pub fn console_rows(console: &Vec<ConsoleEntry>) -> (r: Vec<ConsoleRow>)
    requires
        times_shown(console@),
    ensures
        r@.len() == console@.len(),
        forall|i: int| 0 <= i < console@.len() ==> row_shows(r@[i], #[trigger] console@[i]),
{
    let mut out: Vec<ConsoleRow> = Vec::new();
    let mut i: usize = 0;
    while i < console.len()
        invariant
            i <= console@.len(),
            times_shown(console@),
            out@.len() == i,
            forall|j: int| 0 <= j < i ==> row_shows(out@[j], #[trigger] console@[j]),
        decreases console.len() - i,
    {
        let entry = &console[i];
        let row = ConsoleRow {
            time: format_console_time(entry.second),
            icon: match entry.severity {
                ConsoleSeverity::Info => Icon::Info,
                ConsoleSeverity::Warning => Icon::Warning,
                ConsoleSeverity::Error => Icon::XCircle,
            },
            severity: entry.severity,
            context: entry.context.clone(),
            message: entry.message.clone(),
        };
        out.push(row);
        i = i + 1;
    }
    out
}

/// What a template run is called in the console.
pub fn run_context(data_name: &str, template_name: &str) -> (r: String)
    ensures
        r@ == data_name@ + " / "@ + template_name@,
{
    let mut out = join2(data_name, " / ");
    out.append(template_name);
    out
}

/// A message of a template with the offset that it is about.
pub open spec fn diagnostic_text(d: Diagnostic) -> Seq<char> {
    match d.file_offset {
        Some(at) => d.message@ + " @ 0x"@ + digits(at as nat, 16, false),
        None => d.message@,
    }
}

/// How grave a message of a template is in the console.
pub open spec fn diagnostic_severity(s: Severity) -> ConsoleSeverity {
    match s {
        Severity::Error => ConsoleSeverity::Error,
        Severity::Warning => ConsoleSeverity::Warning,
        Severity::Info => ConsoleSeverity::Info,
    }
}

/// A line to log.
pub struct LogLine {
    pub severity: ConsoleSeverity,
    pub message: String,
}

fn diagnostic_line(d: &Diagnostic) -> (r: LogLine)
    ensures
        r.severity == diagnostic_severity(d.severity),
        r.message@ == diagnostic_text(*d),
{
    let message = match d.file_offset {
        Some(at) => {
            let mut text = join2(d.message.as_str(), " @ 0x");
            push_hex_padded(&mut text, at, 0, false);
            text
        },
        None => d.message.clone(),
    };
    LogLine {
        severity: match d.severity {
            Severity::Error => ConsoleSeverity::Error,
            Severity::Warning => ConsoleSeverity::Warning,
            Severity::Info => ConsoleSeverity::Info,
        },
        message,
    }
}

/// How a template run ended.
pub enum RunOutcome {
    /// It ran, with these messages.
    Ran(Vec<Diagnostic>),
    ParseFailed(String),
    ExecuteFailed(String),
}

/// Whether lines tell of a template run: its messages, one line that tells that
/// all went well where there are none, or the error that stopped it.
pub open spec fn run_told(outcome: RunOutcome, lines: Seq<LogLine>) -> bool {
    match outcome {
        RunOutcome::Ran(ds) => if ds@.len() == 0 {
            lines.len() == 1 && lines[0].severity is Info && lines[0].message@
                == "template executed successfully"@
        } else {
            lines.len() == ds@.len() && forall|i: int|
                0 <= i < ds@.len() ==> lines[i].severity == diagnostic_severity(
                    (#[trigger] ds@[i]).severity,
                ) && lines[i].message@ == diagnostic_text(ds@[i])
        },
        RunOutcome::ParseFailed(e) => lines.len() == 1 && lines[0].severity is Error
            && lines[0].message@ == "Parse failed: "@ + e@,
        RunOutcome::ExecuteFailed(e) => lines.len() == 1 && lines[0].severity is Error
            && lines[0].message@ == "Execute failed: "@ + e@,
    }
}

/// Writes the lines that a template run logs.
pub fn run_lines(outcome: &RunOutcome) -> (r: Vec<LogLine>)
    ensures
        run_told(*outcome, r@),
{
    let mut out: Vec<LogLine> = Vec::new();
    match outcome {
        RunOutcome::Ran(ds) => {
            if ds.len() == 0 {
                out.push(
                    LogLine {
                        severity: ConsoleSeverity::Info,
                        message: "template executed successfully".to_owned(),
                    },
                );
                return out;
            }
            let mut i: usize = 0;
            while i < ds.len()
                invariant
                    i <= ds@.len(),
                    out@.len() == i,
                    forall|j: int|
                        0 <= j < i ==> out@[j].severity == diagnostic_severity(
                            (#[trigger] ds@[j]).severity,
                        ) && out@[j].message@ == diagnostic_text(ds@[j]),
                decreases ds.len() - i,
            {
                out.push(diagnostic_line(&ds[i]));
                i = i + 1;
            }
        },
        RunOutcome::ParseFailed(e) => {
            out.push(
                LogLine {
                    severity: ConsoleSeverity::Error,
                    message: join2("Parse failed: ", e.as_str()),
                },
            );
        },
        RunOutcome::ExecuteFailed(e) => {
            out.push(
                LogLine {
                    severity: ConsoleSeverity::Error,
                    message: join2("Execute failed: ", e.as_str()),
                },
            );
        },
    }
    out
}

/// The message for a template that no language takes.
pub open spec fn no_runtime_text(extension: Seq<char>, dir: Seq<char>) -> Seq<char> {
    "No template runtime is registered for ."@ + extension
        + " files.\nInstall a matching runtime component (.wasm) into:\n"@ + dir
}

/// Why a template run could not start.
pub enum RunRefusal {
    /// No language takes files with the extension; `dir` is where one can be
    /// installed, where that is known.
    NoRuntime { extension: String, dir: Option<String> },
    /// The template could not be read.
    Unreadable { path: String, reason: String },
}

/// The message that tells why a template run could not start.
pub open spec fn refusal_text(refusal: RunRefusal) -> Seq<char> {
    match refusal {
        RunRefusal::NoRuntime { extension, dir } => no_runtime_text(
            extension@,
            match dir {
                Some(d) => d@,
                None => "$DATA/hxy/template-plugins"@,
            },
        ),
        RunRefusal::Unreadable { path, reason } => "Failed to read template source "@ + path@
            + ": "@ + reason@,
    }
}

/// Writes the message that tells why a template run could not start.
pub fn refusal_message(refusal: &RunRefusal) -> (r: String)
    ensures
        r@ == refusal_text(*refusal),
{
    match refusal {
        RunRefusal::NoRuntime { extension, dir } => {
            let mut out = join2("No template runtime is registered for .", extension.as_str());
            out.append(" files.\nInstall a matching runtime component (.wasm) into:\n");
            match dir {
                Some(d) => out.append(d.as_str()),
                None => out.append("$DATA/hxy/template-plugins"),
            }
            out
        },
        RunRefusal::Unreadable { path, reason } => {
            let mut out = join2("Failed to read template source ", path.as_str());
            out.append(": ");
            out.append(reason.as_str());
            out
        },
    }
}

/// The message that tells that a template run started.
pub fn running_message(template_name: &str) -> (r: String)
    ensures
        r@ == "running template `"@ + template_name@ + "`..."@,
{
    let mut out = join2("running template `", template_name);
    out.append("`...");
    out
}

/// Whether text is a number with two digits.
pub open spec fn shows_two_digits(text: Seq<char>, at: int, n: int) -> bool {
    text[at] as u32 == 48 + n / 10 && text[at + 1] as u32 == 48 + n % 10
}

proof fn lemma_two_digits(n: nat)
    requires
        n < 100,
    ensures
        two_digits(n).len() == 2,
        shows_two_digits(two_digits(n), 0, n as int),
{
    reveal_with_fuel(digits, 3);
    if n >= 10 {
        assert(dec(n) =~= dec(n / 10).push((48 + n % 10) as char));
        assert(dec(n / 10) =~= seq![(48 + n / 10) as char]);
    } else {
        assert(dec(n) =~= seq![(48 + n) as char]);
    }
}

/// A time is shown as hours, minutes and seconds with two digits each and colons
/// between them: the hours since midnight, and what is left of the hour and the minute.
pub proof fn law_clock_shows_time_of_day(day: int, hour: int, minute: int, second: int)
    requires
        0 <= hour < 24,
        0 <= minute < 60,
        0 <= second < 60,
    ensures
        ({
            let text = clock_text(day * 86400 + hour * 3600 + minute * 60 + second);
            &&& text.len() == 8
            &&& text[2] == ':' && text[5] == ':'
            &&& shows_two_digits(text, 0, hour)
            &&& shows_two_digits(text, 3, minute)
            &&& shows_two_digits(text, 6, second)
        }),
{
    reveal_strlit(":");
    let t = day * 86400 + hour * 3600 + minute * 60 + second;
    assert(t % 86400 == hour * 3600 + minute * 60 + second);
    assert((t % 86400) / 3600 == hour);
    assert(t % 3600 == minute * 60 + second);
    assert((t % 3600) / 60 == minute);
    assert(t % 60 == second);
    lemma_two_digits(hour as nat);
    lemma_two_digits(minute as nat);
    lemma_two_digits(second as nat);
}

/// A message is appended behind all others. Nothing is dropped until there are as many
/// as the console keeps, 2048; then the oldest goes, and the others stay in order.
pub proof fn law_console_drops_only_oldest(console: Seq<ConsoleEntry>, entry: ConsoleEntry)
    requires
        console.len() <= 2048,
    ensures
        console.len() < 2048 ==> logged(console, entry) == console.push(entry),
        console.len() == 2048 ==> logged(console, entry) == console.drop_first().push(entry),
{
    if console.len() == 2048 {
        assert(logged(console, entry) =~= console.drop_first().push(entry));
    }
}

/// A row has its message's own text and context, an icon for how grave it is, and no
/// two grades share one.
pub proof fn law_row_tells_message(row: ConsoleRow, entry: ConsoleEntry)
    requires
        row_shows(row, entry),
    ensures
        row.message@ == entry.message@ && row.context@ == entry.context@ && row.severity
            == entry.severity,
        entry.severity is Info <==> row.icon is Info,
        entry.severity is Warning <==> row.icon is Warning,
        entry.severity is Error <==> row.icon is XCircle,
{
}

/// A run that went through logs one line for each of its messages, as grave as the
/// message is and with the offset that it is about, or one line that all went well where
/// there are none. A run that failed logs one error with the reason.
pub proof fn law_run_lines_tell_outcome(outcome: RunOutcome, lines: Seq<LogLine>, i: int)
    requires
        run_told(outcome, lines),
    ensures
        outcome matches RunOutcome::Ran(ds) ==> {
            &&& ds@.len() == 0 ==> lines.len() == 1 && lines[0].severity is Info
            &&& ds@.len() > 0 ==> lines.len() == ds@.len()
            &&& 0 <= i < ds@.len() ==> {
                &&& lines[i].severity is Error <==> ds@[i].severity is Error
                &&& lines[i].severity is Warning <==> ds@[i].severity is Warning
                &&& lines[i].severity is Info <==> ds@[i].severity is Info
                &&& ds@[i].file_offset is None ==> lines[i].message@ == ds@[i].message@
                &&& ds@[i].file_offset matches Some(at) ==> lines[i].message@ == ds@[i].message@
                    + " @ 0x"@ + digits(at as nat, 16, false)
            }
        },
        outcome matches RunOutcome::ParseFailed(e) ==> lines.len() == 1 && lines[0].severity is Error
            && lines[0].message@ == "Parse failed: "@ + e@,
        outcome matches RunOutcome::ExecuteFailed(e) ==> lines.len() == 1
            && lines[0].severity is Error && lines[0].message@ == "Execute failed: "@ + e@,
{
    match outcome {
        RunOutcome::Ran(ds) => {
            if 0 <= i < ds@.len() {
                assert(lines[i].message@ == diagnostic_text(ds@[i]));
            }
        },
        _ => {},
    }
}

} // verus!
