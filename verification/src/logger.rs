//! The layout of a log line.

use vstd::prelude::*;

use crate::clock::secs_since_epoch;
use crate::text;

verus! {

/// How serious an event is.
#[derive(Debug, Clone, Copy, PartialEq, Eq, Structural)]
pub enum LogLevel {
    Info,
    Warn,
    Error,
    Debug,
}

impl LogLevel {
    /// The name of the level in a log line.
    pub open spec fn label(&self) -> Seq<char> {
        match self {
            LogLevel::Info => "INFO"@,
            LogLevel::Warn => "WARN"@,
            LogLevel::Error => "ERROR"@,
            LogLevel::Debug => "DEBUG"@,
        }
    }

    /// The name of the level in a log line.
    pub fn as_str(&self) -> (r: &'static str)
        ensures
            r@ == self.label(),
    {
        match self {
            LogLevel::Info => "INFO",
            LogLevel::Warn => "WARN",
            LogLevel::Error => "ERROR",
            LogLevel::Debug => "DEBUG",
        }
    }
}

/// The time of day, in UTC, at `secs` seconds after the epoch.
pub open spec fn time_of_day(secs: int) -> Seq<char> {
    text::two_digits((secs / 3600) % 24) + ":"@ + text::two_digits((secs / 60) % 60) + ":"@
        + text::two_digits(secs % 60)
}

/// The time of day, in UTC, at `secs` seconds after the epoch.
pub fn timestamp_at(secs: u64) -> (r: String)
    ensures
        r@ == time_of_day(secs as int),
{
    let mut out: String = String::new();
    text::push_two_digits(&mut out, (secs / 3600) % 24);
    out.append(":");
    text::push_two_digits(&mut out, (secs / 60) % 60);
    out.append(":");
    text::push_two_digits(&mut out, secs % 60);
    assert(out@ =~= time_of_day(secs as int));
    out
}

/// The time of day, in UTC, by the system clock.
pub fn get_timestamp() -> (r: String)
    ensures
        exists|secs: u64| r@ == #[trigger] time_of_day(secs as int),
{
    let secs: u64 = secs_since_epoch();
    timestamp_at(secs)
}

/// What `str::to_uppercase` makes of `s`.
pub uninterp spec fn uppercase(s: Seq<char>) -> Seq<char>;

/// `str::to_uppercase`: the Unicode upper-case equivalent of `s`, which the name
/// `uppercase` stands for.
#[verifier::external_body]
fn to_uppercase(s: &str) -> (r: String)
    ensures
        r@ == uppercase(s@),
{
    s.to_uppercase()
}

/// A log line: the time, the level, the upper-case context, and the message.
pub open spec fn log_line(
    timestamp: Seq<char>,
    level: LogLevel,
    context: Seq<char>,
    message: Seq<char>,
) -> Seq<char> {
    "["@ + timestamp + "] ["@ + level.label() + "] ["@ + context + "] "@ + message
}

/// Lays out a log line from parts that are ready to print.
pub fn lay_out(timestamp: &str, level: LogLevel, context: &str, message: &str) -> (r: String)
    ensures
        r@ == log_line(timestamp@, level, context@, message@),
{
    let mut out: String = "[".to_owned();
    out.append(timestamp);
    out.append("] [");
    out.append(level.as_str());
    out.append("] [");
    out.append(context);
    out.append("] ");
    out.append(message);
    out
}

/// The log line of an event at `secs` seconds after the epoch.
pub fn format_event(secs: u64, level: LogLevel, context: &str, message: &str) -> (r: String)
    ensures
        r@ == log_line(time_of_day(secs as int), level, uppercase(context@), message@),
{
    lay_out(timestamp_at(secs).as_str(), level, to_uppercase(context).as_str(), message)
}

/// The log line of an event that happens now, by the system clock.
pub fn event_line(level: LogLevel, context: &str, message: &str) -> (r: String)
    ensures
        exists|secs: u64|
            r@ == log_line(
                #[trigger] time_of_day(secs as int),
                level,
                uppercase(context@),
                message@,
            ),
{
    let secs: u64 = secs_since_epoch();
    format_event(secs, level, context, message)
}

/// The hour, the minute and the second are those of the second of the day.
proof fn lemma_parts_of_day(n: int)
    requires
        0 <= n,
    ensures
        (n / 3600) % 24 == (n % 86400) / 3600,
        (n / 60) % 60 == ((n % 86400) / 60) % 60,
        n % 60 == (n % 86400) % 60,
        n % 86400 == ((n / 3600) % 24) * 3600 + ((n / 60) % 60) * 60 + n % 60,
{
    let d = n / 86400;
    let r = n % 86400;
    assert(n == 86400 * d + r);
    assert(n / 3600 == 24 * d + r / 3600);
    assert(n / 60 == 1440 * d + r / 60);
    assert(n % 60 == r % 60);
    assert((24 * d + r / 3600) % 24 == r / 3600);
    assert((1440 * d + r / 60) % 60 == (r / 60) % 60);
    assert(r == (r / 3600) * 3600 + ((r / 60) % 60) * 60 + r % 60);
}

/// A timestamp tells the second of the day, and nothing else: two moments have the same
/// timestamp exactly when they are whole days apart.
pub proof fn law_timestamp_is_second_of_day(a: nat, b: nat)
    ensures
        time_of_day(a as int) == time_of_day(b as int) <==> a % 86400 == b % 86400,
{
    lemma_parts_of_day(a as int);
    lemma_parts_of_day(b as int);
    let ta = time_of_day(a as int);
    let tb = time_of_day(b as int);
    if ta == tb {
        lemma_same_parts(a as int, b as int);
    }
}

/// Equal timestamps have equal hours, minutes and seconds.
proof fn lemma_same_parts(a: int, b: int)
    requires
        0 <= a,
        0 <= b,
        time_of_day(a) == time_of_day(b),
    ensures
        (a / 3600) % 24 == (b / 3600) % 24,
        (a / 60) % 60 == (b / 60) % 60,
        a % 60 == b % 60,
{
    reveal_strlit(":");
    let ta = time_of_day(a);
    let tb = time_of_day(b);
    let (ah, am, az) = ((a / 3600) % 24, (a / 60) % 60, a % 60);
    let (bh, bm, bz) = ((b / 3600) % 24, (b / 60) % 60, b % 60);
    assert(ta[0] == text::two_digits(ah)[0] && ta[1] == text::two_digits(ah)[1]);
    assert(ta[3] == text::two_digits(am)[0] && ta[4] == text::two_digits(am)[1]);
    assert(ta[6] == text::two_digits(az)[0] && ta[7] == text::two_digits(az)[1]);
    assert(tb[0] == text::two_digits(bh)[0] && tb[1] == text::two_digits(bh)[1]);
    assert(tb[3] == text::two_digits(bm)[0] && tb[4] == text::two_digits(bm)[1]);
    assert(tb[6] == text::two_digits(bz)[0] && tb[7] == text::two_digits(bz)[1]);
    text::lemma_two_digits_injective(ah, bh);
    text::lemma_two_digits_injective(am, bm);
    text::lemma_two_digits_injective(az, bz);
}

/// A timestamp writes the hour, the minute and the second of the day in UTC, in two digits
/// each, with colons between.
pub proof fn law_timestamp_writes_the_time(secs: nat)
    ensures
        ({
            let t = time_of_day(secs as int);
            let h = text::number_of(seq![t[0], t[1]]);
            let m = text::number_of(seq![t[3], t[4]]);
            let s = text::number_of(seq![t[6], t[7]]);
            &&& t.len() == 8
            &&& t[2] == ':'
            &&& t[5] == ':'
            &&& 0 <= h < 24
            &&& 0 <= m < 60
            &&& 0 <= s < 60
            &&& 3600 * h + 60 * m + s == secs % 86400
        }),
{
    reveal_strlit(":");
    let n = secs as int;
    let (h, m, s) = ((n / 3600) % 24, (n / 60) % 60, n % 60);
    lemma_parts_of_day(n);
    let t = time_of_day(n);
    assert(t[0] == text::two_digits(h)[0] && t[1] == text::two_digits(h)[1]);
    assert(t[3] == text::two_digits(m)[0] && t[4] == text::two_digits(m)[1]);
    assert(t[6] == text::two_digits(s)[0] && t[7] == text::two_digits(s)[1]);
    lemma_two_digits_number(h);
    lemma_two_digits_number(m);
    lemma_two_digits_number(s);
    assert(seq![t[0], t[1]] =~= text::two_digits(h));
    assert(seq![t[3], t[4]] =~= text::two_digits(m));
    assert(seq![t[6], t[7]] =~= text::two_digits(s));
}

/// Two digits write their number.
proof fn lemma_two_digits_number(n: int)
    requires
        0 <= n < 100,
    ensures
        text::number_of(text::two_digits(n)) == n,
{
    text::law_two_digits_write_the_number(n);
    reveal_with_fuel(text::number_of, 3);
    let d = text::two_digits(n);
    assert(d.drop_last() =~= seq![d[0]]);
    assert(d.drop_last().drop_last() =~= Seq::empty());
}

/// A log line tells the time, the level and the context, each in brackets, and ends with the
/// message, all of it.
pub proof fn law_log_line_tells_all(
    timestamp: Seq<char>,
    level: LogLevel,
    context: Seq<char>,
    message: Seq<char>,
)
    ensures
        ({
            let name = match level {
                LogLevel::Info => "INFO"@,
                LogLevel::Warn => "WARN"@,
                LogLevel::Error => "ERROR"@,
                LogLevel::Debug => "DEBUG"@,
            };
            log_line(timestamp, level, context, message) == seq!['['] + timestamp + seq![
                ']',
                ' ',
                '[',
            ] + name + seq![']', ' ', '['] + context + seq![']', ' '] + message
        }),
{
    reveal_strlit("[");
    reveal_strlit("] [");
    reveal_strlit("] ");
    assert("["@ =~= seq!['[']);
    assert("] ["@ =~= seq![']', ' ', '[']);
    assert("] "@ =~= seq![']', ' ']);
}

} // verus!
