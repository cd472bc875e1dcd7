//! Log levels, the verbosity setting and the layout of one log line.
use vstd::prelude::*;
use vstd::string::StringExecFns;
use pad::Alignment;
use pad::PadStr;

verus! {

/// Severity of a log record, most severe first.
#[derive(Clone, Copy, Debug, PartialEq, Eq, Structural)]
pub enum Level {
    Error,
    Warn,
    Info,
    Debug,
    Trace,
}

/// The most verbose level that is still let through.
#[derive(Clone, Copy, Debug, PartialEq, Eq, Structural)]
pub enum LevelFilter {
    Off,
    Error,
    Warn,
    Info,
    Debug,
    Trace,
}

impl Level {
    /// Place in the order of severities: 1 for `Error`, 5 for `Trace`.
    pub open spec fn rank(self) -> nat {
        match self {
            Level::Error => 1,
            Level::Warn => 2,
            Level::Info => 3,
            Level::Debug => 4,
            Level::Trace => 5,
        }
    }

    /// The level's name in a field of five columns, filled up with spaces on the right.
    pub open spec fn field(self) -> Seq<char> {
        match self {
            Level::Error => "ERROR"@,
            Level::Warn => "WARN "@,
            Level::Info => "INFO "@,
            Level::Debug => "DEBUG"@,
            Level::Trace => "TRACE"@,
        }
    }

    pub fn label(self) -> (text: &'static str)
        ensures
            text@ == self.field(),
    {
        match self {
            Level::Error => "ERROR",
            Level::Warn => "WARN ",
            Level::Info => "INFO ",
            Level::Debug => "DEBUG",
            Level::Trace => "TRACE",
        }
    }

    pub fn severity(self) -> (r: u8)
        ensures
            r == self.rank(),
    {
        match self {
            Level::Error => 1,
            Level::Warn => 2,
            Level::Info => 3,
            Level::Debug => 4,
            Level::Trace => 5,
        }
    }
}

impl LevelFilter {
    /// Place in the order of verbosities: 0 for `Off`, 5 for `Trace`.
    pub open spec fn rank(self) -> nat {
        match self {
            LevelFilter::Off => 0,
            LevelFilter::Error => 1,
            LevelFilter::Warn => 2,
            LevelFilter::Info => 3,
            LevelFilter::Debug => 4,
            LevelFilter::Trace => 5,
        }
    }

    /// A record passes a filter when it is at least as severe as the filter's level.
    pub open spec fn allows(self, level: Level) -> bool {
        level.rank() <= self.rank()
    }

    pub fn permits(self, level: Level) -> (r: bool)
        ensures
            r == self.allows(level),
    {
        let bound: u8 = match self {
            LevelFilter::Off => 0,
            LevelFilter::Error => 1,
            LevelFilter::Warn => 2,
            LevelFilter::Info => 3,
            LevelFilter::Debug => 4,
            LevelFilter::Trace => 5,
        };
        level.severity() <= bound
    }
}

/// The filter that a verbosity count selects.
pub open spec fn filter_for(level: usize) -> LevelFilter {
    if level == 0 {
        LevelFilter::Info
    } else if level == 1 {
        LevelFilter::Debug
    } else {
        LevelFilter::Trace
    }
}

/// Turns a verbosity count into the filter to install: none gives `Info`,
/// one gives `Debug`, anything above gives `Trace`.
pub fn set_log_level(level: usize) -> (filter: LevelFilter)
    ensures
        filter == filter_for(level),
{
    match level {
        0 => LevelFilter::Info,
        1 => LevelFilter::Debug,
        _ => LevelFilter::Trace,
    }
}

/// The character of a decimal digit.
pub open spec fn digit(d: nat) -> char {
    if d == 0 {
        '0'
    } else if d == 1 {
        '1'
    } else if d == 2 {
        '2'
    } else if d == 3 {
        '3'
    } else if d == 4 {
        '4'
    } else if d == 5 {
        '5'
    } else if d == 6 {
        '6'
    } else if d == 7 {
        '7'
    } else if d == 8 {
        '8'
    } else {
        '9'
    }
}

/// The decimal digits of `n`, most significant first, without leading zeros.
pub open spec fn decimal(n: nat) -> Seq<char>
    decreases n,
{
    if n < 10 {
        Seq::empty().push(digit(n))
    } else {
        decimal(n / 10).push(digit(n % 10))
    }
}

/// Every character is a printing character of ASCII, the space included.
pub open spec fn printable(text: Seq<char>) -> bool {
    forall|i: int| 0 <= i < text.len() ==> 0x20 <= #[trigger] text[i] as int <= 0x7e
}

/// `text` brought to exactly `width` characters: filled up on the left with `fill`
/// where it is shorter, cut off on the right where it is longer.
pub open spec fn right_aligned(text: Seq<char>, width: nat, fill: char) -> Seq<char> {
    if text.len() >= width {
        text.subrange(0, width as int)
    } else {
        Seq::new((width - text.len()) as nat, |i: int| fill) + text
    }
}

/// The milliseconds within the running second of an instant given in nanoseconds.
pub open spec fn millis(nanos: u64) -> nat {
    ((nanos % 1_000_000_000) / 1_000_000) as nat
}

/// The text of one log line: the time stamp, a dot and the milliseconds in three
/// digits, the level in its field, the source tag in brackets and the message.
pub open spec fn line_text(stamp: Seq<char>, nanos: u64, level: Level, message: Seq<char>) -> Seq<
    char,
> {
    stamp + "."@ + right_aligned(decimal(millis(nanos)), 3, '0') + " "@ + level.field()
        + " [timemark] "@ + message
}

/// Decimal digits are printing characters.
pub proof fn lemma_decimal_printable(n: nat)
    ensures
        printable(decimal(n)),
        decimal(n).len() >= 1,
    decreases n,
{
    if n >= 10 {
        lemma_decimal_printable(n / 10);
    }
}

/// `String::push` of the standard library appends the character to the string.
pub assume_specification[ String::push ](text: &mut String, ch: char)
    ensures
        final(text)@ == old(text)@.push(ch),
;

/// `pad::PadStr::pad` on a `str`, with `Alignment::Right` and truncation on. For a
/// text of printing ASCII characters, each of which is one column wide and one
/// byte long, the crate returns the first `width` characters where the text has at
/// least that many, and else the text behind as many `fill` as it is short of
/// `width`.
#[verifier::external_body]
fn pad_right_aligned(text: &str, width: usize, fill: char) -> (padded: String)
    requires
        printable(text@),
    ensures
        padded@ == right_aligned(text@, width as nat, fill),
{
    text.pad(width, fill, Alignment::Right, true)
}

fn digit_char(d: u64) -> (c: char)
    requires
        d < 10,
    ensures
        c == digit(d as nat),
{
    match d {
        0 => '0',
        1 => '1',
        2 => '2',
        3 => '3',
        4 => '4',
        5 => '5',
        6 => '6',
        7 => '7',
        8 => '8',
        _ => '9',
    }
}

/// The decimal digits of `n`.
pub fn render_decimal(n: u64) -> (text: String)
    ensures
        text@ == decimal(n as nat),
    decreases n,
{
    let mut text = if n < 10 {
        String::new()
    } else {
        render_decimal(n / 10)
    };
    text.push(digit_char(n % 10));
    text
}

/// The logger: it lets every level through and lays out the lines.
#[derive(Clone, Copy, Debug)]
pub struct SimpleLogger;

impl SimpleLogger {
    /// A record of `level` is to be logged: every level up to `Trace` is.
    pub fn enabled(&self, level: Level) -> (on: bool)
        ensures
            on == LevelFilter::Trace.allows(level),
    {
        LevelFilter::Trace.permits(level)
    }

    /// The line for a record, where its level is enabled: `stamp` is the date and time
    /// of day as text, `nanos` an instant of the precise clock, of which the
    /// milliseconds within the second are shown.
    pub fn log(&self, stamp: &str, nanos: u64, level: Level, message: &str) -> (line: Option<String>)
        ensures
            line.is_some() == LevelFilter::Trace.allows(level),
            match line {
                Some(text) => text@ == line_text(stamp@, nanos, level, message@),
                None => true,
            },
    {
        if !self.enabled(level) {
            return None;
        }
        let digits = render_decimal((nanos % 1_000_000_000) / 1_000_000);
        proof {
            lemma_decimal_printable(millis(nanos));
        }
        let padded = pad_right_aligned(digits.as_str(), 3, '0');
        let mut text = String::from_str(stamp);
        text.append(".");
        text.append(padded.as_str());
        text.append(" ");
        text.append(level.label());
        text.append(" [timemark] ");
        text.append(message);
        Some(text)
    }
}

} // verus!
