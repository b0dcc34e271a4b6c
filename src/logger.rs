//! Log lines and the bounded store that collects them until the host writes
//! them out.
use vstd::prelude::*;

use crate::chars::{chars_of, string_of, strings_view};

verus! {

/// How many lines the store collects before they are written out.
pub const MAX_LOGS: usize = 128;

/// The level of a log line.
#[derive(Debug, Clone, Copy, PartialEq, Eq, Structural)]
pub enum LogLevel {
    Info,
    Warn,
    Error,
    Debug,
    Global,
}

/// The name of a level as a log line shows it.
pub open spec fn level_name(l: LogLevel) -> Seq<char> {
    match l {
        LogLevel::Info => seq!['I', 'n', 'f', 'o'],
        LogLevel::Warn => seq!['W', 'a', 'r', 'n'],
        LogLevel::Error => seq!['E', 'r', 'r', 'o', 'r'],
        LogLevel::Debug => seq!['D', 'e', 'b', 'u', 'g'],
        LogLevel::Global => seq!['G', 'l', 'o', 'b', 'a', 'l'],
    }
}

/// How much the application logs, from its `quiet` and `verbose` switches:
/// errors only when quiet, everything down to debug when verbose, else info.
pub open spec fn log_threshold_spec(quiet: bool, verbose: bool) -> LogLevel {
    if quiet {
        LogLevel::Error
    } else if verbose {
        LogLevel::Debug
    } else {
        LogLevel::Info
    }
}

/// The least severe level that is logged, as [`log_threshold_spec`] says.
pub fn log_threshold(quiet: bool, verbose: bool) -> (r: LogLevel)
    ensures
        r == log_threshold_spec(quiet, verbose),
{
    if quiet {
        LogLevel::Error
    } else if verbose {
        LogLevel::Debug
    } else {
        LogLevel::Info
    }
}

/// A local date and time of day, as the host reads it from its clock.
#[derive(Debug, Clone, Copy, PartialEq, Eq, Structural)]
pub struct LocalTime {
    pub year: i32,
    /// From 1 to 12.
    pub month: u32,
    /// From 1 to 31.
    pub day: u32,
    /// From 0 to 23.
    pub hour: u32,
    /// From 0 to 59.
    pub minute: u32,
    /// From 0 to 59.
    pub second: u32,
}

/// The decimal digit `d`.
pub open spec fn digit(d: nat) -> char {
    ((d + 48) as u8) as char
}

/// `n` in decimal, without leading zeros.
pub open spec fn decimal(n: nat) -> Seq<char>
    decreases n,
{
    if n < 10 {
        seq![digit(n)]
    } else {
        decimal(n / 10).push(digit(n % 10))
    }
}

/// `s` with zeros in front up to `width` characters.
pub open spec fn zero_pad(s: Seq<char>, width: nat) -> Seq<char> {
    if s.len() >= width {
        s
    } else {
        Seq::new((width - s.len()) as nat, |i: int| '0') + s
    }
}

/// A year as four digits at least, with a sign outside 0 to 9999.
pub open spec fn year_text(y: int) -> Seq<char> {
    if 0 <= y <= 9999 {
        zero_pad(decimal(y as nat), 4)
    } else if y < 0 {
        seq!['-'] + zero_pad(decimal((-y) as nat), 4)
    } else {
        seq!['+'] + zero_pad(decimal(y as nat), 4)
    }
}

/// A field of the time as two digits at least.
pub open spec fn two_digits(n: nat) -> Seq<char> {
    zero_pad(decimal(n), 2)
}

/// A time as `YYYY-MM-DD_HH:MM:SS`.
pub open spec fn stamp(t: LocalTime) -> Seq<char> {
    year_text(t.year as int) + seq!['-'] + two_digits(t.month as nat) + seq!['-'] + two_digits(
        t.day as nat,
    ) + seq!['_'] + two_digits(t.hour as nat) + seq![':'] + two_digits(t.minute as nat) + seq![
        ':',
    ] + two_digits(t.second as nat)
}

/// A log line: `[Level] stamp name message`.
pub open spec fn log_line_spec(
    level: LogLevel,
    t: LocalTime,
    name: Seq<char>,
    message: Seq<char>,
) -> Seq<char> {
    seq!['['] + level_name(level) + seq![']', ' '] + stamp(t) + seq![' '] + name + seq![' ']
        + message
}

/// Appends `n` in decimal.
fn push_decimal(out: &mut Vec<char>, n: u64)
    ensures
        final(out)@ == old(out)@ + decimal(n as nat),
    decreases n,
{
    if n >= 10 {
        push_decimal(out, n / 10);
    }
    let d = (n % 10) as u8;
    out.push((d + 48) as char);
    proof {
        if n < 10 {
            assert(decimal(n as nat) == seq![digit(n as nat)]);
        }
    }
    assert(final(out)@ =~= old(out)@ + decimal(n as nat)) by {
        if n >= 10 {
            assert(decimal(n as nat) == decimal((n / 10) as nat).push(digit((n % 10) as nat)));
        }
    }
}

/// Appends `n` in decimal, with zeros in front up to `width` characters.
fn push_padded(out: &mut Vec<char>, n: u64, width: usize)
    ensures
        final(out)@ == old(out)@ + zero_pad(decimal(n as nat), width as nat),
{
    let mut digits: Vec<char> = Vec::new();
    push_decimal(&mut digits, n);
    assert(digits@ =~= decimal(n as nat));
    let ghost start = out@;
    if digits.len() < width {
        let pad = width - digits.len();
        let mut k: usize = 0;
        while k < pad
            invariant
                k <= pad,
                out@ == start + Seq::new(k as nat, |i: int| '0'),
            decreases pad - k,
        {
            out.push('0');
            assert(Seq::new((k + 1) as nat, |i: int| '0') =~= Seq::new(k as nat, |i: int| '0').push(
                '0',
            ));
            k = k + 1;
        }
    }
    let ghost mid = out@;
    let mut j: usize = 0;
    while j < digits.len()
        invariant
            j <= digits@.len(),
            out@ == mid + digits@.subrange(0, j as int),
        decreases digits@.len() - j,
    {
        out.push(digits[j]);
        assert(digits@.subrange(0, j + 1) == digits@.subrange(0, j as int).push(digits@[j as int]));
        j = j + 1;
    }
    assert(digits@.subrange(0, j as int) == digits@);
    assert(out@ =~= start + zero_pad(decimal(n as nat), width as nat));
}

/// Appends the characters of `s`.
fn push_str(out: &mut Vec<char>, s: &str)
    ensures
        final(out)@ == old(out)@ + s@,
{
    let v = chars_of(s);
    let ghost start = out@;
    let mut j: usize = 0;
    while j < v.len()
        invariant
            j <= v@.len(),
            out@ == start + v@.subrange(0, j as int),
        decreases v@.len() - j,
    {
        out.push(v[j]);
        assert(v@.subrange(0, j + 1) == v@.subrange(0, j as int).push(v@[j as int]));
        j = j + 1;
    }
    assert(v@.subrange(0, j as int) == v@);
}

/// Appends the name of `level`.
fn push_level(out: &mut Vec<char>, level: LogLevel)
    ensures
        final(out)@ == old(out)@ + level_name(level),
{
    let ghost start = out@;
    match level {
        LogLevel::Info => {
            out.push('I');
            out.push('n');
            out.push('f');
            out.push('o');
        },
        LogLevel::Warn => {
            out.push('W');
            out.push('a');
            out.push('r');
            out.push('n');
        },
        LogLevel::Error => {
            out.push('E');
            out.push('r');
            out.push('r');
            out.push('o');
            out.push('r');
        },
        LogLevel::Debug => {
            out.push('D');
            out.push('e');
            out.push('b');
            out.push('u');
            out.push('g');
        },
        LogLevel::Global => {
            out.push('G');
            out.push('l');
            out.push('o');
            out.push('b');
            out.push('a');
            out.push('l');
        },
    }
    assert(out@ =~= start + level_name(level));
}

/// Appends `sep` and then `n` as two digits at least.
fn push_field(out: &mut Vec<char>, sep: char, n: u32)
    ensures
        final(out)@ == old(out)@ + seq![sep] + two_digits(n as nat),
{
    let ghost s0 = out@;
    out.push(sep);
    push_padded(out, n as u64, 2);
    assert(out@ =~= s0 + seq![sep] + two_digits(n as nat));
}

/// Appends `y` as [`year_text`] writes it.
fn push_year(out: &mut Vec<char>, y: i32)
    ensures
        final(out)@ == old(out)@ + year_text(y as int),
{
    let ghost s0 = out@;
    if 0 <= y && y <= 9999 {
        push_padded(out, y as u64, 4);
    } else if y < 0 {
        out.push('-');
        push_padded(out, (0 - (y as i64)) as u64, 4);
    } else {
        out.push('+');
        push_padded(out, y as u64, 4);
    }
    assert(out@ =~= s0 + year_text(y as int));
}

/// Appends `t` as [`stamp`] writes it.
fn push_stamp(out: &mut Vec<char>, t: &LocalTime)
    ensures
        final(out)@ == old(out)@ + stamp(*t),
{
    let ghost s0 = out@;
    push_year(out, t.year);
    push_field(out, '-', t.month);
    push_field(out, '-', t.day);
    push_field(out, '_', t.hour);
    push_field(out, ':', t.minute);
    push_field(out, ':', t.second);
    assert(out@ =~= s0 + stamp(*t));
}

/// The log line for `message` from logger `name` at `level` and time `t`, as
/// [`log_line_spec`] says.
pub fn log_line(level: LogLevel, t: &LocalTime, name: &str, message: &str) -> (r: String)
    ensures
        r@ == log_line_spec(level, *t, name@, message@),
{
    let mut out: Vec<char> = Vec::new();
    out.push('[');
    push_level(&mut out, level);
    out.push(']');
    out.push(' ');
    let ghost p1 = seq!['['] + level_name(level) + seq![']', ' '];
    assert(out@ =~= p1);
    push_stamp(&mut out, t);
    let ghost p2 = p1 + stamp(*t);
    out.push(' ');
    push_str(&mut out, name);
    let ghost p3 = p2 + seq![' '] + name@;
    assert(out@ =~= p3);
    out.push(' ');
    push_str(&mut out, message);
    let ghost p4 = p3 + seq![' '] + message@;
    assert(out@ =~= p4);
    string_of(&out)
}

/// A named source of log lines.
#[derive(Debug, Clone)]
pub struct Logger {
    name: String,
}

impl Logger {
    /// The logger's name, as characters.
    pub closed spec fn name_view(&self) -> Seq<char> {
        self.name@
    }

    /// A logger called `name`. Loggers may share a name, though that makes
    /// their lines hard to tell apart.
    pub fn create(name: String) -> (r: Logger)
        ensures
            r.name_view() == name@,
    {
        Logger { name }
    }

    /// The logger's name.
    pub fn name(&self) -> (r: &String)
        ensures
            r@ == self.name_view(),
    {
        &self.name
    }

    /// Renames the logger.
    pub fn set_name(&mut self, name: String)
        ensures
            final(self).name_view() == name@,
    {
        self.name = name;
    }

    /// The line for `message` at `level`, stamped with the time `t`.
    pub fn line(&self, level: LogLevel, t: &LocalTime, message: &str) -> (r: String)
        ensures
            r@ == log_line_spec(level, *t, self.name_view(), message@),
    {
        log_line(level, t, self.name.as_str(), message)
    }
}

/// Log lines waiting to be written out; never more than [`MAX_LOGS`] minus one.
#[derive(Debug, Clone)]
pub struct LogStore {
    lines: Vec<String>,
}

impl LogStore {
    /// The waiting lines, oldest first.
    pub closed spec fn pending(&self) -> Seq<Seq<char>> {
        strings_view(self.lines@)
    }

    /// No more lines wait than the store holds.
    pub closed spec fn wf(&self) -> bool {
        self.lines@.len() < MAX_LOGS
    }

    /// An empty store.
    pub fn new() -> (r: LogStore)
        ensures
            r.wf(),
            r.pending().len() == 0,
    {
        LogStore { lines: Vec::new() }
    }

    /// The number of waiting lines.
    pub fn len(&self) -> (r: usize)
        ensures
            r == self.pending().len(),
    {
        self.lines.len()
    }

    /// Adds `line`. When the store is then full, it empties and hands back all
    /// its lines, oldest first, for the host to write out.
    pub fn push(&mut self, line: String) -> (r: Option<Vec<String>>)
        requires
            old(self).wf(),
        ensures
            final(self).wf(),
            old(self).pending().len() + 1 >= MAX_LOGS ==> r is Some && strings_view(r->0@)
                == old(self).pending().push(line@) && final(self).pending().len() == 0,
            old(self).pending().len() + 1 < MAX_LOGS ==> r is None && final(self).pending()
                == old(self).pending().push(line@),
    {
        let ghost l = line@;
        self.lines.push(line);
        assert(strings_view(self.lines@) =~= strings_view(old(self).lines@).push(l));
        if self.lines.len() >= MAX_LOGS {
            let mut batch: Vec<String> = Vec::new();
            std::mem::swap(&mut batch, &mut self.lines);
            assert(strings_view(self.lines@) =~= Seq::<Seq<char>>::empty());
            Some(batch)
        } else {
            None
        }
    }
}

} // verus!
