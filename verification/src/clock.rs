use vstd::prelude::*;
use vstd::string::StringExecFns;
use chrono::Datelike;
use chrono::Timelike;
use crate::text::{spec_dec, spec_pad2, spec_pad4, u64_to_string, pad2, pad4};

verus! {

/// A wall-clock instant broken into calendar fields, the data the formatter
/// reads. Only the fields are modelled; time zones and sub-second precision
/// stay with the clock that produced the value.
#[derive(Clone, Copy, PartialEq, Eq, Structural, Debug)]
pub struct Timestamp {
    pub year: i32,
    pub month: u32,
    pub day: u32,
    pub hour: u32,
    pub minute: u32,
    pub second: u32,
}

impl Timestamp {
    /// The field ranges every calendar instant satisfies.
    pub open spec fn wf(self) -> bool {
        &&& 1 <= self.month <= 12
        &&& 1 <= self.day <= 31
        &&& self.hour < 24
        &&& self.minute < 60
        &&& self.second < 60
    }

    /// Build a timestamp from explicit calendar fields.
    pub fn new(year: i32, month: u32, day: u32, hour: u32, minute: u32, second: u32) -> (t:
        Timestamp)
        ensures
            t == (Timestamp { year, month, day, hour, minute, second }),
    {
        Timestamp { year, month, day, hour, minute, second }
    }
}

/// Relies on chrono: `Local::now` reads the current local time, and the
/// `Datelike`/`Timelike` accessors expose its fields with the ranges their
/// documentation states (`month` 1..=12, `day` 1..=31, `hour` 0..=23,
/// `minute` 0..=59, `second` 0..=59). Nothing is claimed about the year.
#[verifier::external_body]
fn local_now_parts() -> (r: (i32, u32, u32, u32, u32, u32))
    ensures
        1 <= r.1 <= 12,
        1 <= r.2 <= 31,
        r.3 < 24,
        r.4 < 60,
        r.5 < 60,
{
    let t = chrono::Local::now();
    (t.year(), t.month(), t.day(), t.hour(), t.minute(), t.second())
}

impl Timestamp {
    /// The current local time. Two calls may of course differ; all that is
    /// promised is a well-formed timestamp.
    pub fn now() -> (t: Timestamp)
        ensures
            t.wf(),
    {
        let (year, month, day, hour, minute, second) = local_now_parts();
        Timestamp { year, month, day, hour, minute, second }
    }
}

/// The year field of a formatted timestamp: at least four digits, with a
/// leading minus sign for years before year zero.
pub open spec fn spec_year_field(y: int) -> Seq<char> {
    if y < 0 {
        seq!['-'] + spec_pad4((-y) as nat)
    } else {
        spec_pad4(y as nat)
    }
}

/// A timestamp formatted as `YYYY-MM-DD HH:MM:SS`.
pub open spec fn spec_timestamp(ts: Timestamp) -> Seq<char> {
    spec_year_field(ts.year as int) + seq!['-'] + spec_pad2(ts.month as nat) + seq!['-']
        + spec_pad2(ts.day as nat) + seq![' '] + spec_pad2(ts.hour as nat) + seq![':'] + spec_pad2(
        ts.minute as nat,
    ) + seq![':'] + spec_pad2(ts.second as nat)
}

/// Executable counterpart of `spec_year_field`.
fn year_field(y: i32) -> (r: String)
    ensures
        r@ == spec_year_field(y as int),
{
    if y < 0 {
        let magnitude: u64 = (-(y as i64)) as u64;
        proof {
            reveal_strlit("-");
        }
        let mut s = String::from_str("-");
        let d = pad4(magnitude);
        s.append(d.as_str());
        proof {
            assert(s@ =~= spec_year_field(y as int));
        }
        s
    } else {
        pad4(y as u64)
    }
}

/// Executable counterpart of `spec_timestamp`.
pub fn format_timestamp(ts: &Timestamp) -> (r: String)
    ensures
        r@ == spec_timestamp(*ts),
{
    proof {
        reveal_strlit("-");
        reveal_strlit(" ");
        reveal_strlit(":");
    }
    let mut s = year_field(ts.year);
    s.append("-");
    let f = pad2(ts.month as u64);
    s.append(f.as_str());
    s.append("-");
    let f = pad2(ts.day as u64);
    s.append(f.as_str());
    s.append(" ");
    let f = pad2(ts.hour as u64);
    s.append(f.as_str());
    s.append(":");
    let f = pad2(ts.minute as u64);
    s.append(f.as_str());
    s.append(":");
    let f = pad2(ts.second as u64);
    s.append(f.as_str());
    proof {
        assert(s@ =~= spec_timestamp(*ts));
    }
    s
}

/// A formatted log record: timestamp, textual level, logger name and message,
/// separated by `" | "` and ended by a newline. The level appears exactly as
/// the caller gave it, and the message is embedded verbatim.
pub open spec fn spec_line(ts: Timestamp, level: Seq<char>, name: Seq<char>, msg: Seq<char>) -> Seq<
    char,
> {
    spec_timestamp(ts) + seq![' ', '|', ' '] + level + seq![' ', '|', ' '] + name + seq![
        ' ',
        '|',
        ' ',
    ] + msg + seq!['\n']
}

/// A formatted record carries its parts verbatim: it is exactly the
/// timestamp, level, name and message joined by the three-character
/// separator, it ends in a newline, the level stands unchanged right after
/// the timestamp — an unrecognized name such as "TRACE" is printed as given
/// — and the final field is the message, characters untouched.
pub proof fn lemma_line_fields(ts: Timestamp, level: Seq<char>, name: Seq<char>, msg: Seq<char>)
    ensures
        spec_line(ts, level, name, msg).len() == spec_timestamp(ts).len() + level.len()
            + name.len() + msg.len() + 10,
        spec_line(ts, level, name, msg).last() == '\n',
        spec_line(ts, level, name, msg).subrange(
            spec_line(ts, level, name, msg).len() - 1 - msg.len(),
            spec_line(ts, level, name, msg).len() - 1,
        ) == msg,
        spec_line(ts, level, name, msg).subrange(
            spec_timestamp(ts).len() as int + 3,
            spec_timestamp(ts).len() + 3 + level.len() as int,
        ) == level,
{
    let l = spec_line(ts, level, name, msg);
    let n = l.len() as int;
    assert(l.subrange(n - 1 - msg.len(), n - 1) =~= msg);
    assert(l.subrange(
        spec_timestamp(ts).len() as int + 3,
        spec_timestamp(ts).len() + 3 + level.len() as int,
    ) =~= level);
}

/// Executable counterpart of `spec_line`.
pub fn format_line(ts: &Timestamp, level: &str, name: &str, msg: &str) -> (r: String)
    ensures
        r@ == spec_line(*ts, level@, name@, msg@),
{
    proof {
        reveal_strlit(" | ");
        reveal_strlit("\n");
    }
    let mut s = format_timestamp(ts);
    s.append(" | ");
    s.append(level);
    s.append(" | ");
    s.append(name);
    s.append(" | ");
    s.append(msg);
    s.append("\n");
    proof {
        assert(s@ =~= spec_line(*ts, level@, name@, msg@));
    }
    s
}

} // verus!
