//! Upstream timestamps: repair of the compact offset suffix, parsing into a point
//! in time, and the order on points in time.
use vstd::prelude::*;
use vstd::string::StrSliceExecFns;
use vstd::string::StringExecFns;

verus! {

/// A point in time: whole seconds since the Unix epoch (UTC) and the nanoseconds
/// past that second. A leap second shows as `nanos` of one billion or more.
#[derive(Clone, Copy, Debug, PartialEq, Eq, Structural)]
pub struct PointInTime {
    pub secs: i64,
    pub nanos: u32,
}

/// `a` lies strictly after `b`.
pub open spec fn later(a: PointInTime, b: PointInTime) -> bool {
    a.secs > b.secs || (a.secs == b.secs && a.nanos > b.nanos)
}

impl PointInTime {
    /// Whether `self` lies strictly after `other`.
    pub fn is_after(&self, other: &PointInTime) -> (r: bool)
        ensures
            r == later(*self, *other),
    {
        self.secs > other.secs || (self.secs == other.secs && self.nanos > other.nanos)
    }
}

pub open spec fn is_digit(c: char) -> bool {
    '0' <= c && c <= '9'
}

pub open spec fn is_sign(c: char) -> bool {
    c == '+' || c == '-'
}

/// `s` ends in an offset of a sign and four digits with no colon (`+0200`).
pub open spec fn has_compact_offset(s: Seq<char>) -> bool {
    &&& s.len() >= 5
    &&& is_sign(s[s.len() - 5])
    &&& is_digit(s[s.len() - 4])
    &&& is_digit(s[s.len() - 3])
    &&& is_digit(s[s.len() - 2])
    &&& is_digit(s[s.len() - 1])
}

/// `s` ends in an offset written with a colon (`+02:00`).
pub open spec fn has_colon_offset(s: Seq<char>) -> bool {
    &&& s.len() >= 6
    &&& is_sign(s[s.len() - 6])
    &&& is_digit(s[s.len() - 5])
    &&& is_digit(s[s.len() - 4])
    &&& s[s.len() - 3] == ':'
    &&& is_digit(s[s.len() - 2])
    &&& is_digit(s[s.len() - 1])
}

/// The repair of an upstream timestamp: a compact offset loses its last two
/// digits, which become `:00`; any other string is left as it is.
pub open spec fn repaired(s: Seq<char>) -> Seq<char> {
    if has_compact_offset(s) {
        s.subrange(0, s.len() - 2) + seq![':', '0', '0']
    } else {
        s
    }
}

/// What RFC 3339 parsing makes of a string: the instant as whole seconds since
/// the epoch and the nanoseconds past them, or nothing where it is not RFC 3339.
pub uninterp spec fn rfc3339_instant(s: Seq<char>) -> Option<(i64, u32)>;

/// The point in time that a raw upstream timestamp stands for, once repaired.
pub open spec fn normalized(s: Seq<char>) -> Option<PointInTime> {
    match rfc3339_instant(repaired(s)) {
        Some(p) => Some(PointInTime { secs: p.0, nanos: p.1 }),
        None => None,
    }
}

/// Relies on chrono's `DateTime::parse_from_rfc3339`, with the seconds and
/// nanoseconds of the parsed instant (`timestamp`, `timestamp_subsec_nanos`).
#[verifier::external_body]
fn parse_rfc3339(s: &str) -> (r: Option<(i64, u32)>)
    ensures
        r == rfc3339_instant(s@),
{
    match chrono::DateTime::parse_from_rfc3339(s) {
        Ok(t) => Some((t.timestamp(), t.timestamp_subsec_nanos())),
        Err(_) => None,
    }
}

/// Relies on chrono's `Local::now`: the current instant, of which nothing is known.
#[verifier::external_body]
fn clock_now() -> (r: (i64, u32)) {
    let t = chrono::Local::now();
    (t.timestamp(), t.timestamp_subsec_nanos())
}

/// The current point in time from the system clock.
pub fn now() -> PointInTime {
    let (secs, nanos) = clock_now();
    PointInTime { secs, nanos }
}

/// Repairs an upstream timestamp whose offset lacks its colon (`...+0200` becomes
/// `...+02:00`); every other string comes back unchanged.
pub fn repair_timestamp(raw: &str) -> (r: String)
    ensures
        r@ == repaired(raw@),
{
    let n = raw.unicode_len();
    if n >= 5 {
        let c5 = raw.get_char(n - 5);
        let c4 = raw.get_char(n - 4);
        let c3 = raw.get_char(n - 3);
        let c2 = raw.get_char(n - 2);
        let c1 = raw.get_char(n - 1);
        if (c5 == '+' || c5 == '-') && '0' <= c4 && c4 <= '9' && '0' <= c3 && c3 <= '9'
            && '0' <= c2 && c2 <= '9' && '0' <= c1 && c1 <= '9' {
            let mut out = String::from_str(raw.substring_char(0, n - 2));
            let tail = ":00";
            proof {
                reveal_strlit(":00");
            }
            out.append(tail);
            assert(out@ =~= repaired(raw@));
            return out;
        }
    }
    String::from_str(raw)
}

/// Turns a raw upstream timestamp into a point in time: repaired, then parsed as
/// RFC 3339. `None` where even the repaired string is no valid timestamp.
pub fn normalize_timestamp(raw: &str) -> (r: Option<PointInTime>)
    ensures
        r == normalized(raw@),
{
    let fixed = repair_timestamp(raw);
    match parse_rfc3339(fixed.as_str()) {
        Some((secs, nanos)) => Some(PointInTime { secs, nanos }),
        None => None,
    }
}

/// Repair leaves a timestamp whose offset already has its colon as it is.
pub proof fn lemma_repair_keeps_colon_offset(s: Seq<char>)
    requires
        has_colon_offset(s),
    ensures
        repaired(s) == s,
{
}

/// Repair is idempotent: repairing a repaired timestamp changes nothing.
pub proof fn lemma_repair_idempotent(s: Seq<char>)
    ensures
        repaired(repaired(s)) == repaired(s),
{
    if has_compact_offset(s) {
        let r = repaired(s);
        assert(r[r.len() - 3] == ':');
        assert(!has_compact_offset(r));
    }
}

/// Repair turns a compact offset into one with a colon: the sign and the hour
/// digits stay, the minutes become `00`.
pub proof fn lemma_repair_compact_offset(s: Seq<char>)
    requires
        has_compact_offset(s),
    ensures
        has_colon_offset(repaired(s)),
        repaired(s).len() == s.len() + 1,
        repaired(s).subrange(0, s.len() - 2) == s.subrange(0, s.len() - 2),
        repaired(s)[s.len() - 1] == '0' && repaired(s)[s.len() as int] == '0',
{
    let r = repaired(s);
    assert(r.subrange(0, s.len() - 2) =~= s.subrange(0, s.len() - 2));
}

} // verus!
