//! UUIDs, held as their 128-bit values, and timestamps, held as seconds and
//! nanoseconds since the Unix epoch (UTC).

use vstd::prelude::*;
use crate::digest::hex_lower;

verus! {

// ============================================================================
// UUIDs
// ============================================================================

/// The last `n` bytes of `v`, most significant first.
pub open spec fn be_bytes(v: nat, n: nat) -> Seq<u8>
    decreases n,
{
    if n == 0 {
        seq![]
    } else {
        be_bytes(v / 256, (n - 1) as nat).push((v % 256) as u8)
    }
}

/// The hyphenated lowercase text of a UUID: 32 hexadecimal digits of its
/// big-endian bytes, grouped 8-4-4-4-12.
pub open spec fn uuid_text(id: u128) -> Seq<char> {
    let h = hex_lower(be_bytes(id as nat, 16));
    h.subrange(0, 8) + "-"@ + h.subrange(8, 12) + "-"@ + h.subrange(12, 16) + "-"@
        + h.subrange(16, 20) + "-"@ + h.subrange(20, 32)
}

/// What `uuid::Uuid::parse_str` accepts and gives for a text (hyphenated,
/// simple, braced or URN form), as the UUID's 128-bit value.
pub uninterp spec fn parsed_uuid(s: Seq<char>) -> Option<u128>;

/// `uuid::Uuid::new_v4`: a random version-4 UUID. Nothing is claimed of its
/// value.
#[verifier::external_body]
pub(crate) fn new_uuid_v4() -> (id: u128) {
    uuid::Uuid::new_v4().as_u128()
}

proof fn lemma_be_bytes_len(v: nat, n: nat)
    ensures
        be_bytes(v, n).len() == n,
    decreases n,
{
    if n > 0 {
        lemma_be_bytes_len(v / 256, (n - 1) as nat);
    }
}

/// The 16 bytes of a UUID, most significant first.
fn uuid_bytes(id: u128) -> (r: Vec<u8>)
    ensures
        r@ == be_bytes(id as nat, 16),
{
    let mut cur: u128 = id;
    let mut suffix: Vec<u8> = Vec::new();
    let mut k: usize = 0;
    while k < 16
        invariant
            0 <= k <= 16,
            be_bytes(id as nat, 16) == be_bytes(cur as nat, (16 - k) as nat) + suffix@,
        decreases 16 - k,
    {
        let b = (cur % 256) as u8;
        proof {
            let m = (16 - k) as nat;
            assert(be_bytes(cur as nat, m) == be_bytes((cur / 256) as nat, (m - 1) as nat).push(
                (cur % 256) as u8,
            ));
            assert(be_bytes((cur / 256) as nat, (m - 1) as nat).push(b) + suffix@ =~= be_bytes(
                (cur / 256) as nat,
                (m - 1) as nat,
            ) + seq![b].add(suffix@));
        }
        let ghost before = suffix@;
        suffix.insert(0, b);
        proof {
            assert(suffix@ =~= seq![b].add(before));
        }
        cur = cur / 256;
        k = k + 1;
    }
    proof {
        assert(be_bytes(cur as nat, 0) =~= Seq::<u8>::empty());
        assert(Seq::<u8>::empty() + suffix@ =~= suffix@);
    }
    suffix
}

/// The hyphenated lowercase text of a UUID (`Display` of `uuid::Uuid`).
pub(crate) fn uuid_to_string(id: u128) -> (r: String)
    ensures
        r@ == uuid_text(id),
{
    let bytes = uuid_bytes(id);
    proof {
        lemma_be_bytes_len(id as nat, 16);
    }
    let hex = crate::digest::to_hex_lower(bytes.as_slice());
    let h = crate::text::chars_of(hex.as_str());
    let mut v: Vec<char> = crate::text::slice_range(h.as_slice(), 0, 8);
    crate::text::extend_str(&mut v, "-");
    let p2 = crate::text::slice_range(h.as_slice(), 8, 12);
    crate::text::extend_chars(&mut v, p2.as_slice());
    crate::text::extend_str(&mut v, "-");
    let p3 = crate::text::slice_range(h.as_slice(), 12, 16);
    crate::text::extend_chars(&mut v, p3.as_slice());
    crate::text::extend_str(&mut v, "-");
    let p4 = crate::text::slice_range(h.as_slice(), 16, 20);
    crate::text::extend_chars(&mut v, p4.as_slice());
    crate::text::extend_str(&mut v, "-");
    let p5 = crate::text::slice_range(h.as_slice(), 20, 32);
    crate::text::extend_chars(&mut v, p5.as_slice());
    proof {
        assert(h@.subrange(0, 8) =~= h@.subrange(0, 8));
        assert(v@ =~= uuid_text(id));
    }
    crate::text::string_of(v.as_slice())
}

/// `uuid::Uuid::parse_str`: the value is the name `parsed_uuid` of the text.
#[verifier::external_body]
pub(crate) fn parse_uuid(s: &str) -> (r: Option<u128>)
    ensures
        r == parsed_uuid(s@),
{
    match uuid::Uuid::parse_str(s) {
        Ok(u) => Some(u.as_u128()),
        Err(_) => None,
    }
}

// ============================================================================
// Timestamps
// ============================================================================

/// A point in time: whole seconds since the Unix epoch and the nanoseconds
/// past them (`chrono::DateTime<Utc>`).
#[derive(Debug, Clone, Copy, PartialEq, Eq, Structural)]
pub struct Timestamp {
    /// Seconds since 1970-01-01T00:00:00Z.
    pub secs: i64,
    /// Nanoseconds past `secs` (at or above 10^9 only within a leap second).
    pub nanos: u32,
}

/// The nanoseconds between the epoch and `t`.
pub open spec fn total_nanos(t: Timestamp) -> int {
    t.secs * 1_000_000_000 + t.nanos
}

/// The whole seconds in `a - b`, rounded toward zero
/// (`chrono::TimeDelta::num_seconds`).
pub open spec fn elapsed_secs(a: Timestamp, b: Timestamp) -> int {
    let d = total_nanos(a) - total_nanos(b);
    if d >= 0 {
        d / 1_000_000_000
    } else {
        -((-d) / 1_000_000_000)
    }
}

/// What `str::parse::<chrono::DateTime<Utc>>` gives for a text, as seconds
/// and nanoseconds.
pub uninterp spec fn parsed_timestamp(s: Seq<char>) -> Option<(i64, u32)>;

/// `chrono::Utc::now`: the current time. Nothing is claimed of it.
#[verifier::external_body]
pub(crate) fn utc_now() -> (t: Timestamp) {
    let now = chrono::Utc::now();
    Timestamp { secs: now.timestamp(), nanos: now.timestamp_subsec_nanos() }
}

/// `str::parse::<chrono::DateTime<Utc>>`: the time is the name
/// `parsed_timestamp` of the text.
#[verifier::external_body]
pub(crate) fn parse_timestamp(s: &str) -> (r: Option<Timestamp>)
    ensures
        r matches Some(t) ==> parsed_timestamp(s@) == Some((t.secs, t.nanos)),
        r is None ==> parsed_timestamp(s@) is None,
{
    match s.parse::<chrono::DateTime<chrono::Utc>>() {
        Ok(d) => Some(Timestamp { secs: d.timestamp(), nanos: d.timestamp_subsec_nanos() }),
        Err(_) => None,
    }
}

/// The whole seconds from `b` to `a`, rounded toward zero.
pub fn seconds_between(a: Timestamp, b: Timestamp) -> (r: i128)
    ensures
        r == elapsed_secs(a, b),
{
    let d: i128 = (a.secs as i128) * 1_000_000_000 + (a.nanos as i128) - ((b.secs as i128)
        * 1_000_000_000 + (b.nanos as i128));
    if d >= 0 {
        d / 1_000_000_000
    } else {
        -((-d) / 1_000_000_000)
    }
}

} // verus!
