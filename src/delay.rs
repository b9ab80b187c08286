use vstd::prelude::*;

verus! {

/// A delay that a client asked for: whole seconds and the nanoseconds beyond.
#[derive(Clone, Copy, Debug, PartialEq, Eq)]
pub struct WaitTime {
    pub secs: u64,
    pub nanos: u32,
}

/// Why a request's delay was refused.
#[derive(Clone, Copy, Debug, PartialEq, Eq)]
pub enum WaitError {
    /// The `wait` parameter is there but is no duration.
    Malformed,
}

/// The duration that `humantime::parse_duration` reads from a text, as whole
/// seconds and nanoseconds, or `None` where it reads none.
pub uninterp spec fn duration_of(s: Seq<char>) -> Option<(u64, u32)>;

/// The most decimal digits that a `wait` parameter may hold. Eleven digits in
/// any unit reach no more than about 3.2e18 seconds, far from the largest
/// `u64`, so `humantime::parse_duration` never overflows a `Duration` on such
/// a text.
pub const MAX_WAIT_DIGITS: usize = 11;

/// How many of the characters of `s` are the ASCII digits `0` to `9`.
pub open spec fn digit_count(s: Seq<char>) -> nat
    decreases s.len(),
{
    if s.len() == 0 {
        0
    } else {
        digit_count(s.drop_last()) + if '0' <= s.last() <= '9' { 1nat } else { 0nat }
    }
}

/// Counts the ASCII digits of `s`.
pub fn count_digits(s: &str) -> (r: usize)
    ensures
        r == digit_count(s@),
{
    let n = s.unicode_len();
    let mut count: usize = 0;
    let mut i: usize = 0;
    while i < n
        invariant
            n == s@.len(),
            i <= n,
            count == digit_count(s@.subrange(0, i as int)),
            count <= i,
        decreases n - i,
    {
        proof {
            assert(s@.subrange(0, i + 1).drop_last() =~= s@.subrange(0, i as int));
        }
        let c = s.get_char(i);
        if '0' <= c && c <= '9' {
            count = count + 1;
        }
        i = i + 1;
    }
    proof {
        assert(s@.subrange(0, n as int) =~= s@);
    }
    count
}

/// Relies on `humantime::parse_duration`: reads a duration such as `200ms` or
/// `2s`; the result depends on the text alone, and the nanoseconds of a
/// `Duration` stay under one second. The function panics where the seconds
/// reach the largest `u64` and a whole second of nanoseconds is carried into
/// them; a bound on the digits leaves such texts out.
#[verifier::external_body]
fn parse_wait(s: &str) -> (r: Option<WaitTime>)
    requires
        digit_count(s@) <= MAX_WAIT_DIGITS,
    ensures
        match r {
            Some(w) => duration_of(s@) == Some((w.secs, w.nanos)) && w.nanos < 1_000_000_000,
            None => duration_of(s@) is None,
        },
{
    match humantime::parse_duration(s) {
        Ok(d) => Some(WaitTime { secs: d.as_secs(), nanos: d.subsec_nanos() }),
        Err(_) => None,
    }
}

/// What a request's `wait` parameter asks for, given what it reads as: no
/// delay where the parameter is absent, the delay it reads as, or a refusal
/// where it reads as no duration.
pub open spec fn wait_decision(
    present: bool,
    parsed: Option<(u64, u32)>,
) -> Result<Option<WaitTime>, WaitError> {
    if !present {
        Ok(None)
    } else {
        match parsed {
            Some((secs, nanos)) => Ok(Some(WaitTime { secs, nanos })),
            None => Err(WaitError::Malformed),
        }
    }
}

/// Decides the delay of a request whose `wait` parameter is there, from the
/// duration it was read as.
pub fn wait_outcome(parsed: Option<WaitTime>) -> (r: Result<Option<WaitTime>, WaitError>)
    ensures
        r == match parsed {
            Some(w) => wait_decision(true, Some((w.secs, w.nanos))),
            None => wait_decision(true, None),
        },
{
    match parsed {
        Some(w) => Ok(Some(w)),
        None => Err(WaitError::Malformed),
    }
}

/// Decides the delay of a request from its `wait` parameter, if any. A
/// parameter with more than `MAX_WAIT_DIGITS` ASCII digits is refused as
/// malformed without being read.
pub fn wait_gate(wait: Option<&str>) -> (r: Result<Option<WaitTime>, WaitError>)
    ensures
        r == match wait {
            Some(s) => if digit_count(s@) <= MAX_WAIT_DIGITS {
                wait_decision(true, duration_of(s@))
            } else {
                Err(WaitError::Malformed)
            },
            None => wait_decision(false, None),
        },
        r matches Ok(Some(w)) ==> w.nanos < 1_000_000_000,
{
    match wait {
        Some(s) => {
            if count_digits(s) <= MAX_WAIT_DIGITS {
                wait_outcome(parse_wait(s))
            } else {
                Err(WaitError::Malformed)
            }
        },
        None => Ok(None),
    }
}

} // verus!
