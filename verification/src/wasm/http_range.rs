//! Byte ranges and the retry policy of range requests.
//!
//! Large files are read in ranges. The request itself is made by the
//! caller; what is decided here is which bytes to ask for, whether a
//! response is good, and what to do after a failure.

use vstd::prelude::*;
use vstd::string::*;
use crate::error::{Error, ErrorKind};
use crate::text::{decimal, parse_nat, spec_decimal, spec_parse_nat};

verus! {

/// A range of bytes, both ends included.
#[derive(Debug, Clone, Copy, PartialEq, Eq, Structural)]
pub struct ByteRange {
    pub start: u64,
    pub end: u64,
}

impl ByteRange {
    /// The range from `start` to `end`, both included.
    pub fn new(start: u64, end: u64) -> (r: ByteRange)
        requires
            start <= end,
        ensures
            r == (ByteRange { start, end }),
    {
        ByteRange { start, end }
    }

    /// The number of bytes in the range.
    pub fn size(&self) -> (n: u64)
        requires
            self.start <= self.end,
            self.end - self.start < u64::MAX,
        ensures
            n == self.end - self.start + 1,
    {
        self.end - self.start + 1
    }

    /// The last `n` bytes of a file of unknown size, as a range that ends
    /// at the greatest offset.
    pub fn last_n_bytes(n: u64) -> (r: ByteRange)
        requires
            n >= 1,
        ensures
            r == (ByteRange { start: (u64::MAX - n + 1) as u64, end: u64::MAX }),
    {
        ByteRange { start: u64::MAX - n + 1, end: u64::MAX }
    }

    /// The value of the header of the request: `bytes=start-end`.
    pub open spec fn spec_header_value(self) -> Seq<char> {
        "bytes="@ + spec_decimal(self.start as nat) + "-"@ + spec_decimal(self.end as nat)
    }

    /// The value of the header of the request.
    pub fn header_value(&self) -> (s: String)
        ensures
            s@ == self.spec_header_value(),
    {
        let mut s = String::from_str("bytes=");
        s.append(decimal(self.start as u128).as_str());
        s.append("-");
        s.append(decimal(self.end as u128).as_str());
        assert(s@ =~= self.spec_header_value());
        s
    }
}

/// What to do after a request has failed.
#[derive(Debug, Clone, Copy, PartialEq, Eq, Structural)]
pub enum AfterFailure {
    /// Wait this many milliseconds and ask again.
    Retry { delay_ms: u32 },
    /// Give up and report the failure.
    GiveUp,
}

/// The wait before the request after attempt `attempt`: 100 ms, doubled
/// with every attempt.
pub open spec fn spec_backoff_ms(attempt: nat) -> nat
    decreases attempt,
{
    if attempt == 0 {
        100
    } else {
        2 * spec_backoff_ms((attempt - 1) as nat)
    }
}

/// What to do after attempt `attempt` of `attempts` has failed: ask again
/// unless it was the last.
pub open spec fn spec_after_failure(attempt: u32, attempts: u32) -> AfterFailure {
    if attempt + 1 < attempts && spec_backoff_ms(attempt as nat) <= u32::MAX {
        AfterFailure::Retry { delay_ms: spec_backoff_ms(attempt as nat) as u32 }
    } else {
        AfterFailure::GiveUp
    }
}

/// A client for range requests on one address.
#[derive(Debug, Clone)]
pub struct RangeClient {
    base_url: String,
    retry_attempts: u32,
}

impl RangeClient {
    /// The address and the number of attempts.
    pub closed spec fn spec_parts(&self) -> (Seq<char>, u32) {
        (self.base_url@, self.retry_attempts)
    }

    /// A client that makes up to three attempts.
    pub fn new(url: &str) -> (c: RangeClient)
        ensures
            c.spec_parts() == (url@, 3u32),
    {
        RangeClient { base_url: String::from_str(url), retry_attempts: 3 }
    }

    /// The address.
    pub fn base_url(&self) -> (s: &str)
        ensures
            s@ == self.spec_parts().0,
    {
        self.base_url.as_str()
    }

    /// The number of attempts.
    pub fn retry_attempts(&self) -> (n: u32)
        ensures
            n == self.spec_parts().1,
    {
        self.retry_attempts
    }

    /// What to do after attempt `attempt` (counted from zero) has failed.
    pub fn after_failure(&self, attempt: u32) -> (r: AfterFailure)
        ensures
            r == spec_after_failure(attempt, self.spec_parts().1),
    {
        if attempt >= self.retry_attempts || attempt + 1 >= self.retry_attempts {
            return AfterFailure::GiveUp;
        }
        let mut delay: u64 = 100;
        let mut i: u32 = 0;
        while i < attempt
            invariant
                i <= attempt,
                delay == spec_backoff_ms(i as nat) || (delay > u32::MAX && spec_backoff_ms(i as nat)
                    > u32::MAX),
                delay <= 2 * (u32::MAX as u64) + 1,
            decreases attempt - i,
        {
            if delay <= u32::MAX as u64 {
                delay = 2 * delay;
            }
            i += 1;
        }
        if delay <= u32::MAX as u64 {
            AfterFailure::Retry { delay_ms: delay as u32 }
        } else {
            AfterFailure::GiveUp
        }
    }
}

/// Whether a status is that of a good response to a range request: 206, or
/// 200 where the server sent the whole file. Any other fails with `Io`.
pub fn check_status(status: u16) -> (r: Result<(), Error>)
    ensures
        r is Ok <==> status == 206 || status == 200,
        r matches Err(e) ==> e.spec_kind() == ErrorKind::Io,
{
    if status == 206 || status == 200 {
        Ok(())
    } else {
        let mut msg = String::from_str("HTTP error: ");
        msg.append(decimal(status as u128).as_str());
        Err(Error::Io(msg))
    }
}

/// The size of a file from the header that gives its length. Fails with
/// `Io` when there is no header or when it is not a number of 64 bits.
pub fn parse_content_length(header: Option<&str>) -> (r: Result<u64, Error>)
    ensures
        match r {
            Ok(n) => header matches Some(text) && spec_parse_nat(text@) == Some(n as int),
            Err(e) => e.spec_kind() == ErrorKind::Io && match header {
                Some(text) => match spec_parse_nat(text@) {
                    Some(n) => n > u64::MAX,
                    None => true,
                },
                None => true,
            },
        },
{
    match header {
        Some(text) => match parse_nat(text, u64::MAX) {
            Some(n) => Ok(n),
            None => {
                let mut msg = String::from_str("Invalid content-length: ");
                msg.append(text);
                Err(Error::Io(msg))
            },
        },
        None => Err(Error::Io(String::from_str("No content-length header"))),
    }
}

} // verus!
