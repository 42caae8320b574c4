use vstd::prelude::*;

use crate::errors::CapError;
use crate::frame::Frame;
use crate::frame::HEADER_LEN;
use crate::frame::frame_of;
use crate::frame::parse;
use crate::stats::StatTable;
use crate::stats::lookup_stat;
use crate::stats::spec_record;
use vstd::string::StringSliceAdditionalSpecFns;

verus! {

/// The platform's maximum interface-name length in bytes, terminator
/// included: longer names cannot be resolved to an interface index.
pub const IF_NAME_MAX: usize = 16;

/// Checks a capture interface name before any descriptor is opened: a name
/// of the platform's maximum byte length or more is a configuration error.
pub fn validate_interface_name(name: &str) -> (r: Result<(), CapError>)
    ensures
        match r {
            Ok(()) => (name.spec_bytes().len() as usize) < IF_NAME_MAX,
            Err(e) => (name.spec_bytes().len() as usize) >= IF_NAME_MAX && e
                == CapError::ConfigError,
        },
{
    if name.len() >= IF_NAME_MAX {
        Err(CapError::ConfigError)
    } else {
        Ok(())
    }
}

/// Whether a report is due: the elapsed time, in milliseconds, exceeds the
/// configured period in seconds.
pub open spec fn report_due(elapsed_ms: u64, period_s: i32) -> bool {
    (period_s as int) * 1000 < elapsed_ms as int
}

/// Decides whether the reporting interval has elapsed.
pub fn check_report_due(elapsed_ms: u64, period_s: i32) -> (r: bool)
    ensures
        r == report_due(elapsed_ms, period_s),
{
    if period_s < 0 {
        true
    } else {
        (period_s as u64) * 1000 < elapsed_ms
    }
}

/// The source address carried at bytes 6..12 of a captured buffer.
pub open spec fn source_of(data: Seq<u8>) -> Seq<u8> {
    data.subrange(6, 12)
}

/// One step of the capture loop, taken after every received frame: decode
/// the header, count the frame against its source address, and say whether
/// the reporting interval has elapsed. A truncated buffer aborts the step
/// with the table untouched.
pub fn capture_step(table: &mut StatTable, buf: &Vec<u8>, elapsed_ms: u64, period_s: i32) -> (r:
    Result<(Frame, bool), CapError>)
    requires
        buf@.len() >= HEADER_LEN ==> match lookup_stat(old(table)@, source_of(buf@)) {
            Some(st) => st.total < u64::MAX && st.period < u64::MAX,
            None => true,
        },
    ensures
        match r {
            Ok(p) => buf@.len() >= HEADER_LEN && frame_of(p.0, buf@) && final(table)@
                == spec_record(old(table)@, source_of(buf@)) && p.1 == report_due(
                elapsed_ms,
                period_s,
            ),
            Err(e) => buf@.len() < HEADER_LEN && e == CapError::TruncatedInput && final(table)@
                == old(table)@,
        },
{
    let f = match parse(buf) {
        Ok(f) => f,
        Err(e) => {
            return Err(e);
        },
    };
    proof {
        assert(f.eth_src@ == source_of(buf@));
    }
    table.record(&f.eth_src);
    let due = check_report_due(elapsed_ms, period_s);
    Ok((f, due))
}

/// Whether the capture loop may count one more frame from whatever source
/// address a buffer carries; a table that cannot is saturated and the
/// process has no recovery for it.
pub fn can_count(table: &StatTable, buf: &Vec<u8>) -> (r: bool)
    ensures
        r == if buf@.len() >= HEADER_LEN {
            match lookup_stat(table@, source_of(buf@)) {
                Some(st) => st.total < u64::MAX && st.period < u64::MAX,
                None => true,
            }
        } else {
            true
        },
{
    match parse(buf) {
        Ok(f) => {
            proof {
                assert(f.eth_src@ == source_of(buf@));
            }
            table.can_record(&f.eth_src)
        },
        Err(_) => true,
    }
}

} // verus!
