//! Small helpers.
use vstd::prelude::*;

verus! {

/// `None` when `cond` holds, else `Some(obj)`.
pub fn into_none_if<T>(cond: bool, obj: T) -> (r: Option<T>)
    ensures
        r == if cond {
            None
        } else {
            Some(obj)
        },
{
    if cond {
        None
    } else {
        Some(obj)
    }
}

/// The retry rule for reading a line of input. After a failed read, with
/// `tries` retries made so far, returns the count to retry with, or `None`
/// once more than `limit` retries have been made.
pub fn read_input_loop(limit: u8, tries: u8) -> (r: Option<u8>)
    requires
        limit < u8::MAX,
    ensures
        r == if tries > limit {
            None
        } else {
            Some((tries + 1) as u8)
        },
{
    if tries > limit {
        None
    } else {
        Some(tries + 1)
    }
}

} // verus!
