//! Sending bytes to a session's input sink: all of them, then a flush.
use vstd::prelude::*;
use crate::error::sink_verdict;
use crate::error::SinkFailure;
use crate::error::TerminalErrorView;

verus! {

/// Writes `data` to `sink` and flushes it.
///
/// `write_all` is run once on `sink` with exactly `data`. If it fails, its
/// cause is handed back as a `Write` failure and `flush` is not run. Else
/// `flush` is run once on `sink` as `write_all` left it; if it fails, its
/// cause is handed back as a `Flush` failure.
pub fn send_all<W, FW, FF>(sink: &mut W, data: &[u8], write_all: FW, flush: FF) -> (sent: Result<
    (),
    SinkFailure,
>) where FW: FnOnce(&mut W, &[u8]) -> Result<(), String>, FF: FnOnce(&mut W) -> Result<(), String>
    requires
        forall|to: &mut W| *to == *old(sink) ==> call_requires(write_all, (to, data)),
        forall|first: &mut W, wrote: Result<(), String>, to: &mut W|
            *first == *old(sink) && wrote is Ok && call_ensures(write_all, (first, data), wrote)
                && *to == *final(first) ==> call_requires(flush, (to,)),
    ensures
        exists|first: &mut W, wrote: Result<(), String>|
            {
                &&& *first == *old(sink)
                &&& #[trigger] call_ensures(write_all, (first, data), wrote)
                &&& match wrote {
                    Err(cause) => *final(sink) == *final(first) && sink_verdict(sent) == Some(
                        TerminalErrorView::Write(cause@),
                    ),
                    Ok(_) => exists|second: &mut W, flushed: Result<(), String>|
                        {
                            &&& *second == *final(first)
                            &&& #[trigger] call_ensures(flush, (second,), flushed)
                            &&& *final(sink) == *final(second)
                            &&& sink_verdict(sent) == match flushed {
                                Ok(_) => None,
                                Err(cause) => Some(TerminalErrorView::Flush(cause@)),
                            }
                        },
                }
            },
{
    match write_all(sink, data) {
        Err(cause) => Err(SinkFailure::Write(cause)),
        Ok(_) => match flush(sink) {
            Ok(_) => Ok(()),
            Err(cause) => Err(SinkFailure::Flush(cause)),
        },
    }
}

} // verus!
