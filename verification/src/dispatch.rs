//! The record dispatcher: joining a socket event with cached
//! attribution into one output record.
//!
//! The surrounding loop pulls socket events off their channel, stamps
//! the current time, resolves the pid outside the tracker lock when the
//! cache misses, and hands everything to [`dispatch`]; whatever record
//! comes back goes to the sink.  An event whose pid cannot be attributed
//! is dropped — a record is never emitted without attribution.

use vstd::prelude::*;
use crate::data::{Process, ProcessView, Record, RecordView};
use crate::event::Sock;
use crate::track::{
    got_process, resolution_for, table_after_get, table_wf, view_opt, Tracker,
};

verus! {

/// The record a socket event becomes when its pid resolved to `p`.
pub open spec fn spec_record(
    sock: Sock,
    p: ProcessView,
    hostname: Seq<char>,
    timestamp: u64,
) -> RecordView {
    RecordView {
        timestamp,
        event: sock.call.spec_label(),
        src: sock.src,
        dst: sock.dst,
        process: p,
        hostname,
        rx: sock.rx,
        tx: sock.tx,
        srtt: sock.srtt,
        retx: sock.retx,
    }
}

/// Dispatch one socket event: look its pid up in the tracker (caching
/// `resolved` on a miss) and build the output record.  Exactly one
/// record comes back when the pid has attribution, and none otherwise.
pub fn dispatch(
    tracker: &mut Tracker,
    sock: &Sock,
    resolved: Option<Process>,
    hostname: &str,
    timestamp: u64,
) -> (r: Option<Record>)
    requires
        old(tracker).wf(),
        resolution_for(sock.pid, resolved),
    ensures
        final(tracker).wf(),
        table_wf(final(tracker)@),
        final(tracker)@ == table_after_get(old(tracker)@, sock.pid, view_opt(resolved)),
        match r {
            Some(rec) => {
                &&& got_process(old(tracker)@, sock.pid, view_opt(resolved)) matches Some(p)
                    && rec@ == spec_record(*sock, p, hostname@, timestamp)
            },
            None => got_process(old(tracker)@, sock.pid, view_opt(resolved)) is None,
        },
{
    match tracker.get(sock.pid, resolved) {
        Some(process) => {
            let rec = Record {
                timestamp,
                event: sock.call.label().to_owned(),
                src: sock.src,
                dst: sock.dst,
                process,
                hostname: hostname.to_owned(),
                rx: sock.rx,
                tx: sock.tx,
                srtt: sock.srtt,
                retx: sock.retx,
            };
            Some(rec)
        },
        None => None,
    }
}

} // verus!
