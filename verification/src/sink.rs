//! The two sinks of a record: the console, and the output file that
//! mirrors it.
//!
//! A record is the bytes of a timestamp followed by the bytes of one line.
//! Every record goes to the console. When an output file is configured the
//! same bytes are appended to it afterwards. The module plans these writes;
//! carrying them out is the caller's part.

use crate::clock::ClockReading;
use crate::timestamp::format_timestamp;
use crate::timestamp::timestamp_text;
use vstd::prelude::*;
use vstd::string::*;
use vstd::utf8::encode_utf8;

verus! {

/// A destination for records.
#[derive(Clone, Copy, Debug, PartialEq, Eq, Structural)]
pub enum Sink {
    /// Standard output. It is flushed after every record.
    Console,
    /// The configured output file. For every record it is opened for
    /// appending, created if it does not exist, written, flushed and closed.
    File,
}

/// One write that is to be carried out: these bytes, to this sink.
#[derive(Debug, PartialEq, Eq)]
pub struct SinkWrite {
    pub sink: Sink,
    pub bytes: Vec<u8>,
}

/// A `SinkWrite` with its bytes as a sequence.
pub struct PlannedWrite {
    pub sink: Sink,
    pub bytes: Seq<u8>,
}

impl View for SinkWrite {
    type V = PlannedWrite;

    open spec fn view(&self) -> PlannedWrite {
        PlannedWrite { sink: self.sink, bytes: self.bytes@ }
    }
}

impl DeepView for SinkWrite {
    type V = PlannedWrite;

    open spec fn deep_view(&self) -> PlannedWrite {
        self@
    }
}

/// The bytes of a record: the UTF-8 encoding of the timestamp `stamp`,
/// immediately followed by the bytes of `line`, newline included and
/// untouched.
pub open spec fn record_bytes(stamp: Seq<char>, line: Seq<u8>) -> Seq<u8> {
    encode_utf8(stamp) + line
}

/// The writes that one record causes, in the order in which they are made:
/// always one to the console, then one of the same bytes to the file when
/// `mirror` says that an output file is configured.
pub open spec fn planned_writes(record: Seq<u8>, mirror: bool) -> Seq<PlannedWrite> {
    if mirror {
        seq![
            PlannedWrite { sink: Sink::Console, bytes: record },
            PlannedWrite { sink: Sink::File, bytes: record },
        ]
    } else {
        seq![PlannedWrite { sink: Sink::Console, bytes: record }]
    }
}

/// Both sinks receive the same bytes. Whatever the record and whether or
/// not a file is configured, the console is written first and exactly once,
/// every planned write carries the record's bytes unchanged, and the file
/// is written exactly when one is configured.
pub proof fn lemma_sinks_receive_same_bytes(record: Seq<u8>, mirror: bool)
    ensures
        planned_writes(record, mirror).len() == if mirror { 2int } else { 1int },
        planned_writes(record, mirror)[0].sink == Sink::Console,
        mirror ==> planned_writes(record, mirror)[1].sink == Sink::File,
        forall|i: int|
            0 <= i < planned_writes(record, mirror).len() ==> (#[trigger] planned_writes(
                record,
                mirror,
            )[i]).bytes == record,
        forall|i: int, j: int|
            0 <= i < planned_writes(record, mirror).len() && 0 <= j < planned_writes(
                record,
                mirror,
            ).len() ==> (#[trigger] planned_writes(record, mirror)[i]).bytes == (
            #[trigger] planned_writes(record, mirror)[j]).bytes,
{
}

/// Puts a timestamp and a line together into one record.
pub fn timestamped_record(stamp: &str, line: &[u8]) -> (record: Vec<u8>)
    ensures
        record@ == record_bytes(stamp@, line@),
{
    let mut record: Vec<u8> = Vec::new();
    record.extend_from_slice(stamp.as_bytes());
    record.extend_from_slice(line);
    assert(record@ =~= record_bytes(stamp@, line@));
    record
}

/// The record for `line` as read at the clock reading `now`.
pub fn stamp_line(now: &ClockReading, line: &[u8]) -> (record: Vec<u8>)
    ensures
        record@ == record_bytes(timestamp_text(*now), line@),
{
    let stamp = format_timestamp(now);
    timestamped_record(stamp.as_str(), line)
}

/// Plans the writes for one record: to the console, and to the output file
/// as well when `mirror` is set.
pub fn plan_writes(record: &[u8], mirror: bool) -> (writes: Vec<SinkWrite>)
    ensures
        writes.deep_view() == planned_writes(record@, mirror),
{
    let mut writes: Vec<SinkWrite> = Vec::new();
    let mut console: Vec<u8> = Vec::new();
    console.extend_from_slice(record);
    assert(console@ =~= record@);
    writes.push(SinkWrite { sink: Sink::Console, bytes: console });
    if mirror {
        let mut file: Vec<u8> = Vec::new();
        file.extend_from_slice(record);
        assert(file@ =~= record@);
        writes.push(SinkWrite { sink: Sink::File, bytes: file });
    }
    assert(writes.deep_view() =~= planned_writes(record@, mirror));
    writes
}

} // verus!
