//! Streams: writing through flow control, reading to the end, and what their
//! outcomes mean to the application.

use super::error::other;
use super::error::reset_by_peer;
use super::error::Error;
use super::error::ErrorModel;
use crate::bytes::flattened;
use crate::text::decimal;
use crate::text::decimals_spell_their_number;
use crate::text::spelled;
use vstd::prelude::*;

verus! {

/// Why a read is refused once the bytes flow elsewhere.
pub const TAKEN_BY_STREAM: &'static str = "the stream's bytes were taken by read-via-stream";

/// Why a second forwarding stream is refused.
pub const STREAM_ONCE: &'static str = "read-via-stream may be called once";

/// How many bytes one forwarding turn moves at most.
pub const FORWARD_CHUNK: u32 = 16384;

/// What QUIC made of one write.
pub enum WriteResult {
    Written(usize),
    Blocked,
    Stopped(u64),
    ClosedStream,
}

/// Where a write stands.
pub enum WritePoll {
    /// Every byte is with QUIC.
    Done,
    Failed(Error),
    /// Write the rest now.
    Again,
    /// Write the rest after the next quantum.
    Wait,
}

/// A write in progress: `bytes[offset..]` is still to be written.
pub struct WriteAll {
    pub bytes: Vec<u8>,
    pub offset: usize,
}

impl WriteAll {
    pub open spec fn wf(&self) -> bool {
        self.offset <= self.bytes@.len()
    }

    /// What is still to be written.
    pub open spec fn rest(&self) -> Seq<u8> {
        self.bytes@.skip(self.offset as int)
    }

    pub fn new(bytes: Vec<u8>) -> (write: Self)
        ensures
            write.wf(),
            write.rest() == bytes@,
            write.offset == 0,
    {
        let write = WriteAll { bytes, offset: 0 };
        assert(write.rest() =~= bytes@);
        write
    }

    /// Take note of what QUIC made of writing the rest.
    pub fn on_write(&mut self, result: WriteResult) -> (poll: WritePoll)
        requires
            old(self).wf(),
            takes(*old(self), result),
        ensures
            final(self).wf(),
            wrote(*old(self), result, *final(self), poll),
    {
        match result {
            WriteResult::Written(written) => {
                let len: usize = self.bytes.len();
                self.offset = self.offset + written;
                assert(self.rest() =~= old(self).rest().skip(written as int));
                if self.offset == len {
                    WritePoll::Done
                } else if written == 0 {
                    WritePoll::Wait
                } else {
                    WritePoll::Again
                }
            },
            WriteResult::Blocked => WritePoll::Wait,
            WriteResult::Stopped(code) => WritePoll::Failed(reset_by_peer(code)),
            WriteResult::ClosedStream => WritePoll::Failed(Error::Closed),
        }
    }
}

/// QUIC took no more than it was given.
pub open spec fn takes(write: WriteAll, result: WriteResult) -> bool {
    result matches WriteResult::Written(n) ==> n <= write.rest().len()
}

/// What QUIC took of the rest.
pub open spec fn accepted(write: WriteAll, result: WriteResult) -> Seq<u8> {
    match result {
        WriteResult::Written(n) => write.rest().take(n as int),
        _ => Seq::empty(),
    }
}

/// Where a write stands after `result`.
pub open spec fn wrote(
    before: WriteAll,
    result: WriteResult,
    after: WriteAll,
    poll: WritePoll,
) -> bool {
    &&& after.bytes@ == before.bytes@
    &&& match result {
        WriteResult::Written(n) => {
            &&& after.rest() == before.rest().skip(n as int)
            &&& poll is Done <==> after.rest().len() == 0
            &&& poll is Wait <==> after.rest().len() > 0 && n == 0
            &&& poll is Again <==> after.rest().len() > 0 && n > 0
        },
        WriteResult::Blocked => poll is Wait && after.rest() == before.rest(),
        WriteResult::Stopped(code) => {
            &&& after.rest() == before.rest()
            &&& poll matches WritePoll::Failed(error)
            &&& error@ == ErrorModel::Reset(decimal(code as nat))
        },
        WriteResult::ClosedStream => {
            &&& after.rest() == before.rest()
            &&& poll matches WritePoll::Failed(error)
            &&& error@ == ErrorModel::Closed
        },
    }
}

/// A course of writes: `results[i]` and `polls[i]` lead from `writes[i]` to
/// the next.
pub open spec fn is_course(
    writes: Seq<WriteAll>,
    results: Seq<WriteResult>,
    polls: Seq<WritePoll>,
) -> bool {
    &&& writes.len() == results.len() + 1
    &&& polls.len() == results.len()
    &&& forall|i: int|
        0 <= i < results.len() ==> takes(writes[i], #[trigger] results[i]) && wrote(
            writes[i],
            results[i],
            writes[i + 1],
            polls[i],
        )
}

/// What QUIC took in each write.
pub open spec fn all_accepted(writes: Seq<WriteAll>, results: Seq<WriteResult>) -> Seq<Seq<u8>> {
    Seq::new(results.len(), |i: int| accepted(writes[i], results[i]))
}

/// Whatever QUIC takes at a time, the pieces and the rest are the bytes in
/// order: nothing is lost, repeated or reordered, and a write that is done has
/// handed over exactly its bytes.
pub proof fn accepted_pieces_are_the_bytes(
    writes: Seq<WriteAll>,
    results: Seq<WriteResult>,
    polls: Seq<WritePoll>,
)
    requires
        is_course(writes, results, polls),
        writes[0].rest() == writes[0].bytes@,
    ensures
        flattened(all_accepted(writes, results)) + writes.last().rest() == writes[0].bytes@,
        polls.len() > 0 && polls.last() is Done ==> flattened(all_accepted(writes, results))
            == writes[0].bytes@,
    decreases results.len(),
{
    let pieces = all_accepted(writes, results);
    if results.len() == 0 {
        assert(pieces + Seq::<Seq<u8>>::empty() =~= pieces);
        assert(flattened(pieces) + writes.last().rest() =~= writes[0].bytes@);
    } else {
        let n = results.len() - 1;
        let ws = writes.drop_last();
        let rs = results.drop_last();
        let ps = polls.drop_last();
        assert forall|i: int| 0 <= i < rs.len() implies takes(ws[i], #[trigger] rs[i]) && wrote(
            ws[i],
            rs[i],
            ws[i + 1],
            ps[i],
        ) by {
            assert(takes(writes[i], results[i]));
        }
        accepted_pieces_are_the_bytes(ws, rs, ps);
        assert(takes(writes[n], results[n]));
        assert(pieces.drop_last() =~= all_accepted(ws, rs));
        let piece = accepted(writes[n], results[n]);
        assert(pieces.last() == piece);
        assert(ws.last() == writes[n]);
        assert(piece + writes[n + 1].rest() =~= writes[n].rest());
        assert(flattened(pieces) + writes.last().rest() =~= flattened(all_accepted(ws, rs)) + (piece
            + writes[n + 1].rest()));
        if polls.last() is Done {
            assert(writes.last().rest().len() == 0);
            assert(flattened(pieces) + writes.last().rest() =~= flattened(pieces));
        }
    }
}

/// What a read of up to `max` bytes does before it looks at the stream.
pub enum ReadGate {
    Refused(Error),
    /// Nothing was asked for: the result is empty.
    Empty,
    Read,
}

/// A read is refused while the bytes flow elsewhere, and asks QUIC for
/// nothing when nothing is wanted.
pub fn read_gate(streaming: bool, max: u32) -> (gate: ReadGate)
    ensures
        match gate {
            ReadGate::Refused(error) => streaming && error@ == ErrorModel::Other(TAKEN_BY_STREAM@),
            ReadGate::Empty => !streaming && max == 0,
            ReadGate::Read => !streaming && max > 0,
        },
{
    if streaming {
        ReadGate::Refused(other(TAKEN_BY_STREAM))
    } else if max == 0 {
        ReadGate::Empty
    } else {
        ReadGate::Read
    }
}

/// What QUIC made of one ordered read.
pub enum ReadResult {
    Chunk(Vec<u8>),
    Finished,
    Blocked,
    Reset(u64),
    /// Already fully read, or reset and consumed.
    ClosedStream,
    IllegalOrderedRead,
}

/// What a connection's error means to a read: a cleanly closed connection
/// still ends streams cleanly.
pub fn read_after_error(error: Error) -> (read: Result<Option<Vec<u8>>, Error>)
    ensures
        match read {
            Ok(bytes) => error@ == ErrorModel::Closed && bytes is None,
            Err(reported) => error@ != ErrorModel::Closed && reported@ == error@,
        },
{
    match error {
        Error::Closed => Ok(None),
        failure => Err(failure),
    }
}

/// What one read attempt comes to: bytes, the stream's end, a failure, or
/// nothing yet.
pub fn read_some(result: ReadResult) -> (read: Option<Result<Option<Vec<u8>>, Error>>)
    ensures
        match result {
            ReadResult::Chunk(bytes) => read matches Some(Ok(Some(got))) && got@ == bytes@,
            ReadResult::Finished => read matches Some(Ok(None)),
            ReadResult::ClosedStream => read matches Some(Ok(None)),
            ReadResult::Blocked => read is None,
            ReadResult::Reset(code) => read matches Some(Err(error)) && error@
                == ErrorModel::Reset(decimal(code as nat)),
            ReadResult::IllegalOrderedRead => read matches Some(Err(error)) && error@
                == ErrorModel::Other("illegal ordered read"@),
        },
{
    match result {
        ReadResult::Chunk(bytes) => Some(Ok(Some(bytes))),
        ReadResult::Finished => Some(Ok(None)),
        ReadResult::ClosedStream => Some(Ok(None)),
        ReadResult::Blocked => None,
        ReadResult::Reset(code) => Some(Err(reset_by_peer(code))),
        ReadResult::IllegalOrderedRead => Some(Err(other("illegal ordered read"))),
    }
}

/// What QUIC made of finishing a stream.
pub enum FinishResult {
    Finished,
    Stopped(u64),
    ClosedStream,
}

/// What finishing a stream comes to: the connection's error first, then what
/// QUIC made of it. `result` is asked for only without an error.
pub fn finish(error: Option<Error>, result: FinishResult) -> (finished: Result<(), Error>)
    ensures
        match error {
            Some(error) => finished matches Err(reported) && reported@ == error@,
            None => match result {
                FinishResult::Finished => finished is Ok,
                FinishResult::Stopped(code) => finished matches Err(reported) && reported@
                    == ErrorModel::Reset(decimal(code as nat)),
                FinishResult::ClosedStream => finished matches Err(reported) && reported@
                    == ErrorModel::Closed,
            },
        },
{
    match error {
        Some(error) => Err(error),
        None => match result {
            FinishResult::Finished => Ok(()),
            FinishResult::Stopped(code) => Err(reset_by_peer(code)),
            FinishResult::ClosedStream => Err(Error::Closed),
        },
    }
}

/// Hand the stream's bytes to a forwarding stream, once.
pub fn start_streaming(streaming: &mut bool) -> (started: Result<(), Error>)
    ensures
        *final(streaming),
        match started {
            Ok(()) => !*old(streaming),
            Err(error) => *old(streaming) && error@ == ErrorModel::Other(STREAM_ONCE@),
        },
{
    if *streaming {
        return Err(other(STREAM_ONCE));
    }
    *streaming = true;
    Ok(())
}

/// What one turn of writing from a byte stream does.
#[derive(Clone, Copy, PartialEq, Eq, Structural)]
pub struct SourceTurn {
    /// Write what was read.
    pub write: bool,
    /// The source has ended: finish the stream afterwards.
    pub finish: bool,
}

/// A turn that read `len` bytes from a source that has ended or not.
pub fn source_turn(len: usize, ended: bool) -> (turn: SourceTurn)
    ensures
        turn.write == (len > 0),
        turn.finish == ended,
{
    SourceTurn { write: len > 0, finish: ended }
}

/// A write moves on by as many bytes as QUIC took, and is done exactly at its
/// end; it goes on at once after progress, and waits without any. A stream
/// that is stopped fails it with the peer's code in decimals, a closed one as
/// closed, and neither moves it.
pub proof fn writes_move_on_by_what_was_taken(
    before: WriteAll,
    result: WriteResult,
    after: WriteAll,
    poll: WritePoll,
)
    requires
        before.wf(),
        takes(before, result),
        after.wf(),
        wrote(before, result, after, poll),
    ensures
        after.bytes@ == before.bytes@,
        result matches WriteResult::Written(n) ==> {
            &&& after.offset == before.offset + n
            &&& poll !is Failed
            &&& poll is Done <==> before.offset + n == before.bytes@.len()
            &&& poll is Wait <==> n == 0 && before.offset < before.bytes@.len()
        },
        result is Blocked ==> after.offset == before.offset && poll is Wait,
        result matches WriteResult::Stopped(code) ==> {
            &&& after.offset == before.offset
            &&& poll matches WritePoll::Failed(error)
            &&& error@ matches ErrorModel::Reset(text)
            &&& spelled(text) == code
        },
        result is ClosedStream ==> {
            &&& after.offset == before.offset
            &&& poll matches WritePoll::Failed(error)
            &&& error@ is Closed
        },
{
    if let WriteResult::Stopped(code) = result {
        decimals_spell_their_number(code as nat);
    }
}

/// What QUIC took of a write are the next bytes behind its offset.
pub proof fn accepted_bytes_are_the_next(write: WriteAll, result: WriteResult, i: int)
    requires
        write.wf(),
        takes(write, result),
    ensures
        result matches WriteResult::Written(n) ==> {
            &&& accepted(write, result).len() == n
            &&& write.offset + n <= write.bytes@.len()
            &&& 0 <= i < n ==> accepted(write, result)[i] == write.bytes@[write.offset + i]
        },
        result !is Written ==> accepted(write, result).len() == 0,
{
}

/// The texts of a stream's refusals, and how much one turn forwards.
pub proof fn texts_of_a_stream()
    ensures
        TAKEN_BY_STREAM@ == "the stream's bytes were taken by read-via-stream"@,
        STREAM_ONCE@ == "read-via-stream may be called once"@,
        FORWARD_CHUNK == 16384,
{
}

} // verus!
