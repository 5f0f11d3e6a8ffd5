//! Execution-model probes: results parked for later calls, and byte streams
//! written chunk by chunk.

use crate::bytes::copy_range;
use crate::hexadecimal::hex_encode;
use crate::hexadecimal::hex_text;
use crate::text::concat;
use crate::text::decimal;
use crate::text::decimal_string;
use vstd::prelude::*;
use vstd::string::*;

verus! {

/// What a pump waits in nanoseconds before it probes, so that its export has
/// returned.
pub const PUMP_DELAY_NS: u64 = 50_000_000;

/// The polling quantum in nanoseconds, and the pause between chunks.
pub const POLL_NS: u64 = 10_000_000;

/// The byte that streams repeat.
pub const FILL: u8 = 0x42;

pub const SENDER_DROPPED: &'static str = "spawned task dropped its sender";

/// Where the key probe failed.
pub enum ProbeFailure {
    Generate(String),
    Export(String),
}

/// What a probe of the key handle comes to, as text.
pub open spec fn probe_text(exported: Result<Vec<u8>, ProbeFailure>) -> Result<
    Seq<char>,
    Seq<char>,
> {
    match exported {
        Ok(raw) => Ok("x25519 ok, pub[0..4]="@ + hex_text(raw@.take(4))),
        Err(ProbeFailure::Generate(detail)) => Err("x25519 generate: "@ + detail@),
        Err(ProbeFailure::Export(detail)) => Err("x25519 export: "@ + detail@),
    }
}

/// A result's text.
pub open spec fn result_text(result: Result<String, String>) -> Result<Seq<char>, Seq<char>> {
    match result {
        Ok(text) => Ok(text@),
        Err(text) => Err(text@),
    }
}

/// What a probe of the key handle comes to: the first four bytes of the
/// exported public key, or what failed.
pub fn sync_webcrypto_probe(exported: Result<Vec<u8>, ProbeFailure>) -> (probed: Result<
    String,
    String,
>)
    requires
        exported matches Ok(raw) ==> raw@.len() >= 4,
    ensures
        result_text(probed) == probe_text(exported),
{
    match exported {
        Ok(raw) => {
            let head: Vec<u8> = copy_range(raw.as_slice(), 0, 4);
            assert(head@ =~= raw@.take(4));
            let shown: String = hex_encode(head.as_slice());
            Ok(concat("x25519 ok, pub[0..4]=", shown.as_str()))
        },
        Err(ProbeFailure::Generate(detail)) => Err(concat("x25519 generate: ", detail.as_str())),
        Err(ProbeFailure::Export(detail)) => Err(concat("x25519 export: ", detail.as_str())),
    }
}

/// What a probe in a spawned task comes to; `None` where the task went away.
pub fn blockon_in_spawn(probed: Option<Result<String, String>>) -> (reported: Result<
    String,
    String,
>)
    ensures
        result_text(reported) == (match probed {
            None => Err(SENDER_DROPPED@),
            Some(Ok(detail)) => Ok("block_on inside spawn (export live): "@ + detail@),
            Some(Err(text)) => Err(text@),
        }),
{
    match probed {
        None => Err(SENDER_DROPPED.to_owned()),
        Some(Ok(detail)) => Ok(concat("block_on inside spawn (export live): ", detail.as_str())),
        Some(Err(text)) => Err(text),
    }
}

/// A place where a detached task parks its result for a later call.
pub struct Parked {
    pub result: Option<Result<String, String>>,
}

/// The parked result's text.
pub open spec fn parked_text(result: Option<Result<String, String>>) -> Option<
    Result<Seq<char>, Seq<char>>,
> {
    match result {
        Some(result) => Some(result_text(result)),
        None => None,
    }
}

impl View for Parked {
    type V = Option<Result<Seq<char>, Seq<char>>>;

    open spec fn view(&self) -> Option<Result<Seq<char>, Seq<char>>> {
        parked_text(self.result)
    }
}

impl Parked {
    /// A place with nothing in it.
    pub fn start() -> (parked: Self)
        ensures
            parked@ is None,
    {
        Parked { result: None }
    }

    /// Park what the detached pump's probe came to.
    pub fn pump_probed(&mut self, probed: Result<String, String>)
        ensures
            final(self)@ == Some(
                match probed {
                    Ok(detail) => Ok::<Seq<char>, Seq<char>>(
                        "block_on in detached pump (no export live): "@ + detail@,
                    ),
                    Err(text) => Err(text@),
                },
            ),
    {
        self.result = Some(
            match probed {
                Ok(detail) => Ok(
                    concat("block_on in detached pump (no export live): ", detail.as_str()),
                ),
                Err(text) => Err(text),
            },
        );
    }

    /// Park a stream's outcome.
    pub fn stream_ended(&mut self, outcome: String)
        ensures
            final(self)@ == Some(Ok::<Seq<char>, Seq<char>>(outcome@)),
    {
        self.result = Some(Ok(outcome));
    }

    /// Take the result, if it is there: it is handed out once.
    pub fn take(&mut self) -> (result: Option<Result<String, String>>)
        ensures
            parked_text(result) == old(self)@,
            final(self)@ is None,
    {
        self.result.take()
    }
}

/// A stream being written chunk by chunk.
#[derive(Clone, Copy)]
pub struct StreamJob {
    pub total: u32,
    pub chunk: u32,
    pub sent: u32,
}

/// What a stream's writer does next.
pub enum StreamStep {
    /// Write this many bytes, and report how many were left unwritten.
    Write(usize),
    /// The stream is over, with this outcome.
    Ended(String),
}

/// The length of the next chunk.
pub open spec fn next_len(job: StreamJob) -> int {
    if job.chunk <= job.total - job.sent {
        job.chunk as int
    } else {
        job.total - job.sent
    }
}

impl StreamJob {
    /// No more than everything has been sent.
    pub open spec fn wf(&self) -> bool {
        self.sent <= self.total
    }

    pub fn open_stream(total: u32, chunk: u32) -> (job: Self)
        ensures
            job.wf(),
            job.total == total,
            job.chunk == chunk,
            job.sent == 0,
    {
        StreamJob { total, chunk, sent: 0 }
    }

    /// The next chunk, or the end.
    pub fn next(&self) -> (step: StreamStep)
        requires
            self.wf(),
        ensures
            match step {
                StreamStep::Write(len) => self.sent < self.total && len == next_len(*self),
                StreamStep::Ended(text) => self.sent == self.total && text@ == "wrote all "@
                    + decimal(self.total as nat) + " bytes"@,
            },
    {
        if self.sent >= self.total {
            let total: String = decimal_string(self.total as u64);
            let mut text: String = concat("wrote all ", total.as_str());
            text.append(" bytes");
            return StreamStep::Ended(text);
        }
        let left: u32 = self.total - self.sent;
        let len: u32 = if self.chunk <= left {
            self.chunk
        } else {
            left
        };
        StreamStep::Write(len as usize)
    }

    /// The chunk was written but for its last `remaining` bytes: where any
    /// are left, the reader has stopped and the stream is over.
    pub fn on_written(&mut self, remaining: usize) -> (ended: Option<String>)
        requires
            old(self).wf(),
            old(self).sent < old(self).total,
            remaining <= next_len(*old(self)),
        ensures
            final(self).wf(),
            final(self).total == old(self).total,
            final(self).chunk == old(self).chunk,
            match ended {
                None => remaining == 0 && final(self).sent == old(self).sent + next_len(
                    *old(self),
                ),
                Some(text) => remaining > 0 && *final(self) == *old(self) && text@
                    == "reader stopped after "@ + decimal(
                    (old(self).sent + next_len(*old(self)) - remaining) as nat,
                ) + " bytes ("@ + decimal(remaining as nat) + " unwritten)"@,
            },
    {
        let left: u32 = self.total - self.sent;
        let len: u32 = if self.chunk <= left {
            self.chunk
        } else {
            left
        };
        if remaining > 0 {
            let written: u64 = self.sent as u64 + (len as u64 - remaining as u64);
            let count: String = decimal_string(written);
            let mut text: String = concat("reader stopped after ", count.as_str());
            text.append(" bytes (");
            let unwritten: String = decimal_string(remaining as u64);
            text.append(unwritten.as_str());
            text.append(" unwritten)");
            return Some(text);
        }
        self.sent = self.sent + len;
        None
    }
}

/// A stream that makes progress ends after its total, and never writes more.
pub proof fn chunks_add_up(job: StreamJob)
    requires
        job.wf(),
        job.sent < job.total,
        job.chunk > 0,
    ensures
        0 < next_len(job) <= job.chunk,
        job.sent < job.sent + next_len(job) <= job.total,
{
}

/// Count what a byte stream brought: `ended` says that it is over. Returns
/// the count at the end.
pub fn sink_stream(count: &mut u32, len: usize, ended: bool) -> (total: Option<u32>)
    requires
        *old(count) + len <= u32::MAX,
    ensures
        *final(count) == *old(count) + len,
        total == (if ended {
            Some(*final(count))
        } else {
            None
        }),
{
    *count = *count + len as u32;
    if ended {
        Some(*count)
    } else {
        None
    }
}

/// The next chunk is a whole one while that many bytes are left, and
/// everything that is left otherwise.
pub proof fn chunks_are_whole_but_the_last(job: StreamJob)
    requires
        job.wf(),
    ensures
        job.sent + job.chunk <= job.total ==> next_len(job) == job.chunk,
        job.sent + job.chunk > job.total ==> job.sent + next_len(job) == job.total,
{
}

/// A probe shows the first four bytes of the key in hexadecimal, or tells
/// which of its two calls failed.
pub proof fn probes_show_the_key_or_the_failure(raw: Vec<u8>, detail: String)
    requires
        raw@.len() >= 4,
    ensures
        probe_text(Ok(raw)) == Ok::<Seq<char>, Seq<char>>(
            "x25519 ok, pub[0..4]="@ + hex_text(seq![raw@[0], raw@[1], raw@[2], raw@[3]]),
        ),
        probe_text(Err(ProbeFailure::Generate(detail))) == Err::<Seq<char>, Seq<char>>(
            "x25519 generate: "@ + detail@,
        ),
        probe_text(Err(ProbeFailure::Export(detail))) == Err::<Seq<char>, Seq<char>>(
            "x25519 export: "@ + detail@,
        ),
{
    assert(raw@.take(4) =~= seq![raw@[0], raw@[1], raw@[2], raw@[3]]);
}

/// A parked result is seen whole.
pub proof fn parked_results_are_seen_whole(text: String)
    ensures
        result_text(Ok(text)) == Ok::<Seq<char>, Seq<char>>(text@),
        result_text(Err(text)) == Err::<Seq<char>, Seq<char>>(text@),
        parked_text(None) is None,
        parked_text(Some(Ok(text))) == Some(Ok::<Seq<char>, Seq<char>>(text@)),
        parked_text(Some(Err(text))) == Some(Err::<Seq<char>, Seq<char>>(text@)),
{
}

/// The probes' times, their byte, and the text about a task that went away.
pub proof fn numbers_of_the_probes()
    ensures
        PUMP_DELAY_NS == 50_000_000,
        POLL_NS == 10_000_000,
        FILL == 0x42,
        SENDER_DROPPED@ == "spawned task dropped its sender"@,
{
}

} // verus!
