//! The UDP wake probe: echo datagrams, count ticks, and end on "quit".

use crate::addr::SocketAddr;
use crate::bytes::same_bytes;
use crate::text::concat;
use crate::text::decimal;
use crate::text::decimal_string;
use vstd::prelude::*;
use vstd::string::*;

verus! {

/// The largest datagram taken off the socket.
pub const RECV_BUFFER: usize = 2048;

/// How many datagrams wait for the echo at most.
pub const CHANNEL_CAP: usize = 64;

/// The tick's period in milliseconds.
pub const TICK_MS: u64 = 200;

/// The last sleep in milliseconds.
pub const FINAL_SLEEP_MS: u64 = 50;

/// The probe's address: 127.0.0.1:7777.
pub fn bind_addr() -> (addr: SocketAddr)
    ensures
        addr == (SocketAddr::V4 { ip: 0x7f00_0001, port: 7777 }),
{
    SocketAddr::V4 { ip: 0x7f00_0001, port: 7777 }
}

/// The datagram that ends the probe.
pub open spec fn quit_bytes() -> Seq<u8> {
    seq![113u8, 117, 105, 116]
}

/// Whether a datagram ends the probe; every other one is echoed.
pub fn is_quit(datagram: &[u8]) -> (quit: bool)
    ensures
        quit == (datagram@ == quit_bytes()),
{
    let quit: [u8; 4] = [113, 117, 105, 116];
    assert(quit@ =~= quit_bytes());
    same_bytes(datagram, quit.as_slice())
}

/// What the probe has counted.
#[derive(Clone, Copy, PartialEq, Eq, Structural)]
pub struct Counters {
    pub ticks: u32,
    pub echoed: u32,
}

impl Counters {
    pub fn new() -> (counters: Self)
        ensures
            counters == (Counters { ticks: 0, echoed: 0 }),
    {
        Counters { ticks: 0, echoed: 0 }
    }

    /// A datagram was echoed.
    pub fn on_echo(&mut self)
        requires
            old(self).echoed < u32::MAX,
        ensures
            *final(self) == (Counters { echoed: (old(self).echoed + 1) as u32, ..*old(self) }),
    {
        self.echoed = self.echoed + 1;
    }

    /// The tick fired: the line that says so.
    pub fn on_tick(&mut self) -> (line: String)
        requires
            old(self).ticks < u32::MAX,
        ensures
            *final(self) == (Counters { ticks: (old(self).ticks + 1) as u32, ..*old(self) }),
            line@ == "guest: tick "@ + decimal(final(self).ticks as nat),
    {
        self.ticks = self.ticks + 1;
        let number: String = decimal_string(self.ticks as u64);
        concat("guest: tick ", number.as_str())
    }

    /// The line that ends the probe.
    pub fn done_line(&self) -> (line: String)
        ensures
            line@ == "guest: done echoed="@ + decimal(self.echoed as nat) + " ticks="@ + decimal(
                self.ticks as nat,
            ),
    {
        let echoed: String = decimal_string(self.echoed as u64);
        let mut line: String = concat("guest: done echoed=", echoed.as_str());
        line.append(" ticks=");
        let ticks: String = decimal_string(self.ticks as u64);
        line.append(ticks.as_str());
        line
    }
}

/// The line about the last sleep.
pub fn sleep_line(took_ms: u64) -> (line: String)
    ensures
        line@ == "guest: final sleep 50ms took "@ + decimal(took_ms as nat) + "ms"@,
{
    let took: String = decimal_string(took_ms);
    let mut line: String = concat("guest: final sleep 50ms took ", took.as_str());
    line.append("ms");
    line
}

/// The datagram that ends the probe spells "quit".
pub proof fn quit_is_spelled()
    ensures
        quit_bytes().len() == "quit"@.len(),
        forall|i: int| 0 <= i < 4 ==> quit_bytes()[i] as int == #[trigger] "quit"@[i] as int,
{
    reveal_strlit("quit");
}

/// The probe's times and limits.
pub proof fn numbers_of_the_probe()
    ensures
        RECV_BUFFER == 2048,
        CHANNEL_CAP == 64,
        TICK_MS == 200,
        FINAL_SLEEP_MS == 50,
{
}

} // verus!
