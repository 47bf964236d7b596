//! Session counters: monotonically increasing operational metrics.
//!
//! Pure observation points — nothing in the core reads them back to make a
//! decision. Each is written by exactly one producer role: the network loop
//! counts datagrams sent and received and the blocks carrying detected
//! audio, the capture callback counts its own invocations. The session
//! runtime shares one `Counters` value between those roles and any
//! observer, and resets it when a new connection starts.

use vstd::prelude::*;

verus! {

/// A counter after one more event, wrapping at the 64-bit bound.
pub open spec fn bump(c: u64) -> u64 {
    if c == u64::MAX {
        0
    } else {
        (c + 1) as u64
    }
}

/// The session's operational metrics.
pub struct Counters {
    /// Datagrams handed to the send socket.
    pub packets_sent: u64,
    /// Datagrams taken from the receive socket.
    pub packets_recv: u64,
    /// Outbound blocks whose samples exceeded the audio threshold.
    pub packets_sent_with_audio: u64,
    /// Inbound datagrams whose samples exceeded the audio threshold.
    pub packets_recv_with_audio: u64,
    /// Invocations of the capture callback.
    pub audio_callbacks: u64,
}

impl Counters {
    /// All metrics zero.
    pub open spec fn spec_zeroed(&self) -> bool {
        self.packets_sent == 0 && self.packets_recv == 0 && self.packets_sent_with_audio == 0
            && self.packets_recv_with_audio == 0 && self.audio_callbacks == 0
    }

    /// A fresh, zeroed counter set.
    pub fn new() -> (c: Counters)
        ensures
            c.spec_zeroed(),
    {
        Counters {
            packets_sent: 0,
            packets_recv: 0,
            packets_sent_with_audio: 0,
            packets_recv_with_audio: 0,
            audio_callbacks: 0,
        }
    }

    /// Zero every metric, as a new connection does.
    pub fn reset(&mut self)
        ensures
            final(self).spec_zeroed(),
    {
        self.packets_sent = 0;
        self.packets_recv = 0;
        self.packets_sent_with_audio = 0;
        self.packets_recv_with_audio = 0;
        self.audio_callbacks = 0;
    }

    /// Count one datagram handed to the send socket.
    pub fn record_packet_sent(&mut self)
        ensures
            *final(self) == (Counters { packets_sent: bump(old(self).packets_sent), ..*old(self) }),
    {
        self.packets_sent = self.packets_sent.wrapping_add(1);
    }

    /// Count one datagram taken from the receive socket.
    pub fn record_packet_recv(&mut self)
        ensures
            *final(self) == (Counters { packets_recv: bump(old(self).packets_recv), ..*old(self) }),
    {
        self.packets_recv = self.packets_recv.wrapping_add(1);
    }

    /// Count one outbound block that carried detected audio.
    pub fn record_sent_with_audio(&mut self)
        ensures
            *final(self) == (Counters {
                packets_sent_with_audio: bump(old(self).packets_sent_with_audio),
                ..*old(self)
            }),
    {
        self.packets_sent_with_audio = self.packets_sent_with_audio.wrapping_add(1);
    }

    /// Count one inbound datagram that carried detected audio.
    pub fn record_recv_with_audio(&mut self)
        ensures
            *final(self) == (Counters {
                packets_recv_with_audio: bump(old(self).packets_recv_with_audio),
                ..*old(self)
            }),
    {
        self.packets_recv_with_audio = self.packets_recv_with_audio.wrapping_add(1);
    }

    /// Count one invocation of the capture callback.
    pub fn record_audio_callback(&mut self)
        ensures
            *final(self) == (Counters {
                audio_callbacks: bump(old(self).audio_callbacks),
                ..*old(self)
            }),
    {
        self.audio_callbacks = self.audio_callbacks.wrapping_add(1);
    }
}

} // verus!
