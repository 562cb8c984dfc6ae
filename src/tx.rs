//! The transmit state machine: it hands out the bytes of consecutive packets.
use crate::counter::{bytes_of_index, next_index, pow255, valid_width, Counter};
use crate::packet::{
    buf_as_slice, buf_contents, buf_new, encode_packet, packet_of, PacketBuf, MAX_PACKET_SIZE,
};
use vstd::prelude::*;

verus! {

/// The transmit state, as a mathematical value.
pub struct TxModel {
    /// Width of the counters, in bytes.
    pub width: nat,
    /// Whether packets carry a CRC.
    pub checksum_enabled: bool,
    /// Index of the counter whose packet comes next.
    pub next: nat,
    /// The bytes of the current packet that are still to be sent.
    pub pending: Seq<u8>,
}

/// The transmit state with a packet ready: when nothing is pending, the packet
/// of the next counter becomes pending and the counter advances.
pub open spec fn tx_ready(m: TxModel) -> TxModel {
    if m.pending.len() > 0 {
        m
    } else {
        TxModel {
            pending: packet_of(bytes_of_index(m.width, m.next), m.checksum_enabled),
            next: next_index(m.width, m.next),
            ..m
        }
    }
}

/// A fresh transmit state: the first packet is that of the smallest counter.
pub open spec fn tx_fresh(width: nat, checksum_enabled: bool) -> TxModel {
    TxModel { width, checksum_enabled, next: 0, pending: Seq::empty() }
}

/// The transmit state machine of the counting test.
pub struct TxState {
    counter: Counter,
    packet: PacketBuf,
    sent: usize,
    checksum_enabled: bool,
}

impl TxState {
    pub closed spec fn model(&self) -> TxModel {
        let contents = buf_contents(self.packet);
        TxModel {
            width: self.counter.width_spec(),
            checksum_enabled: self.checksum_enabled,
            next: self.counter.index_spec(),
            pending: contents.subrange(self.sent as int, contents.len() as int),
        }
    }

    pub closed spec fn wf(&self) -> bool {
        &&& self.counter.wf()
        &&& self.sent <= buf_contents(self.packet).len()
        &&& buf_contents(self.packet).len() <= MAX_PACKET_SIZE
    }

    fn with_checksum(width: usize, checksum_enabled: bool) -> (r: TxState)
        requires
            valid_width(width as nat),
        ensures
            r.wf(),
            r.model() == tx_fresh(width as nat, checksum_enabled),
    {
        let r = TxState {
            counter: Counter::min_counter(width),
            packet: buf_new(),
            sent: 0,
            checksum_enabled,
        };
        assert(r.model().pending =~= Seq::<u8>::empty());
        r
    }

    /// A transmitter of counters of `width` bytes whose packets carry a CRC.
    pub fn new(width: usize) -> (r: TxState)
        requires
            valid_width(width as nat),
        ensures
            r.wf(),
            r.model() == tx_fresh(width as nat, true),
    {
        Self::with_checksum(width, true)
    }

    /// A transmitter of counters of `width` bytes whose packets carry no CRC.
    pub fn new_without_checksum(width: usize) -> (r: TxState)
        requires
            valid_width(width as nat),
        ensures
            r.wf(),
            r.model() == tx_fresh(width as nat, false),
    {
        Self::with_checksum(width, false)
    }

    /// Starts again from the smallest counter, dropping what is pending.
    pub fn reset(&mut self)
        requires
            old(self).wf(),
        ensures
            final(self).wf(),
            final(self).model() == tx_fresh(
                old(self).model().width,
                old(self).model().checksum_enabled,
            ),
    {
        let width = self.counter.width();
        *self = Self::with_checksum(width, self.checksum_enabled);
    }

    /// The next byte to send; prepares the next packet when the current one is
    /// all sent.
    pub fn peek(&mut self) -> (r: u8)
        requires
            old(self).wf(),
        ensures
            final(self).wf(),
            final(self).model() == tx_ready(old(self).model()),
            final(self).model().pending.len() > 0,
            r == final(self).model().pending[0],
    {
        if self.sent >= buf_as_slice(&self.packet).len() {
            self.packet = encode_packet(&self.counter, self.checksum_enabled);
            self.counter = self.counter.next();
            self.sent = 0;
            assert(self.model().pending =~= buf_contents(self.packet));
        }
        buf_as_slice(&self.packet)[self.sent]
    }

    /// The next byte to send, which is then no longer pending.
    pub fn take(&mut self) -> (r: u8)
        requires
            old(self).wf(),
        ensures
            final(self).wf(),
            r == tx_ready(old(self).model()).pending[0],
            final(self).model() == (TxModel {
                pending: tx_ready(old(self).model()).pending.drop_first(),
                ..tx_ready(old(self).model())
            }),
    {
        let out = self.peek();
        let ghost before = self.model();
        self.sent = self.sent + 1;
        assert(self.model().pending =~= before.pending.drop_first());
        out
    }
}

} // verus!
