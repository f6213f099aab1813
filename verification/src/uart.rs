//! Transport facade and interrupt-handler logic.
//!
//! The facade pairs a transmit and a receive ring buffer with the direction
//! arbiter and exposes the byte-stream surface the split-protocol layer
//! consumes: `read`, `write`, `flush`. Suspension, interrupt entry, timers
//! and the coprocessor's registers live outside the library: the caller
//! performs them and feeds the outcome back in as plain values — the bytes
//! found in the hardware receive queue, which interrupt flag fired, whether
//! the transmit hardware queue has drained.
//!
//! Each operation has one suspension point and one wake source, and at most
//! one waiter may be outstanding at a time: the wake registration holds a
//! single reader. Two tasks reading concurrently is not supported.
//!
//! The only reported error class is the framing violation: detected in
//! hardware, recorded by the interrupt handler, and surfaced to the reader
//! exactly once as a transient, retryable outcome — no buffered byte is
//! lost, since the corrupt byte was never buffered.

use crate::arbiter::{rx_program_enabled, Arbiter, DirectionState};
use crate::frame::{decode_frames, frames_of};
use crate::ring::{
    accept_count, copy_count, drain_reads, read_result, ring_after_read, ring_after_write, sum_of,
    RingBuffer,
};
use vstd::prelude::*;

verus! {

broadcast use crate::ring::RingBuffer::lemma_pending_le_cap;

/// The fixed line rate of the transport, in bits per second.
pub const BAUD_RATE: u32 = 115_200;

/// Marker for the binding of the coprocessor's interrupt line to the
/// transport's interrupt handler; holding one asserts that the handler the
/// transport relies on is the one the interrupt is routed to.
pub struct IrqBinding;

/// Divider the serializer programs run the coprocessor clock through so that
/// eight coprocessor cycles last one bit period: the system clock over eight
/// times the baud rate.
pub fn clock_divider(sys_freq: u32) -> (r: u32)
    ensures
        r == sys_freq as int / (8 * BAUD_RATE as int),
{
    sys_freq / (BAUD_RATE * 8)
}

/// Length of the post-transmit settle interval in microseconds: the time of
/// eleven bit periods at the configured baud rate, one more than a full
/// frame, so the peer has certainly stopped expecting a continuation bit
/// before reception is re-armed.
pub fn turnaround_delay_micros() -> (r: u64)
    ensures
        r == 11_000_000int / (BAUD_RATE as int),
{
    ((1_000_000u32 * 11) / BAUD_RATE) as u64
}

/// The shared state the interrupt handler and the task-side facade both
/// touch: one ring buffer per direction, the registration of a suspended
/// reader waiting to be woken, and the record of a framing violation not yet
/// surfaced to the reader.
pub struct UartBuffer {
    buf_tx: RingBuffer,
    buf_rx: RingBuffer,
    waker_rx: bool,
    framing_error: bool,
}

impl UartBuffer {
    /// Bytes enqueued for transmission, oldest first.
    pub closed spec fn tx_pending(self) -> Seq<u8> {
        self.buf_tx.pending()
    }

    /// Bytes received and not yet read, oldest first.
    pub closed spec fn rx_pending(self) -> Seq<u8> {
        self.buf_rx.pending()
    }

    /// Capacity of the transmit ring buffer.
    pub closed spec fn tx_cap(self) -> nat {
        self.buf_tx.cap()
    }

    /// Capacity of the receive ring buffer.
    pub closed spec fn rx_cap(self) -> nat {
        self.buf_rx.cap()
    }

    /// Whether a suspended reader is registered for a wake-up.
    pub closed spec fn reader_waiting(self) -> bool {
        self.waker_rx
    }

    /// Whether a framing violation was signalled and not yet surfaced to the
    /// reader.
    pub closed spec fn framing_error_pending(self) -> bool {
        self.framing_error
    }

    /// Both ring buffers are well formed.
    pub closed spec fn wf(self) -> bool {
        self.buf_tx.wf() && self.buf_rx.wf()
    }

    /// Fresh buffers of the given capacities, with no reader waiting and no
    /// error recorded.
    pub fn new(tx_capacity: usize, rx_capacity: usize) -> (r: UartBuffer)
        ensures
            r.wf(),
            r.tx_cap() == tx_capacity,
            r.rx_cap() == rx_capacity,
            r.tx_pending() == Seq::<u8>::empty(),
            r.rx_pending() == Seq::<u8>::empty(),
            !r.reader_waiting(),
            !r.framing_error_pending(),
    {
        UartBuffer {
            buf_tx: RingBuffer::new(tx_capacity),
            buf_rx: RingBuffer::new(rx_capacity),
            waker_rx: false,
            framing_error: false,
        }
    }
}

/// The two hardware conditions the receive serializer program signals.
#[derive(Clone, Copy, Debug, PartialEq, Eq, Structural)]
pub enum IrqEvent {
    /// The hardware receive queue holds at least one completed byte.
    RxDataReady,
    /// An invalid stop bit was detected; the byte was discarded in hardware.
    RxFramingError,
}

/// What the interrupt handler decided: how many bytes it moved out of the
/// hardware receive queue, whether the suspended reader must be woken, and
/// whether the framing-error flag must be cleared and reception re-armed.
pub struct IrqOutcome {
    pub bytes_taken: usize,
    pub wake_reader: bool,
    pub clear_framing_error: bool,
}

/// The interrupt handler. It runs with this interrupt source masked and must
/// not block, so it only moves bytes between queues and records decisions;
/// the caller performs the hardware writes the outcome asks for.
pub struct UartInterruptHandler;

impl UartInterruptHandler {
    /// Handles one interrupt. `hw_queue` is the content of the hardware
    /// receive queue, oldest byte first.
    ///
    /// On `RxDataReady` the handler moves bytes from the hardware queue into
    /// the receive ring buffer while there is room — bytes that do not fit
    /// stay in the hardware queue for the next interrupt — and has the
    /// reader woken exactly when it moved at least one byte. On
    /// `RxFramingError` it touches neither ring: the corrupt byte never
    /// existed in either queue. It records the violation so the next read
    /// poll surfaces it once as a transient error, and asks the caller to
    /// clear the hardware flag and re-arm.
    pub fn on_interrupt(buffer: &mut UartBuffer, event: IrqEvent, hw_queue: &[u8]) -> (r:
        IrqOutcome)
        requires
            old(buffer).wf(),
        ensures
            final(buffer).wf(),
            final(buffer).tx_cap() == old(buffer).tx_cap(),
            final(buffer).rx_cap() == old(buffer).rx_cap(),
            final(buffer).tx_pending() == old(buffer).tx_pending(),
            event is RxDataReady ==> r.bytes_taken == accept_count(
                hw_queue@.len() as int,
                old(buffer).rx_pending().len() as int,
                old(buffer).rx_cap() as int,
            ),
            event is RxDataReady ==> final(buffer).rx_pending() == ring_after_write(
                old(buffer).rx_pending(),
                old(buffer).rx_cap() as int,
                hw_queue@,
            ),
            event is RxDataReady ==> r.wake_reader == (r.bytes_taken > 0),
            event is RxDataReady ==> !r.clear_framing_error,
            event is RxDataReady ==> final(buffer).reader_waiting() == (old(buffer).reader_waiting() && r.bytes_taken == 0),
            event is RxDataReady ==> final(buffer).framing_error_pending() == old(buffer).framing_error_pending(),
            event is RxFramingError ==> final(buffer).rx_pending() == old(buffer).rx_pending(),
            event is RxFramingError ==> final(buffer).reader_waiting() == old(buffer).reader_waiting(),
            event is RxFramingError ==> final(buffer).framing_error_pending(),
            event is RxFramingError ==> r.bytes_taken == 0 && !r.wake_reader
                && r.clear_framing_error,
    {
        match event {
            IrqEvent::RxDataReady => {
                let n = buffer.buf_rx.write(hw_queue);
                let wake = n > 0;
                if wake {
                    buffer.waker_rx = false;
                }
                IrqOutcome { bytes_taken: n, wake_reader: wake, clear_framing_error: false }
            },
            IrqEvent::RxFramingError => {
                buffer.framing_error = true;
                IrqOutcome { bytes_taken: 0, wake_reader: false, clear_framing_error: true }
            },
        }
    }
}

/// What one poll of `read` decided.
pub enum ReadPoll {
    /// At least the returned bytes were pending (or the request was empty):
    /// the call completes with them.
    Ready(Vec<u8>),
    /// Nothing is pending: the caller must suspend until the interrupt
    /// handler wakes it, then poll again.
    Pending,
    /// A framing violation was signalled since the previous poll. It is
    /// surfaced exactly once, as a transient condition: no buffered byte was
    /// lost, and a retried read returns them unchanged.
    FramingError,
}

/// The half-duplex transport: the paired ring buffers plus the direction
/// arbiter for the single shared wire.
pub struct HalfDuplexUart {
    buffer: UartBuffer,
    arbiter: Arbiter,
}

impl HalfDuplexUart {
    /// Bytes enqueued for transmission, oldest first.
    pub closed spec fn tx_pending(self) -> Seq<u8> {
        self.buffer.tx_pending()
    }

    /// Bytes received and not yet read, oldest first.
    pub closed spec fn rx_pending(self) -> Seq<u8> {
        self.buffer.rx_pending()
    }

    /// Capacity of the transmit ring buffer.
    pub closed spec fn tx_cap(self) -> nat {
        self.buffer.tx_cap()
    }

    /// Capacity of the receive ring buffer.
    pub closed spec fn rx_cap(self) -> nat {
        self.buffer.rx_cap()
    }

    /// Whether a suspended reader is registered for a wake-up.
    pub closed spec fn reader_waiting(self) -> bool {
        self.buffer.reader_waiting()
    }

    /// Whether a framing violation was signalled and not yet surfaced to the
    /// reader.
    pub closed spec fn framing_error_pending(self) -> bool {
        self.buffer.framing_error_pending()
    }

    /// The direction arbiter's state.
    pub closed spec fn state(self) -> DirectionState {
        self.arbiter.state()
    }

    /// Both ring buffers are well formed.
    pub closed spec fn wf(self) -> bool {
        self.buffer.wf()
    }

    /// A fresh transport: empty buffers, receive program armed.
    pub fn new(tx_capacity: usize, rx_capacity: usize) -> (r: HalfDuplexUart)
        ensures
            r.wf(),
            r.tx_cap() == tx_capacity,
            r.rx_cap() == rx_capacity,
            r.tx_pending() == Seq::<u8>::empty(),
            r.rx_pending() == Seq::<u8>::empty(),
            !r.reader_waiting(),
            !r.framing_error_pending(),
            r.state() == DirectionState::IdleReceiving,
    {
        HalfDuplexUart { buffer: UartBuffer::new(tx_capacity, rx_capacity), arbiter: Arbiter::new() }
    }

    /// Reads the arbiter's current state.
    pub fn direction(&self) -> (s: DirectionState)
        ensures
            s == self.state(),
    {
        self.arbiter.current()
    }

    /// One poll of the asynchronous read. A request for zero bytes completes
    /// at once with nothing and registers nothing. A recorded framing
    /// violation is surfaced first, exactly once — the poll reports it,
    /// clears the record and touches no buffered byte, so the retry returns
    /// the buffered bytes unchanged. Otherwise, with nothing pending the
    /// caller must suspend — a reader is registered for the wake-up — and
    /// with bytes pending the poll completes with up to `max` of the oldest,
    /// in order.
    pub fn try_read(&mut self, max: usize) -> (r: ReadPoll)
        requires
            old(self).wf(),
        ensures
            final(self).wf(),
            final(self).tx_cap() == old(self).tx_cap(),
            final(self).rx_cap() == old(self).rx_cap(),
            final(self).tx_pending() == old(self).tx_pending(),
            final(self).state() == old(self).state(),
            max == 0 ==> *final(self) == *old(self),
            max == 0 ==> (r matches ReadPoll::Ready(v) && v@ == Seq::<u8>::empty()),
            max > 0 && old(self).framing_error_pending() ==> r is FramingError,
            max > 0 && old(self).framing_error_pending() ==> final(self).rx_pending() == old(self).rx_pending() && final(self).reader_waiting() == old(self).reader_waiting()
                && !final(self).framing_error_pending(),
            max > 0 && !old(self).framing_error_pending() ==> final(self).framing_error_pending()
                == old(self).framing_error_pending(),
            max > 0 && !old(self).framing_error_pending() && old(self).rx_pending().len() == 0
                ==> r is Pending,
            max > 0 && !old(self).framing_error_pending() && old(self).rx_pending().len() == 0
                ==> final(self).rx_pending() == old(self).rx_pending() && final(self).reader_waiting(),
            max > 0 && !old(self).framing_error_pending() && old(self).rx_pending().len() > 0 ==> (
            r matches ReadPoll::Ready(v) && v@ == read_result(old(self).rx_pending(), max as int)
                && v@.len() > 0),
            max > 0 && !old(self).framing_error_pending() && old(self).rx_pending().len() > 0
                ==> final(self).rx_pending() == ring_after_read(old(self).rx_pending(), max as int)
                && final(self).reader_waiting() == old(self).reader_waiting(),
    {
        if max == 0 {
            return ReadPoll::Ready(Vec::new());
        }
        if self.buffer.framing_error {
            self.buffer.framing_error = false;
            return ReadPoll::FramingError;
        }
        if self.buffer.buf_rx.available() == 0 {
            self.buffer.waker_rx = true;
            return ReadPoll::Pending;
        }
        let v = self.buffer.buf_rx.read(max);
        ReadPoll::Ready(v)
    }

    /// Enqueues as much of `bytes` as fits into the transmit ring buffer and
    /// reports how much that was. Touches neither the receive side nor the
    /// arbiter.
    pub fn write_ring(&mut self, bytes: &[u8]) -> (n: usize)
        requires
            old(self).wf(),
        ensures
            final(self).wf(),
            final(self).tx_cap() == old(self).tx_cap(),
            final(self).rx_cap() == old(self).rx_cap(),
            final(self).rx_pending() == old(self).rx_pending(),
            final(self).state() == old(self).state(),
            final(self).reader_waiting() == old(self).reader_waiting(),
            final(self).framing_error_pending() == old(self).framing_error_pending(),
            n == accept_count(
                bytes@.len() as int,
                old(self).tx_pending().len() as int,
                old(self).tx_cap() as int,
            ),
            final(self).tx_pending() == ring_after_write(
                old(self).tx_pending(),
                old(self).tx_cap() as int,
                bytes@,
            ),
    {
        self.buffer.buf_tx.write(bytes)
    }

    /// Disables the receive program and enables the transmit program: the
    /// arbiter leaves its resting state to let a transmission drive the wire.
    pub fn enable_sm_tx(&mut self)
        requires
            old(self).wf(),
            old(self).state() == DirectionState::IdleReceiving,
        ensures
            final(self).wf(),
            final(self).state() == DirectionState::Transmitting,
            final(self).tx_cap() == old(self).tx_cap(),
            final(self).rx_cap() == old(self).rx_cap(),
            final(self).tx_pending() == old(self).tx_pending(),
            final(self).rx_pending() == old(self).rx_pending(),
            final(self).reader_waiting() == old(self).reader_waiting(),
            final(self).framing_error_pending() == old(self).framing_error_pending(),
    {
        self.arbiter.begin_transmit();
    }

    /// Takes everything pending in the transmit ring buffer, oldest first:
    /// the bytes the enabled transmit program is to shift onto the wire, in
    /// exactly this order. Only a transport in `Transmitting` may drive the
    /// wire, so only there may these bytes be taken.
    pub fn write_fifo(&mut self) -> (out: Vec<u8>)
        requires
            old(self).wf(),
            old(self).state() == DirectionState::Transmitting,
        ensures
            final(self).wf(),
            final(self).tx_cap() == old(self).tx_cap(),
            final(self).rx_cap() == old(self).rx_cap(),
            final(self).rx_pending() == old(self).rx_pending(),
            final(self).state() == old(self).state(),
            final(self).reader_waiting() == old(self).reader_waiting(),
            final(self).framing_error_pending() == old(self).framing_error_pending(),
            out@ == old(self).tx_pending(),
            final(self).tx_pending() == Seq::<u8>::empty(),
    {
        let avail = self.buffer.buf_tx.available();
        let ghost p = self.buffer.buf_tx.pending();
        let out = self.buffer.buf_tx.read(avail);
        proof {
            assert(out@ =~= p);
            assert(self.buffer.buf_tx.pending() =~= Seq::<u8>::empty());
        }
        out
    }

    /// Re-arms reception after a transmission: once the transmit hardware
    /// queue has drained, the arbiter passes through the turnaround window —
    /// neither program driving the wire — and only after the returned settle
    /// interval, in microseconds, is the receive program enabled again.
    pub fn enable_sm_rx(&mut self) -> (wait_micros: u64)
        requires
            old(self).wf(),
            old(self).state() == DirectionState::Transmitting,
        ensures
            final(self).wf(),
            final(self).state() == DirectionState::IdleReceiving,
            rx_program_enabled(final(self).state()),
            final(self).tx_cap() == old(self).tx_cap(),
            final(self).rx_cap() == old(self).rx_cap(),
            final(self).tx_pending() == old(self).tx_pending(),
            final(self).rx_pending() == old(self).rx_pending(),
            final(self).reader_waiting() == old(self).reader_waiting(),
            final(self).framing_error_pending() == old(self).framing_error_pending(),
            wait_micros == 11_000_000int / (BAUD_RATE as int),
    {
        self.arbiter.transmit_done();
        self.arbiter.turnaround_done();
        turnaround_delay_micros()
    }

    /// The whole write cycle, as the caller observes it once the call
    /// completes. An empty request returns zero at once and alters nothing,
    /// the arbiter state included. Otherwise: the longest prefix of `bytes`
    /// that fits is enqueued — the returned count tells the caller how much —
    /// the arbiter transmits, everything enqueued is shifted out (the second
    /// component, in wire order), and the arbiter is driven through
    /// turnaround back to `IdleReceiving`, so the line is ready to receive by
    /// the time the call returns. The third component is the settle interval
    /// in microseconds that the embedding waits between the last wire byte
    /// leaving the hardware queue and treating reception as re-armed — the
    /// same interval `enable_sm_rx` and `flush` report.
    pub fn write_buffer(&mut self, bytes: &[u8]) -> (r: (usize, Vec<u8>, u64))
        requires
            old(self).wf(),
            bytes@.len() > 0 ==> old(self).state() == DirectionState::IdleReceiving,
        ensures
            final(self).wf(),
            final(self).tx_cap() == old(self).tx_cap(),
            final(self).rx_cap() == old(self).rx_cap(),
            final(self).rx_pending() == old(self).rx_pending(),
            final(self).reader_waiting() == old(self).reader_waiting(),
            final(self).framing_error_pending() == old(self).framing_error_pending(),
            r.0 == accept_count(
                bytes@.len() as int,
                old(self).tx_pending().len() as int,
                old(self).tx_cap() as int,
            ),
            bytes@.len() == 0 ==> *final(self) == *old(self) && r.1@ == Seq::<u8>::empty()
                && r.2 == 0,
            bytes@.len() > 0 ==> r.1@ == old(self).tx_pending() + bytes@.take(r.0 as int),
            bytes@.len() > 0 ==> final(self).tx_pending() == Seq::<u8>::empty(),
            bytes@.len() > 0 ==> r.2 == 11_000_000int / (BAUD_RATE as int),
            old(self).state() == DirectionState::IdleReceiving ==> final(self).state()
                == DirectionState::IdleReceiving,
    {
        if bytes.len() == 0 {
            return (0, Vec::new(), 0);
        }
        let n = self.write_ring(bytes);
        self.enable_sm_tx();
        let out = self.write_fifo();
        let wait = self.enable_sm_rx();
        (n, out, wait)
    }

    /// The flush decision: given whether the transmit hardware queue has
    /// drained, how many microseconds the caller must still wait before the
    /// line is certainly quiet. Nothing in the transport changes.
    pub fn flush(&self, tx_fifo_empty: bool) -> (wait_micros: u64)
        ensures
            tx_fifo_empty ==> wait_micros == 0,
            !tx_fifo_empty ==> wait_micros == 11_000_000int / (BAUD_RATE as int),
    {
        if tx_fifo_empty {
            0
        } else {
            turnaround_delay_micros()
        }
    }

    /// Runs the interrupt handler against this transport's shared buffers.
    pub fn handle_interrupt(&mut self, event: IrqEvent, hw_queue: &[u8]) -> (r: IrqOutcome)
        requires
            old(self).wf(),
        ensures
            final(self).wf(),
            final(self).tx_cap() == old(self).tx_cap(),
            final(self).rx_cap() == old(self).rx_cap(),
            final(self).tx_pending() == old(self).tx_pending(),
            final(self).state() == old(self).state(),
            event is RxDataReady ==> r.bytes_taken == accept_count(
                hw_queue@.len() as int,
                old(self).rx_pending().len() as int,
                old(self).rx_cap() as int,
            ),
            event is RxDataReady ==> final(self).rx_pending() == ring_after_write(
                old(self).rx_pending(),
                old(self).rx_cap() as int,
                hw_queue@,
            ),
            event is RxDataReady ==> r.wake_reader == (r.bytes_taken > 0),
            event is RxDataReady ==> !r.clear_framing_error,
            event is RxDataReady ==> final(self).reader_waiting() == (old(self).reader_waiting()
                && r.bytes_taken == 0),
            event is RxDataReady ==> final(self).framing_error_pending() == old(self).framing_error_pending(),
            event is RxFramingError ==> final(self).rx_pending() == old(self).rx_pending(),
            event is RxFramingError ==> final(self).reader_waiting() == old(self).reader_waiting(),
            event is RxFramingError ==> final(self).framing_error_pending(),
            event is RxFramingError ==> r.bytes_taken == 0 && !r.wake_reader
                && r.clear_framing_error,
    {
        UartInterruptHandler::on_interrupt(&mut self.buffer, event, hw_queue)
    }
}

/// The byte-stream surface handed to the split-protocol layer.
pub struct BufferedHalfDuplexUart {
    uart: HalfDuplexUart,
}

impl BufferedHalfDuplexUart {
    /// Bytes enqueued for transmission, oldest first.
    pub closed spec fn tx_pending(self) -> Seq<u8> {
        self.uart.tx_pending()
    }

    /// Bytes received and not yet read, oldest first.
    pub closed spec fn rx_pending(self) -> Seq<u8> {
        self.uart.rx_pending()
    }

    /// Capacity of the transmit ring buffer.
    pub closed spec fn tx_cap(self) -> nat {
        self.uart.tx_cap()
    }

    /// Capacity of the receive ring buffer.
    pub closed spec fn rx_cap(self) -> nat {
        self.uart.rx_cap()
    }

    /// Whether a suspended reader is registered for a wake-up.
    pub closed spec fn reader_waiting(self) -> bool {
        self.uart.reader_waiting()
    }

    /// Whether a framing violation was signalled and not yet surfaced to the
    /// reader.
    pub closed spec fn framing_error_pending(self) -> bool {
        self.uart.framing_error_pending()
    }

    /// The direction arbiter's state.
    pub closed spec fn state(self) -> DirectionState {
        self.uart.state()
    }

    /// Both ring buffers are well formed.
    pub closed spec fn wf(self) -> bool {
        self.uart.wf()
    }

    /// A fresh transport over caller-chosen buffer capacities.
    pub fn new(tx_capacity: usize, rx_capacity: usize) -> (r: BufferedHalfDuplexUart)
        ensures
            r.wf(),
            r.tx_cap() == tx_capacity,
            r.rx_cap() == rx_capacity,
            r.tx_pending() == Seq::<u8>::empty(),
            r.rx_pending() == Seq::<u8>::empty(),
            !r.reader_waiting(),
            !r.framing_error_pending(),
            r.state() == DirectionState::IdleReceiving,
    {
        BufferedHalfDuplexUart { uart: HalfDuplexUart::new(tx_capacity, rx_capacity) }
    }

    /// Reads the arbiter's current state.
    pub fn direction(&self) -> (s: DirectionState)
        ensures
            s == self.state(),
    {
        self.uart.direction()
    }

    /// One poll of the asynchronous read; see `HalfDuplexUart::try_read`.
    /// The caller loops: on `Pending` it suspends until woken, then polls
    /// again; on `FramingError` — reported exactly once per recorded
    /// violation — it may simply retry, since no buffered byte was lost.
    pub fn read(&mut self, max: usize) -> (r: ReadPoll)
        requires
            old(self).wf(),
        ensures
            final(self).wf(),
            final(self).tx_cap() == old(self).tx_cap(),
            final(self).rx_cap() == old(self).rx_cap(),
            final(self).tx_pending() == old(self).tx_pending(),
            final(self).state() == old(self).state(),
            max == 0 ==> *final(self) == *old(self),
            max == 0 ==> (r matches ReadPoll::Ready(v) && v@ == Seq::<u8>::empty()),
            max > 0 && old(self).framing_error_pending() ==> r is FramingError,
            max > 0 && old(self).framing_error_pending() ==> final(self).rx_pending() == old(self).rx_pending() && final(self).reader_waiting() == old(self).reader_waiting()
                && !final(self).framing_error_pending(),
            max > 0 && !old(self).framing_error_pending() ==> final(self).framing_error_pending()
                == old(self).framing_error_pending(),
            max > 0 && !old(self).framing_error_pending() && old(self).rx_pending().len() == 0
                ==> r is Pending,
            max > 0 && !old(self).framing_error_pending() && old(self).rx_pending().len() == 0
                ==> final(self).rx_pending() == old(self).rx_pending() && final(self).reader_waiting(),
            max > 0 && !old(self).framing_error_pending() && old(self).rx_pending().len() > 0 ==> (
            r matches ReadPoll::Ready(v) && v@ == read_result(old(self).rx_pending(), max as int)
                && v@.len() > 0),
            max > 0 && !old(self).framing_error_pending() && old(self).rx_pending().len() > 0
                ==> final(self).rx_pending() == ring_after_read(old(self).rx_pending(), max as int)
                && final(self).reader_waiting() == old(self).reader_waiting(),
    {
        self.uart.try_read(max)
    }

    /// The whole write cycle; see `HalfDuplexUart::write_buffer`. The third
    /// component is the settle interval in microseconds the embedding waits
    /// before treating reception as re-armed.
    pub fn write(&mut self, bytes: &[u8]) -> (r: (usize, Vec<u8>, u64))
        requires
            old(self).wf(),
            bytes@.len() > 0 ==> old(self).state() == DirectionState::IdleReceiving,
        ensures
            final(self).wf(),
            final(self).tx_cap() == old(self).tx_cap(),
            final(self).rx_cap() == old(self).rx_cap(),
            final(self).rx_pending() == old(self).rx_pending(),
            final(self).reader_waiting() == old(self).reader_waiting(),
            final(self).framing_error_pending() == old(self).framing_error_pending(),
            r.0 == accept_count(
                bytes@.len() as int,
                old(self).tx_pending().len() as int,
                old(self).tx_cap() as int,
            ),
            bytes@.len() == 0 ==> *final(self) == *old(self) && r.1@ == Seq::<u8>::empty()
                && r.2 == 0,
            bytes@.len() > 0 ==> r.1@ == old(self).tx_pending() + bytes@.take(r.0 as int),
            bytes@.len() > 0 ==> final(self).tx_pending() == Seq::<u8>::empty(),
            bytes@.len() > 0 ==> r.2 == 11_000_000int / (BAUD_RATE as int),
            old(self).state() == DirectionState::IdleReceiving ==> final(self).state()
                == DirectionState::IdleReceiving,
    {
        self.uart.write_buffer(bytes)
    }

    /// The flush decision; see `HalfDuplexUart::flush`.
    pub fn flush(&self, tx_fifo_empty: bool) -> (wait_micros: u64)
        ensures
            tx_fifo_empty ==> wait_micros == 0,
            !tx_fifo_empty ==> wait_micros == 11_000_000int / (BAUD_RATE as int),
    {
        self.uart.flush(tx_fifo_empty)
    }

    /// Runs the interrupt handler against this transport's shared buffers;
    /// see `HalfDuplexUart::handle_interrupt`.
    pub fn handle_interrupt(&mut self, event: IrqEvent, hw_queue: &[u8]) -> (r: IrqOutcome)
        requires
            old(self).wf(),
        ensures
            final(self).wf(),
            final(self).tx_cap() == old(self).tx_cap(),
            final(self).rx_cap() == old(self).rx_cap(),
            final(self).tx_pending() == old(self).tx_pending(),
            final(self).state() == old(self).state(),
            event is RxDataReady ==> r.bytes_taken == accept_count(
                hw_queue@.len() as int,
                old(self).rx_pending().len() as int,
                old(self).rx_cap() as int,
            ),
            event is RxDataReady ==> final(self).rx_pending() == ring_after_write(
                old(self).rx_pending(),
                old(self).rx_cap() as int,
                hw_queue@,
            ),
            event is RxDataReady ==> r.wake_reader == (r.bytes_taken > 0),
            event is RxDataReady ==> !r.clear_framing_error,
            event is RxDataReady ==> final(self).reader_waiting() == (old(self).reader_waiting()
                && r.bytes_taken == 0),
            event is RxDataReady ==> final(self).framing_error_pending() == old(self).framing_error_pending(),
            event is RxFramingError ==> final(self).rx_pending() == old(self).rx_pending(),
            event is RxFramingError ==> final(self).reader_waiting() == old(self).reader_waiting(),
            event is RxFramingError ==> final(self).framing_error_pending(),
            event is RxFramingError ==> r.bytes_taken == 0 && !r.wake_reader
                && r.clear_framing_error,
    {
        self.uart.handle_interrupt(event, hw_queue)
    }
}

/// The concatenation of a run of byte sequences.
pub open spec fn concat_all(bs: Seq<Seq<u8>>) -> Seq<u8>
    decreases bs.len(),
{
    if bs.len() == 0 {
        Seq::empty()
    } else {
        bs[0] + concat_all(bs.skip(1))
    }
}

/// The total length of a run of byte sequences.
pub open spec fn total_len(bs: Seq<Seq<u8>>) -> int
    decreases bs.len(),
{
    if bs.len() == 0 {
        0
    } else {
        bs[0].len() + total_len(bs.skip(1))
    }
}

/// What a run of `write` calls drives onto the wire: each call finds the
/// transmit ring buffer drained by the one before, enqueues the longest
/// prefix of its argument that fits the capacity, and shifts exactly that
/// out.
pub open spec fn transmitted_all(bs: Seq<Seq<u8>>, cap: int) -> Seq<u8>
    decreases bs.len(),
{
    if bs.len() == 0 {
        Seq::empty()
    } else {
        bs[0].take(accept_count(bs[0].len() as int, 0, cap)) + transmitted_all(bs.skip(1), cap)
    }
}

/// A run of sequences is as long as its concatenation.
pub proof fn lemma_concat_len(bs: Seq<Seq<u8>>)
    ensures
        concat_all(bs).len() == total_len(bs),
    decreases bs.len(),
{
    if bs.len() > 0 {
        lemma_concat_len(bs.skip(1));
    }
}

/// Law: a run of `write` calls whose total length fits the transmit buffer
/// drives exactly the concatenation of its arguments onto the wire, whole
/// and in order.
pub proof fn lemma_writes_transmit_in_order(bs: Seq<Seq<u8>>, cap: int)
    requires
        total_len(bs) <= cap,
    ensures
        transmitted_all(bs, cap) == concat_all(bs),
    decreases bs.len(),
{
    if bs.len() > 0 {
        lemma_concat_len(bs.skip(1));
        lemma_writes_transmit_in_order(bs.skip(1), cap);
        assert(bs[0].take(bs[0].len() as int) =~= bs[0]);
    }
}

/// Law: writes totalling at most the transmit capacity reach the peer
/// exactly. The wire carries the concatenation of the written sequences; the
/// peer's interrupt handler feeds it into a receive buffer it fits into; and
/// the peer's reads, however split, concatenate to that same byte sequence.
pub proof fn lemma_transport_delivery(bs: Seq<Seq<u8>>, tx_cap: int, rx_cap: int, reqs: Seq<int>)
    requires
        total_len(bs) <= tx_cap,
        total_len(bs) <= rx_cap,
        forall|i: int| 0 <= i < reqs.len() ==> reqs[i] >= 0,
        sum_of(reqs) >= total_len(bs),
    ensures
        transmitted_all(bs, tx_cap) == concat_all(bs),
        drain_reads(
            ring_after_write(Seq::<u8>::empty(), rx_cap, transmitted_all(bs, tx_cap)),
            reqs,
        ) == concat_all(bs),
{
    lemma_writes_transmit_in_order(bs, tx_cap);
    lemma_concat_len(bs);
    let t = concat_all(bs);
    assert(ring_after_write(Seq::<u8>::empty(), rx_cap, t) =~= t);
    crate::ring::lemma_reads_deliver_in_order(t, reqs);
}

/// Law: the whole path reproduces the written bytes. Writes totalling at
/// most both capacities are driven onto the wire, cross it as frames,
/// are sampled back by the receive serializer, buffered by the interrupt
/// handler, and read out — and what the reads concatenate to is exactly the
/// concatenation of the writes.
pub proof fn lemma_end_to_end_delivery(bs: Seq<Seq<u8>>, tx_cap: int, rx_cap: int, reqs: Seq<int>)
    requires
        total_len(bs) <= tx_cap,
        total_len(bs) <= rx_cap,
        forall|i: int| 0 <= i < reqs.len() ==> reqs[i] >= 0,
        sum_of(reqs) >= total_len(bs),
    ensures
        decode_frames(frames_of(transmitted_all(bs, tx_cap))) == concat_all(bs),
        drain_reads(
            ring_after_write(
                Seq::<u8>::empty(),
                rx_cap,
                decode_frames(frames_of(transmitted_all(bs, tx_cap))),
            ),
            reqs,
        ) == concat_all(bs),
{
    lemma_transport_delivery(bs, tx_cap, rx_cap, reqs);
    crate::frame::lemma_stream_round_trip(concat_all(bs));
}

/// Law: reception resumes with no caller action. A completed `write_buffer`
/// leaves the arbiter in `IdleReceiving` (its own contract), and neither
/// `handle_interrupt` nor `try_read` asks the caller for any mode switch or
/// re-arming. So once the peer's bytes `b` reach the emptied receive ring —
/// they fit its capacity — the next read poll asking for at least one byte
/// completes with a nonempty prefix of `b`, in order.
pub proof fn lemma_read_resumes_after_write(b: Seq<u8>, rx_cap: int, max: int)
    requires
        0 < b.len() <= rx_cap,
        max >= 1,
    ensures
        ring_after_write(Seq::<u8>::empty(), rx_cap, b) == b,
        read_result(ring_after_write(Seq::<u8>::empty(), rx_cap, b), max).len() > 0,
        read_result(ring_after_write(Seq::<u8>::empty(), rx_cap, b), max) == b.take(
            copy_count(max, b.len() as int),
        ),
        read_result(ring_after_write(Seq::<u8>::empty(), rx_cap, b), max).is_prefix_of(b),
{
    assert(Seq::<u8>::empty() + b.take(b.len() as int) =~= b);
    let n = copy_count(max, b.len() as int);
    assert(read_result(b, max) =~= b.subrange(0, n));
}

} // verus!
