//! Half-duplex serial transport for a split keyboard: a single shared wire
//! carries bytes in both directions, one direction at a time.
//!
//! The crate models and verifies the logic of that transport:
//! - `frame`: the bit-level byte framing driven onto the wire (start bit,
//!   eight data bits least-significant first, stop bit) and its decoder;
//! - `ring`: the fixed-capacity single-producer/single-consumer byte ring
//!   buffer shared between interrupt and task context;
//! - `arbiter`: the direction arbiter that keeps the transmit and receive
//!   serializer programs from driving the wire at the same time;
//! - `uart`: the transport facade (`read`/`write`/`flush`) and the
//!   interrupt-handler logic that drains the hardware receive queue.
//!
//! Hardware access itself (coprocessor registers, pin configuration, timers,
//! the executor) cannot be verified and stays outside the library; callers
//! perform those actions and feed the resulting plain values back in.

pub mod arbiter;
pub mod frame;
pub mod ring;
pub mod uart;
