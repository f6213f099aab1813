use half_duplex_uart::arbiter::DirectionState;
use half_duplex_uart::uart::{
    clock_divider, turnaround_delay_micros, BufferedHalfDuplexUart, IrqEvent, ReadPoll,
};

fn expect_ready(r: ReadPoll) -> Vec<u8> {
    match r {
        ReadPoll::Ready(v) => v,
        ReadPoll::Pending => panic!("expected a completed read"),
        ReadPoll::FramingError => panic!("expected a completed read, got a framing error"),
    }
}

#[test]
fn write_transmits_all_and_returns_to_idle() {
    let mut uart = BufferedHalfDuplexUart::new(8, 8);
    assert_eq!(uart.direction(), DirectionState::IdleReceiving);
    let (n, wire, settle) = uart.write(&[0x55, 0xAA, 0x01]);
    assert_eq!(n, 3);
    assert_eq!(wire, vec![0x55, 0xAA, 0x01]);
    assert_eq!(settle, 95);
    assert_eq!(uart.direction(), DirectionState::IdleReceiving);
}

#[test]
fn zero_write_returns_zero_and_alters_nothing() {
    let mut uart = BufferedHalfDuplexUart::new(8, 8);
    let (n, wire, settle) = uart.write(&[]);
    assert_eq!(n, 0);
    assert!(wire.is_empty());
    assert_eq!(settle, 0);
    assert_eq!(uart.direction(), DirectionState::IdleReceiving);
}

#[test]
fn overlong_write_truncates_and_reports_short_count() {
    let mut uart = BufferedHalfDuplexUart::new(2, 8);
    let (n, wire, _settle) = uart.write(&[1, 2, 3, 4]);
    assert!(n < 4);
    assert_eq!(n, 2);
    assert_eq!(wire, vec![1, 2]);
}

#[test]
fn consecutive_writes_reach_the_wire_in_order() {
    let mut uart = BufferedHalfDuplexUart::new(8, 8);
    let mut wire: Vec<u8> = Vec::new();
    let (n1, w1, _) = uart.write(&[1, 2]);
    wire.extend(w1);
    let (n2, w2, _) = uart.write(&[3]);
    wire.extend(w2);
    assert_eq!((n1, n2), (2, 1));
    assert_eq!(wire, vec![1, 2, 3]);
}

#[test]
fn read_suspends_until_interrupt_delivers() {
    let mut uart = BufferedHalfDuplexUart::new(8, 8);
    assert!(matches!(uart.read(4), ReadPoll::Pending));
    let outcome = uart.handle_interrupt(IrqEvent::RxDataReady, &[7, 8]);
    assert_eq!(outcome.bytes_taken, 2);
    assert!(outcome.wake_reader);
    assert!(!outcome.clear_framing_error);
    assert_eq!(expect_ready(uart.read(1)), vec![7]);
    assert_eq!(expect_ready(uart.read(10)), vec![8]);
}

#[test]
fn read_zero_completes_immediately() {
    let mut uart = BufferedHalfDuplexUart::new(8, 8);
    assert_eq!(expect_ready(uart.read(0)), Vec::<u8>::new());
}

#[test]
fn framing_error_surfaces_once_then_bytes_intact() {
    let mut uart = BufferedHalfDuplexUart::new(8, 8);
    let first = uart.handle_interrupt(IrqEvent::RxDataReady, &[0x11]);
    assert_eq!(first.bytes_taken, 1);
    let err = uart.handle_interrupt(IrqEvent::RxFramingError, &[]);
    assert_eq!(err.bytes_taken, 0);
    assert!(!err.wake_reader);
    assert!(err.clear_framing_error);
    let second = uart.handle_interrupt(IrqEvent::RxDataReady, &[0x22]);
    assert_eq!(second.bytes_taken, 1);
    // The violation reaches the reader exactly once, as a transient error.
    assert!(matches!(uart.read(10), ReadPoll::FramingError));
    // The retry returns both valid bytes, in order, with nothing substituted.
    assert_eq!(expect_ready(uart.read(10)), vec![0x11, 0x22]);
    // And the error is not reported again.
    assert!(matches!(uart.read(10), ReadPoll::Pending));
}

#[test]
fn framing_error_without_data_reported_then_pending() {
    let mut uart = BufferedHalfDuplexUart::new(8, 8);
    uart.handle_interrupt(IrqEvent::RxFramingError, &[]);
    assert!(matches!(uart.read(4), ReadPoll::FramingError));
    assert!(matches!(uart.read(4), ReadPoll::Pending));
}

#[test]
fn zero_read_does_not_consume_the_error() {
    let mut uart = BufferedHalfDuplexUart::new(8, 8);
    uart.handle_interrupt(IrqEvent::RxFramingError, &[]);
    assert_eq!(expect_ready(uart.read(0)), Vec::<u8>::new());
    assert!(matches!(uart.read(1), ReadPoll::FramingError));
}

#[test]
fn interrupt_leaves_overflow_in_hardware_queue() {
    let mut uart = BufferedHalfDuplexUart::new(8, 2);
    let outcome = uart.handle_interrupt(IrqEvent::RxDataReady, &[1, 2, 3]);
    assert_eq!(outcome.bytes_taken, 2);
    assert_eq!(expect_ready(uart.read(10)), vec![1, 2]);
    let again = uart.handle_interrupt(IrqEvent::RxDataReady, &[3]);
    assert_eq!(again.bytes_taken, 1);
    assert_eq!(expect_ready(uart.read(10)), vec![3]);
}

#[test]
fn peer_reads_reproduce_written_sequence() {
    let mut central = BufferedHalfDuplexUart::new(8, 8);
    let mut peripheral = BufferedHalfDuplexUart::new(8, 8);
    let mut received: Vec<u8> = Vec::new();
    for chunk in [&[1u8, 2u8][..], &[3u8][..], &[4u8, 5u8, 6u8][..]] {
        let (n, wire, _) = central.write(chunk);
        assert_eq!(n, chunk.len());
        let outcome = peripheral.handle_interrupt(IrqEvent::RxDataReady, &wire);
        assert_eq!(outcome.bytes_taken, wire.len());
        loop {
            match peripheral.read(2) {
                ReadPoll::Ready(v) => received.extend(v),
                ReadPoll::Pending => break,
                ReadPoll::FramingError => panic!("no framing error was injected"),
            }
        }
    }
    assert_eq!(received, vec![1, 2, 3, 4, 5, 6]);
}

#[test]
fn turnaround_interval_is_eleven_bit_periods() {
    assert_eq!(turnaround_delay_micros(), 95);
}

#[test]
fn clock_divider_matches_baud_times_eight() {
    assert_eq!(clock_divider(125_000_000), 135);
    assert_eq!(clock_divider(921_600), 1);
}

#[test]
fn flush_waits_only_while_fifo_nonempty() {
    let uart = BufferedHalfDuplexUart::new(8, 8);
    assert_eq!(uart.flush(true), 0);
    assert_eq!(uart.flush(false), 95);
}
