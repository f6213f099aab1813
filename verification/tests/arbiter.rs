use half_duplex_uart::arbiter::{Arbiter, DirectionState};

#[test]
fn arbiter_starts_receiving() {
    let arb = Arbiter::new();
    assert_eq!(arb.current(), DirectionState::IdleReceiving);
}

#[test]
fn arbiter_walks_the_transmit_cycle() {
    let mut arb = Arbiter::new();
    arb.begin_transmit();
    assert_eq!(arb.current(), DirectionState::Transmitting);
    arb.transmit_done();
    assert_eq!(arb.current(), DirectionState::Turnaround);
    arb.turnaround_done();
    assert_eq!(arb.current(), DirectionState::IdleReceiving);
}
