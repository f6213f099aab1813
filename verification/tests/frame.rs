use half_duplex_uart::frame::{frame_byte, parse_frame, RxOutcome, FRAME_BITS};

fn expect_byte(r: RxOutcome) -> u8 {
    match r {
        RxOutcome::Byte(b) => b,
        RxOutcome::FramingError => panic!("expected a decoded byte"),
    }
}

#[test]
fn frame_layout_is_start_data_lsb_first_stop() {
    let frame = frame_byte(0x41);
    assert_eq!(frame.len(), FRAME_BITS);
    assert_eq!(
        frame,
        vec![false, true, false, false, false, false, false, true, false, true]
    );
}

#[test]
fn valid_frame_decodes_to_its_byte() {
    let frame = frame_byte(0xA7);
    assert_eq!(expect_byte(parse_frame(&frame)), 0xA7);
}

#[test]
fn every_byte_survives_the_round_trip() {
    for b in 0..=255u8 {
        let frame = frame_byte(b);
        assert_eq!(expect_byte(parse_frame(&frame)), b);
    }
}

#[test]
fn missing_stop_bit_is_a_framing_error() {
    let mut frame = frame_byte(0x5A);
    frame[9] = false;
    assert!(matches!(parse_frame(&frame), RxOutcome::FramingError));
}

#[test]
fn missing_start_bit_is_a_framing_error() {
    let mut frame = frame_byte(0x5A);
    frame[0] = true;
    assert!(matches!(parse_frame(&frame), RxOutcome::FramingError));
}

#[test]
fn corrupt_frame_between_valid_ones_is_dropped_not_substituted() {
    let mut delivered: Vec<u8> = Vec::new();
    let mut errors = 0;
    let mut corrupt = frame_byte(0x33);
    corrupt[9] = false;
    for frame in [frame_byte(0x11), corrupt, frame_byte(0x22)] {
        match parse_frame(&frame) {
            RxOutcome::Byte(b) => delivered.push(b),
            RxOutcome::FramingError => errors += 1,
        }
    }
    assert_eq!(delivered, vec![0x11, 0x22]);
    assert_eq!(errors, 1);
}
