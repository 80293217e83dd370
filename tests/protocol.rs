use fury_controller::protocol::{
    stick_address, BusOp, MultiRamController, PatternStyle, STICK_ADDRESS_1, STICK_ADDRESS_2,
    STICK_ADDRESS_3, STICK_ADDRESS_4,
};
use fury_controller::{Colour, FuryControllerError};

fn sel(a: u16) -> BusOp {
    BusOp::SelectAddress(a)
}

fn wr(register: u8, value: u8) -> BusOp {
    BusOp::WriteRegister { register, value }
}

fn broadcast(sticks: &[u16], register: u8, value: u8) -> Vec<BusOp> {
    let mut v = Vec::new();
    for a in sticks {
        v.push(sel(*a));
        v.push(wr(register, value));
    }
    v
}

fn framed(sticks: &[u16], body: Vec<BusOp>) -> Vec<BusOp> {
    let mut v = broadcast(sticks, 0x08, 0x53);
    v.extend(body);
    v.extend(broadcast(sticks, 0x08, 0x44));
    v
}

fn four() -> Vec<u16> {
    vec![0x60, 0x61, 0x62, 0x63]
}

#[test]
fn sync_timings_counts_down_over_four_sticks() {
    let c = MultiRamController::new(four());
    let ops = c.sync_timings();
    let body = vec![
        sel(0x60),
        wr(0x0b, 3),
        sel(0x61),
        wr(0x0b, 2),
        sel(0x62),
        wr(0x0b, 1),
        sel(0x63),
        wr(0x0b, 0),
    ];
    assert_eq!(ops, framed(&four(), body));
}

#[test]
fn sync_timings_single_stick_gets_zero() {
    let c = MultiRamController::new(vec![0x62]);
    assert_eq!(c.sync_timings(), framed(&[0x62], vec![sel(0x62), wr(0x0b, 0)]));
}

#[test]
fn set_pattern_with_twelve_colours_is_refused() {
    let c = MultiRamController::new(four());
    let colours = vec![Colour { red: 1, green: 2, blue: 3 }; 12];
    let r = c.set_pattern(PatternStyle::Solid, &colours);
    assert!(matches!(r, Err(FuryControllerError::TooManyColours(12))));
}

#[test]
fn set_pattern_with_eleven_colours_is_accepted() {
    let c = MultiRamController::new(vec![0x60]);
    let colours = vec![Colour { red: 1, green: 2, blue: 3 }; 11];
    let ops = c.set_pattern(PatternStyle::Solid, &colours).unwrap();
    assert_eq!(ops.len(), 2 * (2 + 2 + 33));
    assert_eq!(ops[ops.len() - 3], wr(0x51, 3));
}

#[test]
fn set_pattern_two_colours_exact_order() {
    let c = MultiRamController::new(vec![0x60, 0x61]);
    let colours = [
        Colour { red: 10, green: 20, blue: 30 },
        Colour { red: 40, green: 50, blue: 60 },
    ];
    let ops = c.set_pattern(PatternStyle::Breathe, &colours).unwrap();
    let s = [0x60, 0x61];
    let mut body = broadcast(&s, 0x09, 0x03);
    body.extend(broadcast(&s, 0x30, 2));
    body.extend(broadcast(&s, 0x31, 10));
    body.extend(broadcast(&s, 0x32, 20));
    body.extend(broadcast(&s, 0x33, 30));
    body.extend(broadcast(&s, 0x34, 40));
    body.extend(broadcast(&s, 0x35, 50));
    body.extend(broadcast(&s, 0x36, 60));
    assert_eq!(ops, framed(&s, body));
}

#[test]
fn set_pattern_no_colours() {
    let c = MultiRamController::new(vec![0x60]);
    let ops = c.set_pattern(PatternStyle::Fire, &[]).unwrap();
    let mut body = broadcast(&[0x60], 0x09, 0x09);
    body.extend(broadcast(&[0x60], 0x30, 0));
    assert_eq!(ops, framed(&[0x60], body));
}

fn probe(sticks: &[u16]) -> Vec<BusOp> {
    let mut v = Vec::new();
    for a in sticks {
        v.extend([
            sel(*a),
            wr(0x08, 0x53),
            BusOp::ReadRegister(0x05),
            BusOp::ReadRegister(0x06),
            BusOp::ReadRegister(0x26),
            wr(0x08, 0x44),
        ]);
    }
    v
}

#[test]
fn noop_probes_each_stick_in_turn() {
    let c = MultiRamController::new(vec![0x61, 0x60]);
    assert_eq!(c.noop(), probe(&[0x61, 0x60]));
}

#[test]
fn brightness_frames() {
    let s = [0x60, 0x63];
    let c = MultiRamController::new(s.to_vec());
    assert_eq!(c.set_brightness_percent(42), framed(&s, broadcast(&s, 0x20, 42)));
    assert_eq!(c.set_pattern_start_offset(7), framed(&s, broadcast(&s, 0x0d, 7)));
    assert_eq!(c.set_pattern_repeat_delay(255), framed(&s, broadcast(&s, 0x27, 255)));
    let mut body = broadcast(&s, 0x2d, 10);
    body.extend(broadcast(&s, 0x2e, 20));
    body.extend(broadcast(&s, 0x2f, 100));
    assert_eq!(c.set_rgb_brightness_percent(10, 20, 100), framed(&s, body));
}

#[test]
fn partial_pattern_updates() {
    let s = [0x60];
    let c = MultiRamController::new(s.to_vec());
    assert_eq!(c.set_pattern_style_only(PatternStyle::Fury), framed(&s, broadcast(&s, 0x09, 0x0b)));
    let mut body = broadcast(&s, 0x30, 1);
    body.extend(broadcast(&s, 0x31, 9));
    body.extend(broadcast(&s, 0x32, 8));
    body.extend(broadcast(&s, 0x33, 7));
    assert_eq!(c.set_pattern_colour_only(9, 8, 7), framed(&s, body));
}

#[test]
fn reset_is_the_nine_step_sequence() {
    let s = [0x60, 0x61];
    let c = MultiRamController::new(s.to_vec());
    let mut expected = probe(&s);
    expected.extend(probe(&s));
    expected.extend(framed(&s, vec![sel(0x60), wr(0x0b, 1), sel(0x61), wr(0x0b, 0)]));
    expected.extend(framed(&s, broadcast(&s, 0x20, 100)));
    let mut rgb = broadcast(&s, 0x2d, 100);
    rgb.extend(broadcast(&s, 0x2e, 100));
    rgb.extend(broadcast(&s, 0x2f, 100));
    expected.extend(framed(&s, rgb));
    expected.extend(framed(&s, broadcast(&s, 0x0d, 0)));
    expected.extend(framed(&s, broadcast(&s, 0x27, 1)));
    let mut pattern = broadcast(&s, 0x09, 0x01);
    pattern.extend(broadcast(&s, 0x30, 1));
    pattern.extend(broadcast(&s, 0x31, 0));
    pattern.extend(broadcast(&s, 0x32, 0));
    pattern.extend(broadcast(&s, 0x33, 0));
    expected.extend(framed(&s, pattern));
    expected.extend(framed(&s, vec![sel(0x60), wr(0x0b, 1), sel(0x61), wr(0x0b, 0)]));
    assert_eq!(c.reset(), expected);
}

#[test]
fn first_stick_is_first() {
    let c = MultiRamController::new(vec![0x63, 0x60]);
    assert_eq!(c.first_stick(), 0x63);
}

#[test]
fn slot_addresses() {
    assert_eq!(stick_address(1), Some(STICK_ADDRESS_1));
    assert_eq!(stick_address(2), Some(STICK_ADDRESS_2));
    assert_eq!(stick_address(3), Some(STICK_ADDRESS_3));
    assert_eq!(stick_address(4), Some(0x63));
    assert_eq!(STICK_ADDRESS_4, 0x63);
    assert_eq!(stick_address(0), None);
    assert_eq!(stick_address(5), None);
}

const ALL: [PatternStyle; 12] = [
    PatternStyle::Solid,
    PatternStyle::Rainbow,
    PatternStyle::Scan,
    PatternStyle::Breathe,
    PatternStyle::Fade,
    PatternStyle::Stripe,
    PatternStyle::Trail,
    PatternStyle::Lightning,
    PatternStyle::Countdown,
    PatternStyle::Fire,
    PatternStyle::Sparkles,
    PatternStyle::Fury,
];

#[test]
fn style_codes_are_fixed_and_round_trip() {
    for (i, p) in ALL.iter().enumerate() {
        assert_eq!(p.code() as usize, i);
        assert_eq!(PatternStyle::from_code(p.code()), Some(*p));
    }
    assert_eq!(PatternStyle::from_code(0x0c), None);
    assert_eq!(PatternStyle::from_code(0xff), None);
}

#[test]
fn style_names_round_trip() {
    for p in ALL.iter() {
        assert_eq!(PatternStyle::parse(p.name()).unwrap(), *p);
    }
}

#[test]
fn style_fury_parses_to_0x0b() {
    let p: PatternStyle = "fury".parse().unwrap();
    assert_eq!(p, PatternStyle::Fury);
    assert_eq!(p.code(), 0x0b);
}

#[test]
fn style_unknown_names_the_token() {
    match PatternStyle::parse("disco") {
        Err(FuryControllerError::UnknownPatternStyle(t)) => assert_eq!(t, "disco"),
        other => panic!("unexpected {:?}", other),
    }
    assert!(PatternStyle::parse("Fury").is_err());
    assert!(PatternStyle::parse("").is_err());
    assert!(PatternStyle::parse("fur").is_err());
}
