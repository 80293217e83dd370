use fury_controller::{is_percent, Colour, FuryControllerError};

fn rgb(red: u8, green: u8, blue: u8) -> Colour {
    Colour { red, green, blue }
}

#[test]
fn colour_long_hex() {
    assert_eq!(Colour::parse("#ff8800").unwrap(), rgb(255, 136, 0));
    assert_eq!(Colour::parse("#FF8800").unwrap(), rgb(255, 136, 0));
    assert_eq!(Colour::parse("#0a1B2c").unwrap(), rgb(10, 27, 44));
}

#[test]
fn colour_short_hex_doubles_digits() {
    assert_eq!(Colour::parse("#f80").unwrap(), rgb(255, 136, 0));
    assert_eq!(Colour::parse("#123").unwrap(), rgb(0x11, 0x22, 0x33));
}

#[test]
fn colour_decimal() {
    let c: Colour = "10,20,30".parse().unwrap();
    assert_eq!(c, rgb(10, 20, 30));
    assert_eq!(Colour::parse("0,255,007").unwrap(), rgb(0, 255, 7));
    assert_eq!(Colour::parse("+1,2,3").unwrap(), rgb(1, 2, 3));
}

#[test]
fn colour_rejects_other_shapes() {
    for bad in [
        "1,2", "1,2,3,4", "256,0,0", "1,,3", ",1,2", "1,2,", "a,b,c", "#ggg", "#ff880", "#ff88000",
        "", "#", " 1,2,3", "1, 2,3", "+,1,2", "#+f+f+f", "99999999999,1,1",
    ] {
        match Colour::parse(bad) {
            Err(FuryControllerError::InvalidColour(t)) => assert_eq!(t, bad),
            other => panic!("{:?} gave {:?}", bad, other),
        }
    }
}

#[test]
fn colour_default_is_black() {
    assert_eq!(Colour::default(), rgb(0, 0, 0));
}

#[test]
fn percent_bounds() {
    assert!(is_percent(&0));
    assert!(is_percent(&100));
    assert!(!is_percent(&101));
    assert!(!is_percent(&255));
}
