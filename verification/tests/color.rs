use barium::{HexError, Rgba8};

#[test]
fn reads_six_digits_as_an_opaque_colour() {
    assert_eq!(Rgba8::from_hex("#fecb00"), Ok(Rgba8::new(254, 203, 0, 255)));
    assert_eq!(Rgba8::from_hex("fecb00"), Ok(Rgba8::new(254, 203, 0, 255)));
    assert_eq!(Rgba8::from_hex("0xfecb00"), Ok(Rgba8::new(254, 203, 0, 255)));
}

#[test]
fn reads_eight_digits_with_alpha() {
    assert_eq!(Rgba8::from_hex("#01020304"), Ok(Rgba8::new(1, 2, 3, 4)));
    assert_eq!(Rgba8::from_hex("0xFFEEDD80"), Ok(Rgba8::new(255, 238, 221, 128)));
    assert_eq!(Rgba8::from_hex("a0B1c2D3"), Ok(Rgba8::new(160, 177, 194, 211)));
}

#[test]
fn reads_digits_in_either_case() {
    assert_eq!(Rgba8::from_hex("#abcdef"), Rgba8::from_hex("#ABCDEF"));
    assert_eq!(Rgba8::from_hex("#AbCdEf"), Ok(Rgba8::new(171, 205, 239, 255)));
}

#[test]
fn rejects_a_text_that_ends_early() {
    assert_eq!(Rgba8::from_hex(""), Err(HexError::TooShort));
    assert_eq!(Rgba8::from_hex("#"), Err(HexError::TooShort));
    assert_eq!(Rgba8::from_hex("0x"), Err(HexError::TooShort));
    assert_eq!(Rgba8::from_hex("#1"), Err(HexError::TooShort));
    assert_eq!(Rgba8::from_hex("#12345"), Err(HexError::TooShort));
    assert_eq!(Rgba8::from_hex("#1234567"), Err(HexError::TooShort));
}

#[test]
fn rejects_what_is_no_digit() {
    assert_eq!(Rgba8::from_hex("#gg0000"), Err(HexError::InvalidDigit));
    assert_eq!(Rgba8::from_hex("#00 000"), Err(HexError::InvalidDigit));
    assert_eq!(Rgba8::from_hex("#+f+f+f"), Err(HexError::InvalidDigit));
    assert_eq!(Rgba8::from_hex("##00000"), Err(HexError::InvalidDigit));
    assert_eq!(Rgba8::from_hex("0X000000"), Err(HexError::InvalidDigit));
    assert_eq!(Rgba8::from_hex("#112233zz"), Err(HexError::InvalidDigit));
    assert_eq!(Rgba8::from_hex("#é12345"), Err(HexError::InvalidDigit));
}

#[test]
fn the_first_fault_decides_the_error() {
    // The red channel is faulty before the text runs out.
    assert_eq!(Rgba8::from_hex("zz"), Err(HexError::InvalidDigit));
    // The red channel is fine, the green one is missing.
    assert_eq!(Rgba8::from_hex("12"), Err(HexError::TooShort));
}

#[test]
fn ignores_what_follows_alpha() {
    assert_eq!(Rgba8::from_hex("#11223344zz"), Ok(Rgba8::new(17, 34, 51, 68)));
}

#[test]
fn writes_upper_case_digits() {
    assert_eq!(Rgba8::new(254, 203, 0, 255).as_hex(false), "#FECB00");
    assert_eq!(Rgba8::new(254, 203, 0, 255).as_hex(true), "#FECB00FF");
    assert_eq!(Rgba8::new(0, 9, 10, 15).as_hex(true), "#00090A0F");
    assert_eq!(Rgba8::new(16, 159, 160, 171).as_hex(true), "#109FA0AB");
}

#[test]
fn reading_what_was_written_gives_the_colour_back() {
    for v in 0..=255u8 {
        let c = Rgba8::new(v, 255 - v, v ^ 0x5a, v.wrapping_mul(7));
        assert_eq!(Rgba8::from_hex(&c.as_hex(true)), Ok(c));
        assert_eq!(
            Rgba8::from_hex(&c.as_hex(false)),
            Ok(Rgba8::new(c.r, c.g, c.b, 255))
        );
        let digits = c.as_hex(true)[1..].to_string();
        assert_eq!(Rgba8::from_hex(&digits), Ok(c));
        assert_eq!(Rgba8::from_hex(&format!("0x{}", digits)), Ok(c));
        assert_eq!(Rgba8::from_hex(&digits.to_lowercase()), Ok(c));
    }
}

#[test]
fn writing_what_was_read_gives_the_text_back() {
    for text in ["#FECB00", "#000000", "#FFFFFF", "#0123456789"[..9].to_string().as_str(), "#ABCDEF01"] {
        let include_alpha = text.len() == 9;
        assert_eq!(Rgba8::from_hex(text).unwrap().as_hex(include_alpha), text);
    }
    // A lower-case text comes back in upper case.
    assert_eq!(Rgba8::from_hex("#fecb00").unwrap().as_hex(false), "#FECB00");
}
