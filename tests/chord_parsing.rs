use windows_key_listener::key_chord_parser::{ChordError, KeyChordParser};

fn invalid(token: &str) -> Result<Vec<i32>, ChordError> {
    Err(ChordError::InvalidChord(token.to_string()))
}

#[test]
fn parse_ignores_case_and_spacing() {
    let p = KeyChordParser::new();
    let expected: Vec<i32> = vec![0x11, 0x10, 0x5A];
    assert_eq!(p.parse("ctrl+shift+z"), Ok(expected.clone()));
    assert_eq!(p.parse(" Ctrl + Shift + Z "), Ok(expected.clone()));
    assert_eq!(p.parse("CTRL+SHIFT+Z"), Ok(expected));
}

#[test]
fn parse_keeps_written_order() {
    let p = KeyChordParser::new();
    assert_eq!(p.parse("z+shift+ctrl"), Ok(vec![0x5A, 0x10, 0x11]));
}

#[test]
fn parse_single_media_key() {
    let p = KeyChordParser::new();
    assert_eq!(p.parse("VolumeUp"), Ok(vec![0xAF]));
    assert_eq!(p.parse("volumedown"), Ok(vec![0xAE]));
    assert_eq!(p.parse("VolumeMute"), Ok(vec![0xAD]));
    assert_eq!(p.parse("PlayPause"), Ok(vec![0xB3]));
}

#[test]
fn parse_key_families() {
    let p = KeyChordParser::new();
    assert_eq!(p.parse("a+m+7+0"), Ok(vec![0x41, 0x4D, 0x37, 0x30]));
    assert_eq!(p.parse("F1+f12"), Ok(vec![0x70, 0x7B]));
    assert_eq!(p.parse("num0+Num9+NumEnter+numplus"), Ok(vec![0x60, 0x69, 0x0D, 0x6B]));
    assert_eq!(p.parse("lctrl+rctrl+lshift+rshift+lalt+ralt"), Ok(vec![0xA2, 0xA3, 0xA0, 0xA1, 0xA4, 0xA5]));
    assert_eq!(p.parse("alt+menu"), Ok(vec![0x12, 0x12]));
    assert_eq!(p.parse("esc+space+enter+tab+back"), Ok(vec![0x1B, 0x20, 0x0D, 0x09, 0x08]));
    assert_eq!(p.parse("pageup+pagedown+home+end+insert+delete"), Ok(vec![0x21, 0x22, 0x24, 0x23, 0x2D, 0x2E]));
    assert_eq!(p.parse("left+up+right+down"), Ok(vec![0x25, 0x26, 0x27, 0x28]));
    assert_eq!(p.parse("lwin+rwin+apps+sleep+zoom+break+pause"), Ok(vec![0x5B, 0x5C, 0x5D, 0x5F, 0xFB, 0x03, 0x13]));
    assert_eq!(p.parse("printscreen+scrolllock+capslock+numlock"), Ok(vec![0x2C, 0x91, 0x14, 0x90]));
    assert_eq!(p.parse("stop+prev+next"), Ok(vec![0xB2, 0xB1, 0xB0]));
}

#[test]
fn parse_repeated_key_kept() {
    let p = KeyChordParser::new();
    assert_eq!(p.parse("a+A"), Ok(vec![0x41, 0x41]));
}

#[test]
fn parse_unknown_token_is_named() {
    let p = KeyChordParser::new();
    assert_eq!(p.parse("ctrl+foo"), invalid("foo"));
    assert_eq!(p.parse(" Ctrl + Bogus "), invalid("bogus"));
}

#[test]
fn parse_reports_first_unknown_token() {
    let p = KeyChordParser::new();
    assert_eq!(p.parse("x+Bad1+bad2"), invalid("bad1"));
}

#[test]
fn parse_empty_pieces_are_unknown() {
    let p = KeyChordParser::new();
    assert_eq!(p.parse(""), invalid(""));
    assert_eq!(p.parse("ctrl+"), invalid(""));
    assert_eq!(p.parse("ctrl++z"), invalid(""));
    assert_eq!(p.parse("  "), invalid(""));
}

#[test]
fn parse_no_partial_result() {
    let p = KeyChordParser::new();
    assert!(p.parse("ctrl+shift+nokey").is_err());
}
