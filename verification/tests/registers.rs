use disasm8086::error::Error;
use disasm8086::registers::register_to_string;

#[test]
fn wide_registers() {
    let names = ["ax", "cx", "dx", "bx", "sp", "bp", "si", "di"];
    for index in 0u8..8 {
        assert_eq!(register_to_string(index, true), Ok(names[usize::from(index)].to_string()));
    }
}

#[test]
fn narrow_registers() {
    let names = ["al", "cl", "dl", "bl", "ah", "ch", "dh", "bh"];
    for index in 0u8..8 {
        assert_eq!(register_to_string(index, false), Ok(names[usize::from(index)].to_string()));
    }
}

#[test]
fn upper_selectors_name_unrelated_registers() {
    assert_eq!(register_to_string(4, true), Ok("sp".to_string()));
    assert_eq!(register_to_string(4, false), Ok("ah".to_string()));
    assert_eq!(register_to_string(5, true), Ok("bp".to_string()));
    assert_eq!(register_to_string(5, false), Ok("ch".to_string()));
    assert_eq!(register_to_string(6, true), Ok("si".to_string()));
    assert_eq!(register_to_string(6, false), Ok("dh".to_string()));
    assert_eq!(register_to_string(7, true), Ok("di".to_string()));
    assert_eq!(register_to_string(7, false), Ok("bh".to_string()));
}

#[test]
fn selectors_beyond_seven_are_rejected() {
    for index in 8u8..=255 {
        assert_eq!(register_to_string(index, true), Err(Error::InvalidRegisterIndex));
        assert_eq!(register_to_string(index, false), Err(Error::InvalidRegisterIndex));
    }
}

#[test]
fn every_name_has_two_letters() {
    for index in 0u8..8 {
        assert_eq!(register_to_string(index, true).unwrap().len(), 2);
        assert_eq!(register_to_string(index, false).unwrap().len(), 2);
    }
}
