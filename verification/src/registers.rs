//! The 8086 register-name table: a three-bit selector and an operand width
//! pick one two-letter mnemonic.

use vstd::prelude::*;
use crate::error::{text_of, Error};

verus! {

/// The mnemonic that `index` selects among the 16-bit registers when `wide`
/// holds, and among the 8-bit registers otherwise. Selectors 4 to 7 name
/// unrelated registers in the two columns (`sp`/`ah`, `bp`/`ch`, `si`/`dh`,
/// `di`/`bh`), as the instruction set has it.
pub open spec fn register_name(index: int, wide: bool) -> Seq<char>
    recommends
        0 <= index <= 7,
{
    if index == 0 {
        if wide { seq!['a', 'x'] } else { seq!['a', 'l'] }
    } else if index == 1 {
        if wide { seq!['c', 'x'] } else { seq!['c', 'l'] }
    } else if index == 2 {
        if wide { seq!['d', 'x'] } else { seq!['d', 'l'] }
    } else if index == 3 {
        if wide { seq!['b', 'x'] } else { seq!['b', 'l'] }
    } else if index == 4 {
        if wide { seq!['s', 'p'] } else { seq!['a', 'h'] }
    } else if index == 5 {
        if wide { seq!['b', 'p'] } else { seq!['c', 'h'] }
    } else if index == 6 {
        if wide { seq!['s', 'i'] } else { seq!['d', 'h'] }
    } else {
        if wide { seq!['d', 'i'] } else { seq!['b', 'h'] }
    }
}

/// What a lookup yields for any selector: the table entry for `0..=7`, and
/// `InvalidRegisterIndex` beyond.
pub open spec fn register_lookup(index: int, wide: bool) -> Result<Seq<char>, Error> {
    if 0 <= index <= 7 {
        Ok(register_name(index, wide))
    } else {
        Err(Error::InvalidRegisterIndex)
    }
}

/// Looks up the mnemonic of register `register` at the given width.
pub fn register_to_string(register: u8, wide: bool) -> (result: Result<String, Error>)
    ensures
        text_of(result) == register_lookup(register as int, wide),
        result is Ok <==> register <= 7,
{
    let name: &str = match register {
        0 => if wide { "ax" } else { "al" },
        1 => if wide { "cx" } else { "cl" },
        2 => if wide { "dx" } else { "dl" },
        3 => if wide { "bx" } else { "bl" },
        4 => if wide { "sp" } else { "ah" },
        5 => if wide { "bp" } else { "ch" },
        6 => if wide { "si" } else { "dh" },
        7 => if wide { "di" } else { "bh" },
        _ => { return Err(Error::InvalidRegisterIndex); },
    };
    proof {
        reveal_strlit("ax");
        reveal_strlit("al");
        reveal_strlit("cx");
        reveal_strlit("cl");
        reveal_strlit("dx");
        reveal_strlit("dl");
        reveal_strlit("bx");
        reveal_strlit("bl");
        reveal_strlit("sp");
        reveal_strlit("ah");
        reveal_strlit("bp");
        reveal_strlit("ch");
        reveal_strlit("si");
        reveal_strlit("dh");
        reveal_strlit("di");
        reveal_strlit("bh");
        assert(name@ =~= register_name(register as int, wide));
    }
    Ok(name.to_owned())
}

} // verus!
