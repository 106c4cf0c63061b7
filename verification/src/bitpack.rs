//! Packing text made of the digits `0` and `1` into bytes.
//!
//! Every other character of the text is skipped. The digits are taken in
//! the order in which they occur, eight to a byte, the first of each eight
//! being the most significant bit. Digits left over at the end, fewer than
//! eight, are dropped.

use vstd::prelude::*;
use vstd::utf8::{encode_scalar, encode_utf8, has_width_1_encoding};
use vstd::arithmetic::power2::{lemma2_to64, lemma_pow2_unfold, pow2};

verus! {

/// The bit that a character stands for, if it stands for one.
pub open spec fn bit_of_char(c: char) -> Option<bool> {
    if c == '0' {
        Some(false)
    } else if c == '1' {
        Some(true)
    } else {
        None
    }
}

/// The bits that `text` spells, in the order in which they occur.
pub open spec fn bits_of_text(text: Seq<char>) -> Seq<bool>
    decreases text.len(),
{
    if text.len() == 0 {
        Seq::empty()
    } else {
        let earlier = bits_of_text(text.drop_last());
        match bit_of_char(text.last()) {
            Some(bit) => earlier.push(bit),
            None => earlier,
        }
    }
}

/// One for a set bit, zero for a clear one.
pub open spec fn bit_value(bit: bool) -> int {
    if bit {
        1
    } else {
        0
    }
}

/// The number that eight bits spell, the first being the most significant.
pub open spec fn byte_of_bits(bits: Seq<bool>) -> int
    recommends
        bits.len() == 8,
{
    128 * bit_value(bits[0]) + 64 * bit_value(bits[1]) + 32 * bit_value(bits[2]) + 16 * bit_value(
        bits[3],
    ) + 8 * bit_value(bits[4]) + 4 * bit_value(bits[5]) + 2 * bit_value(bits[6]) + bit_value(
        bits[7],
    )
}

/// The group of eight bits of `bits` with the given index.
pub open spec fn group_of(bits: Seq<bool>, index: int) -> Seq<bool>
    recommends
        0 <= index < bits.len() / 8,
{
    bits.subrange(8 * index, 8 * index + 8)
}

/// The bytes that `bits` pack into: one for each complete group of eight.
pub open spec fn packed(bits: Seq<bool>) -> Seq<u8> {
    Seq::new(bits.len() / 8, |i: int| byte_of_bits(group_of(bits, i)) as u8)
}

/// Bit `position` of `byte`, position 0 being the most significant.
pub open spec fn bit_of_byte(byte: u8, position: int) -> bool
    recommends
        0 <= position < 8,
{
    if position == 0 {
        byte as int / 128 % 2 == 1
    } else if position == 1 {
        byte as int / 64 % 2 == 1
    } else if position == 2 {
        byte as int / 32 % 2 == 1
    } else if position == 3 {
        byte as int / 16 % 2 == 1
    } else if position == 4 {
        byte as int / 8 % 2 == 1
    } else if position == 5 {
        byte as int / 4 % 2 == 1
    } else if position == 6 {
        byte as int / 2 % 2 == 1
    } else {
        byte as int % 2 == 1
    }
}

/// The bits that `bytes` hold, eight for each byte, most significant first.
pub open spec fn unpacked(bytes: Seq<u8>) -> Seq<bool> {
    Seq::new(8 * bytes.len(), |i: int| bit_of_byte(bytes[i / 8], i % 8))
}

/// The number that a run of bits spells, the first being the most
/// significant.
spec fn value_of_bits(bits: Seq<bool>) -> int
    decreases bits.len(),
{
    if bits.len() == 0 {
        0
    } else {
        2 * value_of_bits(bits.drop_last()) + bit_value(bits.last())
    }
}

/// The bit that a byte of UTF-8 text stands for, if it stands for one.
spec fn bit_of_code(code: u8) -> Option<bool> {
    if code == 48 {
        Some(false)
    } else if code == 49 {
        Some(true)
    } else {
        None
    }
}

/// The bits that the bytes of a text spell, in the order in which they
/// occur.
spec fn bits_of_codes(codes: Seq<u8>) -> Seq<bool>
    decreases codes.len(),
{
    if codes.len() == 0 {
        Seq::empty()
    } else {
        let earlier = bits_of_codes(codes.drop_last());
        match bit_of_code(codes.last()) {
            Some(bit) => earlier.push(bit),
            None => earlier,
        }
    }
}

proof fn lemma_value_of_eight_bits(bits: Seq<bool>)
    requires
        bits.len() == 8,
    ensures
        value_of_bits(bits) == byte_of_bits(bits),
        0 <= byte_of_bits(bits) <= 255,
{
    let b7 = bits.drop_last();
    let b6 = b7.drop_last();
    let b5 = b6.drop_last();
    let b4 = b5.drop_last();
    let b3 = b4.drop_last();
    let b2 = b3.drop_last();
    let b1 = b2.drop_last();
    let b0 = b1.drop_last();
    assert(value_of_bits(b0) == 0);
    assert(value_of_bits(b1) == bit_value(bits[0]));
    assert(value_of_bits(b2) == 2 * value_of_bits(b1) + bit_value(bits[1]));
    assert(value_of_bits(b3) == 2 * value_of_bits(b2) + bit_value(bits[2]));
    assert(value_of_bits(b4) == 2 * value_of_bits(b3) + bit_value(bits[3]));
    assert(value_of_bits(b5) == 2 * value_of_bits(b4) + bit_value(bits[4]));
    assert(value_of_bits(b6) == 2 * value_of_bits(b5) + bit_value(bits[5]));
    assert(value_of_bits(b7) == 2 * value_of_bits(b6) + bit_value(bits[6]));
    assert(value_of_bits(bits) == 2 * value_of_bits(b7) + bit_value(bits[7]));
}

proof fn lemma_bits_of_codes_concat(a: Seq<u8>, b: Seq<u8>)
    ensures
        bits_of_codes(a + b) == bits_of_codes(a) + bits_of_codes(b),
    decreases b.len(),
{
    if b.len() == 0 {
        assert(a + b =~= a);
        assert(bits_of_codes(a) + bits_of_codes(b) =~= bits_of_codes(a));
    } else {
        lemma_bits_of_codes_concat(a, b.drop_last());
        assert((a + b).drop_last() =~= a + b.drop_last());
        assert((a + b).last() == b.last());
        assert(bits_of_codes(a + b) =~= bits_of_codes(a) + bits_of_codes(b));
    }
}

proof fn lemma_bits_of_text_concat(a: Seq<char>, b: Seq<char>)
    ensures
        bits_of_text(a + b) == bits_of_text(a) + bits_of_text(b),
    decreases b.len(),
{
    if b.len() == 0 {
        assert(a + b =~= a);
        assert(bits_of_text(a) + bits_of_text(b) =~= bits_of_text(a));
    } else {
        lemma_bits_of_text_concat(a, b.drop_last());
        assert((a + b).drop_last() =~= a + b.drop_last());
        assert((a + b).last() == b.last());
        assert(bits_of_text(a + b) =~= bits_of_text(a) + bits_of_text(b));
    }
}

/// The bytes that encode one character spell the bit that the character
/// stands for, and nothing where it stands for none.
proof fn lemma_bits_of_encoded_char(c: char)
    ensures
        bits_of_codes(encode_scalar(c as u32)) == bits_of_text(seq![c]),
{
    let scalar = c as u32;
    let codes = encode_scalar(scalar);
    assert(seq![c].drop_last() =~= Seq::<char>::empty());
    assert(bits_of_text(seq![c].drop_last()) =~= Seq::<bool>::empty());
    assert(bits_of_text(seq![c]) =~= match bit_of_char(c) {
        Some(bit) => seq![bit],
        None => Seq::<bool>::empty(),
    });
    if has_width_1_encoding(scalar) {
        assert((scalar & 0x7F) as u8 == scalar) by (bit_vector)
            requires
                scalar <= 0x7F,
        ;
        let code = (scalar & 0x7F) as u8;
        assert(codes =~= seq![code]);
        assert(codes.len() == 1 && codes.last() == code);
        assert(codes.drop_last() =~= Seq::<u8>::empty());
        assert(bits_of_codes(codes.drop_last()) =~= Seq::<bool>::empty());
        assert(code == 48 <==> c == '0');
        assert(code == 49 <==> c == '1');
        assert(bits_of_codes(codes) =~= bits_of_text(seq![c]));
    } else {
        assert(forall|i: int| 0 <= i < codes.len() ==> #[trigger] codes[i] >= 0x80) by {
            assert(0x80u8 | ((scalar & 0x3F) as u8) >= 0x80) by (bit_vector);
            assert(0x80u8 | (((scalar >> 6) & 0x3F) as u8) >= 0x80) by (bit_vector);
            assert(0x80u8 | (((scalar >> 12) & 0x3F) as u8) >= 0x80) by (bit_vector);
            assert(0xC0u8 | (((scalar >> 6) & 0x1F) as u8) >= 0x80) by (bit_vector);
            assert(0xE0u8 | (((scalar >> 12) & 0x0F) as u8) >= 0x80) by (bit_vector);
            assert(0xF0u8 | (((scalar >> 18) & 0x7) as u8) >= 0x80) by (bit_vector);
        }
        lemma_no_bits_in_high_codes(codes);
    }
}

/// Bytes from 0x80 upwards spell no bit.
proof fn lemma_no_bits_in_high_codes(codes: Seq<u8>)
    requires
        forall|i: int| 0 <= i < codes.len() ==> #[trigger] codes[i] >= 0x80,
    ensures
        bits_of_codes(codes) == Seq::<bool>::empty(),
    decreases codes.len(),
{
    if codes.len() > 0 {
        lemma_no_bits_in_high_codes(codes.drop_last());
    }
}

/// The UTF-8 encoding of a text spells the same bits as the text.
proof fn lemma_bits_of_encoding(text: Seq<char>)
    ensures
        bits_of_codes(encode_utf8(text)) == bits_of_text(text),
    decreases text.len(),
{
    if text.len() == 0 {
        assert(encode_utf8(text) =~= Seq::<u8>::empty());
    } else {
        let first = text[0];
        let rest = text.drop_first();
        lemma_bits_of_encoding(rest);
        lemma_bits_of_encoded_char(first);
        lemma_bits_of_codes_concat(encode_scalar(first as u32), encode_utf8(rest));
        lemma_bits_of_text_concat(seq![first], rest);
        assert(text =~= seq![first] + rest);
    }
}

/// Each of eight bits can be read back from the byte that they spell.
proof fn lemma_bit_of_packed_byte(bits: Seq<bool>, position: int)
    requires
        bits.len() == 8,
        0 <= position < 8,
    ensures
        bit_of_byte(byte_of_bits(bits) as u8, position) == bits[position],
{
}

/// Unpacking what was packed gives back every complete group of eight
/// bits, in order: nothing is lost but the bits left over at the end.
pub proof fn lemma_unpacked_packed(bits: Seq<bool>)
    ensures
        packed(bits).len() == bits.len() / 8,
        unpacked(packed(bits)) == bits.take(8 * (bits.len() as int / 8)),
{
    let bytes = packed(bits);
    let kept = bits.take(8 * (bits.len() as int / 8));
    assert forall|i: int| 0 <= i < kept.len() implies unpacked(bytes)[i] == kept[i] by {
        let group = group_of(bits, i / 8);
        lemma_bit_of_packed_byte(group, i % 8);
        assert(group[i % 8] == bits[i]);
    }
    assert(unpacked(bytes) =~= kept);
}

/// Packing is lossless on a text whose count of binary digits is a
/// multiple of eight: the packed bytes hold exactly the bits of the text.
/// For every text the number of bytes is the count of digits divided by
/// eight, rounded down.
pub proof fn lemma_pack_lossless(text: Seq<char>)
    ensures
        packed(bits_of_text(text)).len() == bits_of_text(text).len() / 8,
        bits_of_text(text).len() % 8 == 0 ==> unpacked(packed(bits_of_text(text))) == bits_of_text(
            text,
        ),
{
    let bits = bits_of_text(text);
    lemma_unpacked_packed(bits);
    if bits.len() % 8 == 0 {
        assert(bits.take(8 * (bits.len() as int / 8)) =~= bits);
    }
}

/// The bits at the end of `bits` that do not yet make a group of eight.
spec fn pending(bits: Seq<bool>) -> Seq<bool> {
    bits.subrange(bits.len() - bits.len() % 8, bits.len() as int)
}

proof fn lemma_value_of_bits_bound(bits: Seq<bool>)
    ensures
        0 <= value_of_bits(bits) < pow2(bits.len()),
    decreases bits.len(),
{
    if bits.len() == 0 {
        lemma2_to64();
    } else {
        lemma_value_of_bits_bound(bits.drop_last());
        lemma_pow2_unfold(bits.len());
    }
}

/// What one more bit does to the packed bytes and to the pending bits.
proof fn lemma_push_bit(bits: Seq<bool>, bit: bool)
    ensures
        bits.len() % 8 == 7 ==> {
            &&& packed(bits.push(bit)) == packed(bits).push(
                value_of_bits(pending(bits).push(bit)) as u8,
            )
            &&& pending(bits.push(bit)) == Seq::<bool>::empty()
        },
        bits.len() % 8 != 7 ==> {
            &&& packed(bits.push(bit)) == packed(bits)
            &&& pending(bits.push(bit)) == pending(bits).push(bit)
        },
{
    let more = bits.push(bit);
    let groups = bits.len() as int / 8;
    assert forall|i: int| 0 <= i < groups implies #[trigger] group_of(more, i) == group_of(
        bits,
        i,
    ) by {
        assert(group_of(more, i) =~= group_of(bits, i));
    }
    if bits.len() % 8 == 7 {
        let group = pending(bits).push(bit);
        assert(more.len() as int / 8 == groups + 1);
        assert(group_of(more, groups) =~= group);
        lemma_value_of_eight_bits(group);
        assert(packed(more) =~= packed(bits).push(value_of_bits(group) as u8));
        assert(pending(more) =~= Seq::<bool>::empty());
    } else {
        assert(more.len() as int / 8 == groups);
        assert(packed(more) =~= packed(bits));
        assert(pending(more) =~= pending(bits).push(bit));
    }
}

/// Packs the binary digits of `string` into bytes, eight digits to a byte
/// and the first of each eight in the most significant place. Characters
/// other than `0` and `1` are passed over; digits at the end that do not
/// fill a byte are dropped.
pub fn utf8_to_bytes(string: String) -> (bytes: Vec<u8>)
    ensures
        bytes@ == packed(bits_of_text(string@)),
        bytes@.len() == bits_of_text(string@).len() / 8,
        bits_of_text(string@).len() % 8 == 0 ==> unpacked(bytes@) == bits_of_text(string@),
{
    let codes: &[u8] = string.as_str().as_bytes();
    let mut bytes: Vec<u8> = Vec::new();
    let mut current: u8 = 0;
    let mut filled: u8 = 0;
    let mut i: usize = 0;
    assert(codes@.take(0) =~= Seq::<u8>::empty());
    assert(pending(Seq::<bool>::empty()) =~= Seq::<bool>::empty());
    assert(packed(Seq::<bool>::empty()) =~= Seq::<u8>::empty());
    while i < codes.len()
        invariant
            i <= codes.len(),
            filled == bits_of_codes(codes@.take(i as int)).len() % 8,
            bytes@ == packed(bits_of_codes(codes@.take(i as int))),
            current == value_of_bits(pending(bits_of_codes(codes@.take(i as int)))),
        decreases codes.len() - i,
    {
        let code: u8 = codes[i];
        let ghost bits = bits_of_codes(codes@.take(i as int));
        proof {
            assert(codes@.take(i + 1).drop_last() =~= codes@.take(i as int));
            assert(codes@.take(i + 1).last() == code);
        }
        if code == 48 || code == 49 {
            let digit: u8 = code - 48;
            proof {
                let bit = code == 49;
                assert(bits_of_codes(codes@.take(i + 1)) == bits.push(bit));
                lemma_push_bit(bits, bit);
                lemma_value_of_bits_bound(pending(bits));
                lemma_value_of_bits_bound(pending(bits).push(bit));
                lemma2_to64();
                assert(pending(bits).push(bit).drop_last() =~= pending(bits));
                assert(pending(bits).len() == filled);
                assert(pow2(filled as nat) <= 128) by {
                    lemma2_to64();
                }
            }
            current = current * 2 + digit;
            filled = filled + 1;
            if filled == 8 {
                bytes.push(current);
                current = 0;
                filled = 0;
            }
        }
        i = i + 1;
    }
    proof {
        assert(codes@.take(i as int) =~= codes@);
        lemma_bits_of_encoding(string@);
        lemma_pack_lossless(string@);
    }
    bytes
}

} // verus!
