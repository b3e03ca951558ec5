//! The fixed physical keypad layout: which hex value each of the sixteen
//! logical key positions carries, and back.
use vstd::prelude::*;

verus! {

/// The hex value printed on the key at each position of the standard layout
/// (four rows of four keys, read left to right, top to bottom).
pub open spec fn layout() -> Seq<u8> {
    seq![0x1u8, 0x2, 0x3, 0xC, 0x4, 0x5, 0x6, 0xD, 0x7, 0x8, 0x9, 0xE, 0xA, 0x0, 0xB, 0xF]
}

/// The position of the key that carries each hex value (the inverse of `layout`).
pub open spec fn positions() -> Seq<u8> {
    seq![0xDu8, 0x0, 0x1, 0x2, 0x4, 0x5, 0x6, 0x8, 0x9, 0xA, 0xC, 0xE, 0x3, 0x7, 0xB, 0xF]
}

/// The hex value of the key at `index`, or 0 for an index past the keypad.
pub open spec fn key_value(index: int) -> u8 {
    if 0 <= index < 16 { layout()[index] } else { 0 }
}

/// The keypad position of the key that carries the hex value `value`, or 0
/// for a value that no key carries.
pub open spec fn key_index(value: int) -> int {
    if 0 <= value < 16 { positions()[value] as int } else { 0 }
}

/// `layout` and `positions` are inverse permutations of `0..16`.
pub proof fn lemma_layout_inverse()
    ensures
        forall|v: int| 0 <= v < 16 ==> #[trigger] layout()[positions()[v] as int] == v,
        forall|k: int| 0 <= k < 16 ==> #[trigger] positions()[layout()[k] as int] == k,
{
    assert forall|v: int| 0 <= v < 16 implies #[trigger] layout()[positions()[v] as int] == v by {
        if v == 0 {} else if v == 1 {} else if v == 2 {} else if v == 3 {}
        else if v == 4 {} else if v == 5 {} else if v == 6 {} else if v == 7 {}
        else if v == 8 {} else if v == 9 {} else if v == 10 {} else if v == 11 {}
        else if v == 12 {} else if v == 13 {} else if v == 14 {} else {}
    }
    assert forall|k: int| 0 <= k < 16 implies #[trigger] positions()[layout()[k] as int] == k by {
        if k == 0 {} else if k == 1 {} else if k == 2 {} else if k == 3 {}
        else if k == 4 {} else if k == 5 {} else if k == 6 {} else if k == 7 {}
        else if k == 8 {} else if k == 9 {} else if k == 10 {} else if k == 11 {}
        else if k == 12 {} else if k == 13 {} else if k == 14 {} else {}
    }
}

/// The hex value of the key at position `index` (0 past the keypad).
pub fn value_from_index(index: u8) -> (r: u8)
    ensures
        r == key_value(index as int),
{
    match index {
        0 => 0x1,
        1 => 0x2,
        2 => 0x3,
        3 => 0xC,
        4 => 0x4,
        5 => 0x5,
        6 => 0x6,
        7 => 0xD,
        8 => 0x7,
        9 => 0x8,
        10 => 0x9,
        11 => 0xE,
        12 => 0xA,
        13 => 0x0,
        14 => 0xB,
        15 => 0xF,
        _ => 0,
    }
}

/// The keypad position of the key that carries the hex value `value`, or 0
/// for a value that no key carries.
pub fn index_from_value(value: u8) -> (r: usize)
    ensures
        r == key_index(value as int),
        r < 16,
        value < 16 ==> key_value(r as int) == value,
        value >= 16 ==> r == 0,
{
    proof {
        lemma_layout_inverse();
    }
    match value {
        0x0 => 13,
        0x1 => 0,
        0x2 => 1,
        0x3 => 2,
        0x4 => 4,
        0x5 => 5,
        0x6 => 6,
        0x7 => 8,
        0x8 => 9,
        0x9 => 10,
        0xA => 12,
        0xB => 14,
        0xC => 3,
        0xD => 7,
        0xE => 11,
        0xF => 15,
        _ => 0,
    }
}

} // verus!
