use vstd::prelude::*;
use vstd::string::StringExecFns;

verus! {

/// The 128-bit name of an island.
#[derive(Clone, Copy, Debug, PartialEq, Eq, Structural, Hash)]
pub struct IslandId(pub u128);

/// `uuid::Uuid::new_v4`, read through `Uuid::as_u128`: 128 bits from the
/// random source of the system, of which six are then set to mark the value
/// as a random identifier: the four bits of the version to 4 and the two of
/// the variant to binary 10. Which bits come is a matter of chance. The call
/// panics where the system has no random bytes to give.
#[verifier::external_body]
fn random_bits() -> (bits: u128)
    ensures
        (bits >> 76u32) & 0xf == 4,
        (bits >> 62u32) & 0x3 == 2,
{
    uuid::Uuid::new_v4().as_u128()
}

/// The character that writes the hexadecimal digit `d` in lower case.
pub open spec fn hex_char(d: u128) -> char {
    if d == 0 {
        '0'
    } else if d == 1 {
        '1'
    } else if d == 2 {
        '2'
    } else if d == 3 {
        '3'
    } else if d == 4 {
        '4'
    } else if d == 5 {
        '5'
    } else if d == 6 {
        '6'
    } else if d == 7 {
        '7'
    } else if d == 8 {
        '8'
    } else if d == 9 {
        '9'
    } else if d == 10 {
        'a'
    } else if d == 11 {
        'b'
    } else if d == 12 {
        'c'
    } else if d == 13 {
        'd'
    } else if d == 14 {
        'e'
    } else {
        'f'
    }
}

/// The `k`-th hexadecimal digit of `bits`, counted from the highest.
pub open spec fn hex_digit(bits: u128, k: int) -> u128 {
    if k == 0 {
        (bits >> 124u32) & 0xf
    } else if k == 1 {
        (bits >> 120u32) & 0xf
    } else if k == 2 {
        (bits >> 116u32) & 0xf
    } else if k == 3 {
        (bits >> 112u32) & 0xf
    } else {
        (bits >> 108u32) & 0xf
    }
}

/// The first five hexadecimal digits of `bits`.
pub open spec fn short_text(bits: u128) -> Seq<char> {
    Seq::new(5, |k: int| hex_char(hex_digit(bits, k)))
}

fn hex_str(d: u128) -> (s: &'static str)
    requires
        d < 16,
    ensures
        s@ == seq![hex_char(d)],
{
    proof {
        reveal_strlit("0");
        reveal_strlit("1");
        reveal_strlit("2");
        reveal_strlit("3");
        reveal_strlit("4");
        reveal_strlit("5");
        reveal_strlit("6");
        reveal_strlit("7");
        reveal_strlit("8");
        reveal_strlit("9");
        reveal_strlit("a");
        reveal_strlit("b");
        reveal_strlit("c");
        reveal_strlit("d");
        reveal_strlit("e");
        reveal_strlit("f");
    }
    let s = if d == 0 {
        "0"
    } else if d == 1 {
        "1"
    } else if d == 2 {
        "2"
    } else if d == 3 {
        "3"
    } else if d == 4 {
        "4"
    } else if d == 5 {
        "5"
    } else if d == 6 {
        "6"
    } else if d == 7 {
        "7"
    } else if d == 8 {
        "8"
    } else if d == 9 {
        "9"
    } else if d == 10 {
        "a"
    } else if d == 11 {
        "b"
    } else if d == 12 {
        "c"
    } else if d == 13 {
        "d"
    } else if d == 14 {
        "e"
    } else {
        "f"
    };
    assert(s@ =~= seq![hex_char(d)]);
    s
}

impl IslandId {
    /// A name that no other island is likely to bear.
    pub fn random() -> (id: IslandId)
        ensures
            (id.0 >> 76u32) & 0xf == 4,
            (id.0 >> 62u32) & 0x3 == 2,
    {
        IslandId(random_bits())
    }
}

/// The short form of an island's name, for the eyes of an operator: its
/// first five hexadecimal digits.
pub fn short_id(id: &IslandId) -> (text: String)
    ensures
        text@ == short_text(id.0),
{
    let bits = id.0;
    let d0 = (bits >> 124u32) & 0xf;
    let d1 = (bits >> 120u32) & 0xf;
    let d2 = (bits >> 116u32) & 0xf;
    let d3 = (bits >> 112u32) & 0xf;
    let d4 = (bits >> 108u32) & 0xf;
    assert(d0 < 16 && d1 < 16 && d2 < 16 && d3 < 16 && d4 < 16) by (bit_vector)
        requires
            d0 == (bits >> 124u32) & 0xf,
            d1 == (bits >> 120u32) & 0xf,
            d2 == (bits >> 116u32) & 0xf,
            d3 == (bits >> 112u32) & 0xf,
            d4 == (bits >> 108u32) & 0xf,
    ;
    let mut text = String::from_str(hex_str(d0));
    text.append(hex_str(d1));
    text.append(hex_str(d2));
    text.append(hex_str(d3));
    text.append(hex_str(d4));
    assert(text@ =~= short_text(id.0));
    text
}

} // verus!
