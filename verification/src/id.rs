//! Identifiers of connections, requests and responses.
//!
//! An identifier is 128 bits wide. It is either time-ordered, with the time
//! of its making in its leading bits, or random. Both kinds carry a version
//! mark of four bits and a variant mark of two, which leaves 122 bits to
//! time and chance.

use vstd::bytes::{
    lemma_auto_spec_u128_to_from_le_bytes, spec_u128_from_le_bytes, spec_u128_to_le_bytes,
    u128_from_le_bytes, u128_to_le_bytes,
};
use vstd::prelude::*;
use vstd::string::StringExecFns;
use crate::text::chars_of;

verus! {

/// The bits of an identifier that hold the version and the variant.
pub const MARK_BITS: u128 = 0x0000_0000_0000_F000_C000_0000_0000_0000;

/// The version and variant of a time-ordered identifier.
pub const TIME_ORDERED_MARK: u128 = 0x0000_0000_0000_7000_8000_0000_0000_0000;

/// The version and variant of a random identifier.
pub const RANDOM_MARK: u128 = 0x0000_0000_0000_4000_8000_0000_0000_0000;

/// The identifier of a connection, a request or a response.
#[derive(Debug, Clone, Copy, PartialEq, Eq, Structural, PartialOrd, Ord, Hash)]
pub struct Id(pub u128);

/// How a new identifier is made.
#[derive(Debug, Clone, Copy, PartialEq, Eq, Structural, Hash)]
pub enum IdStrategy {
    /// The time of making first, then chance: identifiers sort by age.
    TimeOrdered,
    /// Chance alone.
    Random,
}

/// The character that writes one hexadecimal digit.
pub open spec fn hex_char(d: nat) -> char
    recommends
        d < 16,
{
    if d == 0 {
        '0'
    } else if d == 1 {
        '1'
    } else if d == 2 {
        '2'
    } else if d == 3 {
        '3'
    } else if d == 4 {
        '4'
    } else if d == 5 {
        '5'
    } else if d == 6 {
        '6'
    } else if d == 7 {
        '7'
    } else if d == 8 {
        '8'
    } else if d == 9 {
        '9'
    } else if d == 10 {
        'a'
    } else if d == 11 {
        'b'
    } else if d == 12 {
        'c'
    } else if d == 13 {
        'd'
    } else if d == 14 {
        'e'
    } else {
        'f'
    }
}

/// The value of a hexadecimal digit in lower case, or `None` for any other
/// character.
pub open spec fn hex_value(c: char) -> Option<nat> {
    if c == '0' {
        Some(0)
    } else if c == '1' {
        Some(1)
    } else if c == '2' {
        Some(2)
    } else if c == '3' {
        Some(3)
    } else if c == '4' {
        Some(4)
    } else if c == '5' {
        Some(5)
    } else if c == '6' {
        Some(6)
    } else if c == '7' {
        Some(7)
    } else if c == '8' {
        Some(8)
    } else if c == '9' {
        Some(9)
    } else if c == 'a' {
        Some(10)
    } else if c == 'b' {
        Some(11)
    } else if c == 'c' {
        Some(12)
    } else if c == 'd' {
        Some(13)
    } else if c == 'e' {
        Some(14)
    } else if c == 'f' {
        Some(15)
    } else {
        None
    }
}

/// The last `width` hexadecimal digits of `bits`, most significant first.
pub open spec fn hex_text(bits: nat, width: nat) -> Seq<char>
    decreases width,
{
    if width == 0 {
        Seq::<char>::empty()
    } else {
        hex_text(bits / 16, (width - 1) as nat).push(hex_char(bits % 16))
    }
}

/// The number that the hexadecimal digits `s` write, or `None` where one
/// of the characters is no such digit.
pub open spec fn hex_number(s: Seq<char>) -> Option<nat>
    decreases s.len(),
{
    if s.len() == 0 {
        Some(0)
    } else {
        match (hex_number(s.drop_last()), hex_value(s.last())) {
            (Some(n), Some(d)) => Some(n * 16 + d),
            _ => None,
        }
    }
}

/// The identifier that the text `s` writes: 32 hexadecimal digits in lower
/// case. Any other text writes none.
pub open spec fn id_written(s: Seq<char>) -> Option<Id> {
    if s.len() == 32 {
        match hex_number(s) {
            Some(n) => if n <= u128::MAX {
                Some(Id(n as u128))
            } else {
                None
            },
            None => None,
        }
    } else {
        None
    }
}

/// The identifier that the bytes `s` hold: sixteen bytes, the least
/// significant first. Any other number of bytes holds none.
pub open spec fn id_held(s: Seq<u8>) -> Option<Id> {
    if s.len() == 16 {
        Some(Id(spec_u128_from_le_bytes(s)))
    } else {
        None
    }
}

/// A new time-ordered value from `uuid::Uuid::now_v7`, as its 128 bits.
/// Every value that call returns bears version 7 and the RFC variant.
/// Nothing more is claimed of it: it depends on the clock and on chance.
/// The call panics where the system's clock stands before 1970 or the
/// system gives no random bytes.
#[verifier::external_body]
fn fresh_time_ordered_bits() -> (bits: u128)
    ensures
        bits & MARK_BITS == TIME_ORDERED_MARK,
{
    uuid::Uuid::now_v7().as_u128()
}

/// A new random value from `uuid::Uuid::new_v4`, as its 128 bits. Every
/// value that call returns bears version 4 and the RFC variant. Nothing
/// more is claimed of it: it depends on chance. The call panics where the
/// system gives no random bytes.
#[verifier::external_body]
fn fresh_random_bits() -> (bits: u128)
    ensures
        bits & MARK_BITS == RANDOM_MARK,
{
    uuid::Uuid::new_v4().as_u128()
}

/// One hexadecimal digit as a one-character string.
fn hex_str(d: u8) -> (out: &'static str)
    requires
        d < 16,
    ensures
        out@ == seq![hex_char(d as nat)],
{
    proof {
        reveal_strlit("0");
        reveal_strlit("1");
        reveal_strlit("2");
        reveal_strlit("3");
        reveal_strlit("4");
        reveal_strlit("5");
        reveal_strlit("6");
        reveal_strlit("7");
        reveal_strlit("8");
        reveal_strlit("9");
        reveal_strlit("a");
        reveal_strlit("b");
        reveal_strlit("c");
        reveal_strlit("d");
        reveal_strlit("e");
        reveal_strlit("f");
    }
    let out = match d {
        0 => "0",
        1 => "1",
        2 => "2",
        3 => "3",
        4 => "4",
        5 => "5",
        6 => "6",
        7 => "7",
        8 => "8",
        9 => "9",
        10 => "a",
        11 => "b",
        12 => "c",
        13 => "d",
        14 => "e",
        _ => "f",
    };
    assert(out@ =~= seq![hex_char(d as nat)]);
    out
}

/// The value of one hexadecimal digit.
fn hex_of(c: char) -> (out: Option<u8>)
    ensures
        match out {
            Some(d) => d < 16 && hex_value(c) == Some(d as nat),
            None => hex_value(c) is None,
        },
{
    match c {
        '0' => Some(0),
        '1' => Some(1),
        '2' => Some(2),
        '3' => Some(3),
        '4' => Some(4),
        '5' => Some(5),
        '6' => Some(6),
        '7' => Some(7),
        '8' => Some(8),
        '9' => Some(9),
        'a' => Some(10),
        'b' => Some(11),
        'c' => Some(12),
        'd' => Some(13),
        'e' => Some(14),
        'f' => Some(15),
        _ => None,
    }
}

/// Appends the last `width` hexadecimal digits of `bits`.
fn push_hex(out: &mut String, bits: u128, width: u8)
    ensures
        final(out)@ == old(out)@ + hex_text(bits as nat, width as nat),
    decreases width,
{
    if width == 0 {
        assert(out@ =~= old(out)@ + hex_text(bits as nat, 0));
    } else {
        push_hex(out, bits / 16, width - 1);
        let d: u8 = (bits % 16) as u8;
        out.append(hex_str(d));
        assert(out@ =~= old(out)@ + hex_text(bits as nat, width as nat));
    }
}

impl Id {
    /// Whether this identifier bears the mark of the time-ordered kind.
    pub open spec fn is_time_ordered(self) -> bool {
        self.0 & MARK_BITS == TIME_ORDERED_MARK
    }

    /// Whether this identifier bears the mark of the random kind.
    pub open spec fn is_random(self) -> bool {
        self.0 & MARK_BITS == RANDOM_MARK
    }

    /// The leading 48 bits, which in a time-ordered identifier hold the
    /// time of its making in milliseconds since the Unix epoch.
    pub open spec fn leading_millis(self) -> u64 {
        (self.0 >> 80) as u64
    }

    /// The text that writes this identifier.
    pub open spec fn text(self) -> Seq<char> {
        hex_text(self.0 as nat, 32)
    }

    /// The sixteen bytes that hold this identifier, the least significant
    /// first.
    pub open spec fn bytes(self) -> Seq<u8> {
        spec_u128_to_le_bytes(self.0)
    }

    /// A new time-ordered identifier.
    pub fn new_time_ordered() -> (id: Id)
        ensures
            id.is_time_ordered(),
    {
        Id(fresh_time_ordered_bits())
    }

    /// A new random identifier.
    pub fn new_random() -> (id: Id)
        ensures
            id.is_random(),
    {
        Id(fresh_random_bits())
    }

    /// A new identifier of the kind that `strategy` names.
    pub fn generate(strategy: IdStrategy) -> (id: Id)
        ensures
            strategy == IdStrategy::TimeOrdered ==> id.is_time_ordered(),
            strategy == IdStrategy::Random ==> id.is_random(),
    {
        match strategy {
            IdStrategy::TimeOrdered => Id::new_time_ordered(),
            IdStrategy::Random => Id::new_random(),
        }
    }

    /// The time held in the leading 48 bits, in milliseconds since the Unix
    /// epoch: for a time-ordered identifier, the time of its making.
    pub fn millis(&self) -> (out: u64)
        ensures
            out == self.leading_millis(),
    {
        (self.0 >> 80) as u64
    }

    /// This identifier as text, for storage and for logs.
    pub fn to_string(&self) -> (out: String)
        ensures
            out@ == self.text(),
    {
        let mut out = String::new();
        push_hex(&mut out, self.0, 32);
        assert(out@ =~= self.text());
        out
    }

    /// This identifier as bytes.
    pub fn to_bytes(&self) -> (out: Vec<u8>)
        ensures
            out@ == self.bytes(),
            out@.len() == 16,
    {
        u128_to_le_bytes(self.0)
    }

    /// Reads an identifier from its bytes.
    pub fn from_bytes(bytes: &[u8]) -> (out: Option<Id>)
        ensures
            out == id_held(bytes@),
    {
        if bytes.len() == 16 {
            Some(Id(u128_from_le_bytes(bytes)))
        } else {
            None
        }
    }

    /// Reads an identifier from its text.
    pub fn from_str(s: &str) -> (out: Option<Id>)
        ensures
            out == id_written(s@),
    {
        let chars = chars_of(s);
        if chars.len() != 32 {
            return None;
        }
        let mut bits: u128 = 0;
        let mut i: usize = 0;
        assert(chars@.take(0) =~= Seq::<char>::empty());
        while i < 32
            invariant
                i <= 32,
                chars.len() == 32,
                chars@ == s@,
                hex_number(chars@.take(i as int)) == Some(bits as nat),
                bits < pow16(i as nat),
            decreases 32 - i,
        {
            proof {
                assert(chars@.take(i + 1).drop_last() =~= chars@.take(i as int));
                assert(chars@.take(i + 1).last() == chars@[i as int]);
                lemma_pow16(i as nat);
            }
            match hex_of(chars[i]) {
                Some(d) => {
                    bits = bits * 16 + d as u128;
                },
                None => {
                    proof {
                        lemma_hex_number_fails(chars@, i + 1);
                        assert(chars@.take(32) =~= chars@);
                    }
                    return None;
                },
            }
            i += 1;
        }
        assert(chars@.take(32) =~= chars@);
        Some(Id(bits))
    }
}

/// Sixteen to the power `n`.
pub open spec fn pow16(n: nat) -> nat
    decreases n,
{
    if n == 0 {
        1
    } else {
        16 * pow16((n - 1) as nat)
    }
}

/// Up to the thirty-second, the powers of sixteen fit 128 bits.
pub proof fn lemma_pow16(n: nat)
    requires
        n <= 32,
    ensures
        pow16(n) >= 1,
        n < 32 ==> pow16(n) * 16 == pow16(n + 1) && pow16(n + 1) <= u128::MAX + 1,
        n == 32 ==> pow16(n) == u128::MAX + 1,
    decreases 32 - n,
{
    if n < 32 {
        lemma_pow16(n + 1);
    } else {
        reveal_with_fuel(pow16, 33);
    }
}

/// Where a prefix holds a character that is no digit, so does the whole.
pub proof fn lemma_hex_number_fails(s: Seq<char>, upto: int)
    requires
        0 <= upto <= s.len(),
        hex_number(s.take(upto)) is None,
    ensures
        hex_number(s) is None,
    decreases s.len() - upto,
{
    if upto < s.len() {
        assert(s.take(upto + 1).drop_last() =~= s.take(upto));
        lemma_hex_number_fails(s, upto + 1);
    } else {
        assert(s.take(upto) =~= s);
    }
}

/// The digits written for `bits` are read back as `bits`, as far as the
/// digits reach.
pub proof fn lemma_hex_text_number(bits: nat, width: nat)
    ensures
        hex_text(bits, width).len() == width,
        hex_number(hex_text(bits, width)) == Some(bits % pow16(width)),
    decreases width,
{
    if width > 0 {
        lemma_hex_text_number(bits / 16, (width - 1) as nat);
        let head = hex_text(bits / 16, (width - 1) as nat);
        let s = hex_text(bits, width);
        assert(s.drop_last() =~= head);
        assert(s.last() == hex_char(bits % 16));
        assert(hex_value(hex_char(bits % 16)) == Some(bits % 16));
        let p = pow16((width - 1) as nat);
        lemma_pow16_positive((width - 1) as nat);
        vstd::arithmetic::div_mod::lemma_breakdown(bits as int, 16, p as int);
    } else {
        assert(bits % 1 == 0);
    }
}

/// Every power of sixteen is at least one.
pub proof fn lemma_pow16_positive(n: nat)
    ensures
        pow16(n) >= 1,
    decreases n,
{
    if n > 0 {
        lemma_pow16_positive((n - 1) as nat);
    }
}

/// An identifier is read back from its own text.
pub proof fn lemma_id_text_round_trip(id: Id)
    ensures
        id_written(id.text()) == Some(id),
{
    lemma_hex_text_number(id.0 as nat, 32);
    lemma_pow16(32);
    let bits = id.0 as nat;
    let p = pow16(32);
    assert(bits % p == bits) by (nonlinear_arith)
        requires
            bits < p,
    ;
}

/// An identifier is read back from its own bytes.
pub proof fn lemma_id_bytes_round_trip(id: Id)
    ensures
        id_held(id.bytes()) == Some(id),
{
    lemma_auto_spec_u128_to_from_le_bytes();
}

/// Of two identifiers, the one with the earlier time in its leading bits
/// is the smaller: time-ordered identifiers sort by the time of their
/// making.
pub proof fn lemma_earlier_sorts_first(a: Id, b: Id)
    requires
        a.leading_millis() < b.leading_millis(),
    ensures
        a.0 < b.0,
{
    let x = a.0;
    let y = b.0;
    assert((x >> 80) < (y >> 80) ==> x < y) by (bit_vector);
    assert((x >> 80) < 0x1_0000_0000_0000u128) by (bit_vector);
    assert((y >> 80) < 0x1_0000_0000_0000u128) by (bit_vector);
}

} // verus!
