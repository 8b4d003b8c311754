//! Small helpers: the clock, hex text, sizes and ranges.

use vstd::prelude::*;
use vstd::std_specs::cmp::PartialOrdSpec;

use crate::text::{push_decimal_u64, push_str};

verus! {

/// Milliseconds since the Unix epoch, as the system clock reads them; zero
/// when the clock stands before the epoch.
///
/// Relies on std's `SystemTime::now`; nothing is promised of the reading.
#[verifier::external_body]
pub fn current_time_millis() -> (r: u64) {
    std::time::SystemTime::now().duration_since(std::time::UNIX_EPOCH).unwrap_or_default().as_millis() as u64
}

/// Whole seconds since the Unix epoch, as the system clock reads them.
pub fn current_time_secs() -> (r: u64) {
    current_time_millis() / 1000
}

/// The lowercase hex digit of a nibble.
pub open spec fn hex_char(n: u8) -> char {
    if n < 10 {
        ((n + '0' as u8) as u32) as char
    } else {
        ((n - 10 + 'a' as u8) as u32) as char
    }
}

/// Two lowercase hex digits for each byte.
pub open spec fn hex_of(b: Seq<u8>) -> Seq<char>
    decreases b.len(),
{
    if b.len() == 0 {
        Seq::empty()
    } else {
        hex_of(b.drop_last()) + seq![hex_char(b.last() / 16), hex_char(b.last() % 16)]
    }
}

fn hex_digit_str(n: u8) -> (r: &'static str)
    requires
        n < 16,
    ensures
        r@ == seq![hex_char(n)],
{
    proof {
        reveal_strlit("0");
        reveal_strlit("1");
        reveal_strlit("2");
        reveal_strlit("3");
        reveal_strlit("4");
        reveal_strlit("5");
        reveal_strlit("6");
        reveal_strlit("7");
        reveal_strlit("8");
        reveal_strlit("9");
        reveal_strlit("a");
        reveal_strlit("b");
        reveal_strlit("c");
        reveal_strlit("d");
        reveal_strlit("e");
        reveal_strlit("f");
    }
    let r = match n {
        0 => "0",
        1 => "1",
        2 => "2",
        3 => "3",
        4 => "4",
        5 => "5",
        6 => "6",
        7 => "7",
        8 => "8",
        9 => "9",
        10 => "a",
        11 => "b",
        12 => "c",
        13 => "d",
        14 => "e",
        _ => "f",
    };
    assert(r@ =~= seq![hex_char(n)]);
    r
}

/// Bytes as lowercase hex text.
pub fn bytes_to_hex(bytes: &[u8]) -> (r: String)
    ensures
        r@ == hex_of(bytes@),
{
    let mut r = String::new();
    let mut i: usize = 0;
    while i < bytes.len()
        invariant
            i <= bytes@.len(),
            r@ == hex_of(bytes@.subrange(0, i as int)),
        decreases bytes@.len() - i,
    {
        push_str(&mut r, hex_digit_str(bytes[i] / 16));
        push_str(&mut r, hex_digit_str(bytes[i] % 16));
        proof {
            let q = bytes@.subrange(0, i + 1);
            assert(q.drop_last() =~= bytes@.subrange(0, i as int));
            assert(q.last() == bytes@[i as int]);
            assert(r@ =~= hex_of(q));
        }
        i = i + 1;
    }
    assert(bytes@.subrange(0, bytes@.len() as int) =~= bytes@);
    r
}

/// The value of a hex digit of either case.
pub open spec fn hex_value(c: char) -> Option<u8> {
    if '0' <= c && c <= '9' {
        Some((c as u32 - '0' as u32) as u8)
    } else if 'a' <= c && c <= 'f' {
        Some((c as u32 - 'a' as u32 + 10) as u8)
    } else if 'A' <= c && c <= 'F' {
        Some((c as u32 - 'A' as u32 + 10) as u8)
    } else {
        None
    }
}

/// The byte that two characters denote in base 16, as std's
/// `u8::from_str_radix` reads them: two digits, or `+` and one digit.
pub open spec fn hex_pair(a: char, b: char) -> Option<u8> {
    match (hex_value(a), hex_value(b)) {
        (Some(x), Some(y)) => Some((x * 16 + y) as u8),
        (None, Some(y)) => if a == '+' {
            Some(y)
        } else {
            None
        },
        _ => None,
    }
}

/// Whether hex text of even length decodes pair by pair.
pub open spec fn hex_decodes(s: Seq<char>) -> bool {
    s.len() % 2 == 0 && forall|i: int| 0 <= i < s.len() / 2 ==> (#[trigger] hex_pair(s[2 * i], s[2 * i + 1])) is Some
}

/// The bytes of hex text that decodes.
pub open spec fn hex_bytes(s: Seq<char>) -> Seq<u8> {
    Seq::new((s.len() / 2) as nat, |i: int| hex_pair(s[2 * i], s[2 * i + 1])->Some_0)
}

fn hex_value_of(c: char) -> (r: Option<u8>)
    ensures
        r == hex_value(c),
{
    if '0' <= c && c <= '9' {
        Some(((c as u32) - ('0' as u32)) as u8)
    } else if 'a' <= c && c <= 'f' {
        Some(((c as u32) - ('a' as u32) + 10) as u8)
    } else if 'A' <= c && c <= 'F' {
        Some(((c as u32) - ('A' as u32) + 10) as u8)
    } else {
        None
    }
}

/// Decodes hex text of either case; fails on an odd length or a character
/// that is no hex digit.
pub fn hex_to_bytes(hex: &str) -> (r: Result<Vec<u8>, String>)
    ensures
        r is Ok <==> hex_decodes(hex@),
        r matches Ok(b) ==> b@ == hex_bytes(hex@),
{
    let n = hex.unicode_len();
    if n % 2 != 0 {
        return Err(String::from_str("Invalid hex string length"));
    }
    let mut bytes: Vec<u8> = Vec::new();
    let mut i: usize = 0;
    while i < n / 2
        invariant
            n == hex@.len(),
            n % 2 == 0,
            i <= n / 2,
            bytes@.len() == i,
            forall|j: int| 0 <= j < i ==> (#[trigger] hex_pair(hex@[2 * j], hex@[2 * j + 1])) is Some,
            forall|j: int| 0 <= j < i ==> #[trigger] bytes@[j] == hex_pair(hex@[2 * j], hex@[2 * j + 1])->Some_0,
        decreases n / 2 - i,
    {
        let a = hex.get_char(2 * i);
        let b = hex.get_char(2 * i + 1);
        let pair = match (hex_value_of(a), hex_value_of(b)) {
            (Some(x), Some(y)) => Some(x * 16 + y),
            (None, Some(y)) => if a == '+' {
                Some(y)
            } else {
                None
            },
            _ => None,
        };
        match pair {
            Some(v) => {
                bytes.push(v);
            },
            None => {
                assert(hex_pair(hex@[2 * i as int], hex@[2 * i + 1]) is None);
                return Err(String::from_str("Invalid hex character"));
            },
        }
        i = i + 1;
    }
    assert(bytes@ =~= hex_bytes(hex@));
    Ok(bytes)
}

/// Whether `value` lies between `min` and `max`, both included.
pub fn is_in_range<T: PartialOrd>(value: T, min: T, max: T) -> (r: bool)
    ensures
        T::obeys_partial_cmp_spec() ==> (r == ((value.partial_cmp_spec(&min) matches Some(
            core::cmp::Ordering::Greater | core::cmp::Ordering::Equal,
        )) && (value.partial_cmp_spec(&max) matches Some(
            core::cmp::Ordering::Less | core::cmp::Ordering::Equal,
        )))),
{
    value >= min && value <= max
}

/// A message id from a timestamp and a random 16-bit value: the timestamp
/// shifted left by 16 bits, the random value in the low 16 bits.
pub fn unique_id_from(timestamp: u64, random: u16) -> (r: u64)
    ensures
        r == ((timestamp % 0x1000000000000) * 0x10000 + random) as u64,
{
    (timestamp % 0x1000000000000) * 0x10000 + (random as u64)
}

/// Relies on rand's `random::<u16>`: a value drawn from the thread's
/// generator; nothing is promised of it.
#[verifier::external_body]
fn random_u16() -> (r: u16) {
    rand::random::<u16>()
}

/// A message id from the current time and a random value.
pub fn generate_unique_id() -> (r: u64) {
    unique_id_from(current_time_millis(), random_u16())
}

/// Units of `format_byte_size`, each 1024 times the one before.
pub open spec fn unit_name(k: nat) -> Seq<char> {
    if k == 0 {
        "B"@
    } else if k == 1 {
        "KB"@
    } else if k == 2 {
        "MB"@
    } else if k == 3 {
        "GB"@
    } else {
        "TB"@
    }
}

/// 1024 to the power `k`.
pub open spec fn pow1024(k: nat) -> nat
    decreases k,
{
    if k == 0 {
        1
    } else {
        1024 * pow1024((k - 1) as nat)
    }
}

/// The unit a size is shown in: the largest power of 1024 up to the size,
/// at most the fourth.
pub open spec fn size_exponent(size: nat) -> nat {
    if size >= pow1024(4) {
        4
    } else if size >= pow1024(3) {
        3
    } else if size >= pow1024(2) {
        2
    } else if size >= pow1024(1) {
        1
    } else {
        0
    }
}

/// A size in hundredths of its unit, rounded to nearest with ties to even.
pub open spec fn size_hundredths(size: nat) -> nat {
    let d = pow1024(size_exponent(size));
    let q = size * 100 / d;
    let rem = size * 100 % d;
    if 2 * rem > d || (2 * rem == d && q % 2 == 1) {
        q + 1
    } else {
        q
    }
}

/// The text of a size: `0 B`, or the value in its unit with two decimals.
pub open spec fn size_text(size: nat) -> Seq<char> {
    if size == 0 {
        "0 B"@
    } else {
        let h = size_hundredths(size);
        crate::text::decimal(h / 100) + "."@ + crate::text::decimal((h % 100) / 10) + crate::text::decimal(h % 10) + " "@ + unit_name(size_exponent(size))
    }
}

/// A size in bytes as text with its unit, computed exactly.
pub fn format_byte_size(size: usize) -> (r: String)
    ensures
        r@ == size_text(size as nat),
{
    if size == 0 {
        return String::from_str("0 B");
    }
    let s = size as u128;
    proof {
        reveal_with_fuel(pow1024, 5);
    }
    let (d, unit): (u128, &str) = if s >= 1099511627776 {
        (1099511627776, "TB")
    } else if s >= 1073741824 {
        (1073741824, "GB")
    } else if s >= 1048576 {
        (1048576, "MB")
    } else if s >= 1024 {
        (1024, "KB")
    } else {
        (1, "B")
    };
    assert(d == pow1024(size_exponent(size as nat)));
    assert(unit@ == unit_name(size_exponent(size as nat)));
    let q = s * 100 / d;
    let rem = s * 100 % d;
    let h = if 2 * rem > d || (2 * rem == d && q % 2 == 1) { q + 1 } else { q };
    assert(h == size_hundredths(size as nat));
    let mut r = String::new();
    push_decimal_u64(&mut r, (h / 100) as u64);
    push_str(&mut r, ".");
    push_decimal_u64(&mut r, ((h % 100) / 10) as u64);
    push_decimal_u64(&mut r, (h % 10) as u64);
    push_str(&mut r, " ");
    push_str(&mut r, unit);
    r
}

} // verus!
