use vstd::prelude::*;
use vstd::string::*;

verus! {

/// Whether `c` is an ASCII hexadecimal digit.
pub open spec fn is_hex_digit(c: char) -> bool {
    (48 <= c as u32 && c as u32 <= 57) || (97 <= c as u32 && c as u32 <= 102) || (65 <= c as u32
        && c as u32 <= 70)
}

/// The value of a hexadecimal digit, 0 for anything else.
pub open spec fn hex_digit_val(c: char) -> u8 {
    if 48 <= c as u32 && c as u32 <= 57 {
        (c as u32 - 48) as u8
    } else if 97 <= c as u32 && c as u32 <= 102 {
        (c as u32 - 87) as u8
    } else if 65 <= c as u32 && c as u32 <= 70 {
        (c as u32 - 55) as u8
    } else {
        0
    }
}

/// A hex payload is well-formed when its length is even and every character
/// is a hexadecimal digit.
pub open spec fn hex_valid(s: Seq<char>) -> bool {
    s.len() % 2 == 0 && (forall|i: int| 0 <= i < s.len() ==> is_hex_digit(s[i]))
}

/// The bytes denoted by a well-formed hex string, two digits per byte.
pub open spec fn hex_bytes_of(s: Seq<char>) -> Seq<u8> {
    Seq::new(
        s.len() / 2,
        |i: int| (hex_digit_val(s[2 * i]) as int * 16 + hex_digit_val(s[2 * i + 1]) as int) as u8,
    )
}

/// The lowercase hexadecimal digit for a nibble.
pub open spec fn nibble_char(n: u8) -> char {
    if n < 10 {
        ((48 + n) as u32) as char
    } else {
        ((87 + n) as u32) as char
    }
}

/// The lowercase hexadecimal rendering of a byte string, two digits per byte.
pub open spec fn hex_chars_of(b: Seq<u8>) -> Seq<char> {
    Seq::new(
        2 * b.len(),
        |i: int|
            if i % 2 == 0 {
                nibble_char((b[i / 2] as int / 16) as u8)
            } else {
                nibble_char((b[i / 2] as int % 16) as u8)
            },
    )
}

fn hex_val(c: char) -> (r: Option<u8>)
    ensures
        r is Some <==> is_hex_digit(c),
        r matches Some(v) ==> v == hex_digit_val(c) && v < 16,
{
    let u = c as u32;
    if 48 <= u && u <= 57 {
        Some((u - 48) as u8)
    } else if 97 <= u && u <= 102 {
        Some((u - 87) as u8)
    } else if 65 <= u && u <= 70 {
        Some((u - 55) as u8)
    } else {
        None
    }
}

/// Decode a hexadecimal string into bytes.  Succeeds exactly on well-formed
/// hex input and then returns the denoted bytes.
#[verifier::loop_isolation(false)]
pub fn hex_decode(s: &str) -> (r: Option<Vec<u8>>)
    ensures
        r is Some <==> hex_valid(s@),
        r matches Some(b) ==> b@ == hex_bytes_of(s@),
{
    let n = s.unicode_len();
    if n % 2 != 0 {
        return None;
    }
    let mut out: Vec<u8> = Vec::new();
    let mut i: usize = 0;
    while i < n / 2
        invariant
            0 <= i <= n / 2,
            n == s@.len(),
            n % 2 == 0,
            out@.len() == i,
            forall|j: int| 0 <= j < 2 * i ==> is_hex_digit(s@[j]),
            forall|j: int|
                0 <= j < i ==> out@[j] == (hex_digit_val(s@[2 * j]) as int * 16 + hex_digit_val(
                    s@[2 * j + 1],
                ) as int) as u8,
        decreases n / 2 - i,
    {
        let c_hi = s.get_char(2 * i);
        let c_lo = s.get_char(2 * i + 1);
        let hi = match hex_val(c_hi) {
            Some(v) => v,
            None => {
                return None;
            },
        };
        let lo = match hex_val(c_lo) {
            Some(v) => v,
            None => {
                return None;
            },
        };
        out.push(hi * 16 + lo);
        i = i + 1;
    }
    proof {
        assert(out@ =~= hex_bytes_of(s@));
    }
    Some(out)
}

pub(crate) fn nibble_str(n: u8) -> (r: &'static str)
    requires
        n < 16,
    ensures
        r@ =~= seq![nibble_char(n)],
{
    proof {
        reveal_strlit("0");
        reveal_strlit("1");
        reveal_strlit("2");
        reveal_strlit("3");
        reveal_strlit("4");
        reveal_strlit("5");
        reveal_strlit("6");
        reveal_strlit("7");
        reveal_strlit("8");
        reveal_strlit("9");
        reveal_strlit("a");
        reveal_strlit("b");
        reveal_strlit("c");
        reveal_strlit("d");
        reveal_strlit("e");
        reveal_strlit("f");
    }
    match n {
        0 => "0",
        1 => "1",
        2 => "2",
        3 => "3",
        4 => "4",
        5 => "5",
        6 => "6",
        7 => "7",
        8 => "8",
        9 => "9",
        10 => "a",
        11 => "b",
        12 => "c",
        13 => "d",
        14 => "e",
        _ => "f",
    }
}

/// Encode bytes as a lowercase hexadecimal string, two digits per byte.
#[verifier::loop_isolation(false)]
pub fn hex_encode(b: &[u8]) -> (r: String)
    ensures
        r@ == hex_chars_of(b@),
{
    let mut s = String::new();
    let mut i: usize = 0;
    while i < b.len()
        invariant
            0 <= i <= b@.len(),
            s@.len() == 2 * i,
            forall|j: int| 0 <= j < 2 * i ==> s@[j] == hex_chars_of(b@)[j],
        decreases b@.len() - i,
    {
        let x = b[i];
        s.append(nibble_str(x / 16));
        s.append(nibble_str(x % 16));
        i = i + 1;
    }
    proof {
        assert(s@ =~= hex_chars_of(b@));
    }
    s
}

/// Hexadecimal rendering is injective: distinct byte strings render to
/// distinct hex strings.
pub proof fn lemma_hex_chars_injective(a: Seq<u8>, b: Seq<u8>)
    requires
        hex_chars_of(a) == hex_chars_of(b),
    ensures
        a == b,
{
    assert(hex_chars_of(a).len() == 2 * a.len());
    assert(hex_chars_of(b).len() == 2 * b.len());
    assert(a.len() == b.len());
    assert forall|i: int| 0 <= i < a.len() implies a[i] == b[i] by {
        assert((2 * i) % 2 == 0 && (2 * i) / 2 == i);
        assert((2 * i + 1) % 2 == 1 && (2 * i + 1) / 2 == i);
        assert(hex_chars_of(a)[2 * i] == nibble_char((a[i] as int / 16) as u8));
        assert(hex_chars_of(b)[2 * i] == nibble_char((b[i] as int / 16) as u8));
        assert(hex_chars_of(a)[2 * i + 1] == nibble_char((a[i] as int % 16) as u8));
        assert(hex_chars_of(b)[2 * i + 1] == nibble_char((b[i] as int % 16) as u8));
        assert(nibble_char((a[i] as int / 16) as u8) == nibble_char((b[i] as int / 16) as u8));
        assert(nibble_char((a[i] as int % 16) as u8) == nibble_char((b[i] as int % 16) as u8));
        assert(a[i] as int == 16 * (a[i] as int / 16) + a[i] as int % 16);
        assert(b[i] as int == 16 * (b[i] as int / 16) + b[i] as int % 16);
    }
    assert(a =~= b);
}

} // verus!
