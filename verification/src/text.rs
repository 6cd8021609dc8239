//! Verified text helpers: decimal and hexadecimal rendering, and ASCII case
//! folding for the case-insensitive names of the assembly language.

use vstd::prelude::*;

verus! {

/// The decimal digit character for `d`, which must be below 10.
pub open spec fn dec_char(d: int) -> char {
    if d == 0 {
        '0'
    } else if d == 1 {
        '1'
    } else if d == 2 {
        '2'
    } else if d == 3 {
        '3'
    } else if d == 4 {
        '4'
    } else if d == 5 {
        '5'
    } else if d == 6 {
        '6'
    } else if d == 7 {
        '7'
    } else if d == 8 {
        '8'
    } else {
        '9'
    }
}

/// The decimal rendering of the non-negative number `n`, without leading
/// zeros (except for `n == 0` itself).
pub open spec fn dec_str(n: int) -> Seq<char>
    decreases n,
{
    if n <= 9 {
        seq![dec_char(n)]
    } else {
        dec_str(n / 10).push(dec_char(n % 10))
    }
}

/// The rendering of a signed byte: a minus sign for negative values.
pub open spec fn i8_str(v: int) -> Seq<char> {
    if v < 0 {
        seq!['-'] + dec_str(-v)
    } else {
        dec_str(v)
    }
}

/// The lower hexadecimal digit character for `d`, which must be below 16.
pub open spec fn hex_char(d: int) -> char {
    if d == 10 {
        'a'
    } else if d == 11 {
        'b'
    } else if d == 12 {
        'c'
    } else if d == 13 {
        'd'
    } else if d == 14 {
        'e'
    } else if d == 15 {
        'f'
    } else {
        dec_char(d)
    }
}

/// The two-digit lower hexadecimal rendering of a byte.
pub open spec fn hex_byte_str(b: u8) -> Seq<char> {
    seq![hex_char(b as int / 16), hex_char(b as int % 16)]
}

/// A single decimal digit as a string slice.
fn dec_digit_str(d: u16) -> (s: &'static str)
    requires
        d < 10,
    ensures
        s@ == seq![dec_char(d as int)],
{
    proof {
        reveal_strlit("0");
        reveal_strlit("1");
        reveal_strlit("2");
        reveal_strlit("3");
        reveal_strlit("4");
        reveal_strlit("5");
        reveal_strlit("6");
        reveal_strlit("7");
        reveal_strlit("8");
        reveal_strlit("9");
    }
    let s = match d {
        0 => "0",
        1 => "1",
        2 => "2",
        3 => "3",
        4 => "4",
        5 => "5",
        6 => "6",
        7 => "7",
        8 => "8",
        _ => "9",
    };
    proof {
        assert(s@ =~= seq![dec_char(d as int)]);
    }
    s
}

/// A single lower hexadecimal digit as a string slice.
fn hex_digit_str(d: u8) -> (s: &'static str)
    requires
        d < 16,
    ensures
        s@ == seq![hex_char(d as int)],
{
    if d < 10 {
        dec_digit_str(d as u16)
    } else {
        proof {
            reveal_strlit("a");
            reveal_strlit("b");
            reveal_strlit("c");
            reveal_strlit("d");
            reveal_strlit("e");
            reveal_strlit("f");
        }
        let s = match d {
            10 => "a",
            11 => "b",
            12 => "c",
            13 => "d",
            14 => "e",
            _ => "f",
        };
        proof {
            assert(s@ =~= seq![hex_char(d as int)]);
        }
        s
    }
}

/// The decimal rendering of `v`.
pub fn dec_string(v: u16) -> (s: String)
    ensures
        s@ == dec_str(v as int),
    decreases v,
{
    if v <= 9 {
        String::from_str(dec_digit_str(v))
    } else {
        let s = dec_string(v / 10);
        let t = s.concat(dec_digit_str(v % 10));
        proof {
            assert(t@ =~= dec_str(v as int));
        }
        t
    }
}

/// The rendering of a signed byte offset, with a leading minus sign for
/// negative values.
pub fn i8_string(v: i8) -> (s: String)
    ensures
        s@ == i8_str(v as int),
{
    if v >= 0 {
        dec_string(v as u16)
    } else {
        let m: u16 = (-(v as i16)) as u16;
        proof {
            reveal_strlit("-");
        }
        let s = String::from_str("-").concat(dec_string(m).as_str());
        proof {
            assert(s@ =~= i8_str(v as int));
        }
        s
    }
}

/// The two-digit lower hexadecimal rendering of a byte.
pub fn hex_byte_string(b: u8) -> (s: String)
    ensures
        s@ == hex_byte_str(b),
{
    let s = String::from_str(hex_digit_str(b / 16)).concat(hex_digit_str(b % 16));
    proof {
        assert(s@ =~= hex_byte_str(b));
    }
    s
}

/// The ASCII uppercase counterpart of `c`; other characters are unchanged.
pub open spec fn upper(c: char) -> char {
    if c == 'a' {
        'A'
    } else if c == 'b' {
        'B'
    } else if c == 'c' {
        'C'
    } else if c == 'd' {
        'D'
    } else if c == 'e' {
        'E'
    } else if c == 'f' {
        'F'
    } else if c == 'g' {
        'G'
    } else if c == 'h' {
        'H'
    } else if c == 'i' {
        'I'
    } else if c == 'j' {
        'J'
    } else if c == 'k' {
        'K'
    } else if c == 'l' {
        'L'
    } else if c == 'm' {
        'M'
    } else if c == 'n' {
        'N'
    } else if c == 'o' {
        'O'
    } else if c == 'p' {
        'P'
    } else if c == 'q' {
        'Q'
    } else if c == 'r' {
        'R'
    } else if c == 's' {
        'S'
    } else if c == 't' {
        'T'
    } else if c == 'u' {
        'U'
    } else if c == 'v' {
        'V'
    } else if c == 'w' {
        'W'
    } else if c == 'x' {
        'X'
    } else if c == 'y' {
        'Y'
    } else if c == 'z' {
        'Z'
    } else {
        c
    }
}

/// The sequence `s` with every character ASCII-uppercased.
pub open spec fn upcase(s: Seq<char>) -> Seq<char> {
    s.map_values(|c: char| upper(c))
}

/// Exec counterpart of [`upper`].
pub fn upper_char(c: char) -> (u: char)
    ensures
        u == upper(c),
{
    match c {
        'a' => 'A',
        'b' => 'B',
        'c' => 'C',
        'd' => 'D',
        'e' => 'E',
        'f' => 'F',
        'g' => 'G',
        'h' => 'H',
        'i' => 'I',
        'j' => 'J',
        'k' => 'K',
        'l' => 'L',
        'm' => 'M',
        'n' => 'N',
        'o' => 'O',
        'p' => 'P',
        'q' => 'Q',
        'r' => 'R',
        's' => 'S',
        't' => 'T',
        'u' => 'U',
        'v' => 'V',
        'w' => 'W',
        'x' => 'X',
        'y' => 'Y',
        'z' => 'Z',
        _ => c,
    }
}

/// Whether two string slices hold the same characters.
pub fn str_eq(a: &str, b: &str) -> (r: bool)
    ensures
        r == (a@ == b@),
{
    let n = a.unicode_len();
    let m = b.unicode_len();
    if n != m {
        return false;
    }
    let mut i: usize = 0;
    while i < n
        invariant
            0 <= i <= n,
            n == a@.len(),
            n == b@.len(),
            forall|j: int| 0 <= j < i ==> a@[j] == b@[j],
        decreases n - i,
    {
        if a.get_char(i) != b.get_char(i) {
            return false;
        }
        i = i + 1;
    }
    proof {
        assert(a@ =~= b@);
    }
    true
}

/// Whether the uppercased view of `s` equals the view of `pat`.
///
/// `pat` is meant to be an already-uppercase name from the instruction or
/// register table, so this is the case-insensitive name comparison of the
/// assembly language.
pub fn eq_upcased(s: &str, pat: &str) -> (b: bool)
    ensures
        b == (upcase(s@) == pat@),
{
    let n = s.unicode_len();
    let m = pat.unicode_len();
    if n != m {
        proof {
            assert(upcase(s@).len() == s@.len());
        }
        return false;
    }
    let mut i: usize = 0;
    while i < n
        invariant
            0 <= i <= n,
            n == s@.len(),
            n == pat@.len(),
            forall|j: int| 0 <= j < i ==> upper(s@[j]) == pat@[j],
        decreases n - i,
    {
        let c = s.get_char(i);
        let p = pat.get_char(i);
        if upper_char(c) != p {
            proof {
                assert(upcase(s@)[i as int] == upper(s@[i as int]));
            }
            return false;
        }
        i = i + 1;
    }
    proof {
        assert(upcase(s@) =~= pat@);
    }
    true
}

} // verus!
