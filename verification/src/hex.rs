//! Byte values as `0xXX` strings: formatting, parsing, and the round trip
//! between them.

use vstd::prelude::*;

verus! {

/// The character for one hexadecimal digit, upper case.
pub open spec fn spec_hex_digit(d: int) -> char
    recommends
        0 <= d < 16,
{
    if d == 0 {
        '0'
    } else if d == 1 {
        '1'
    } else if d == 2 {
        '2'
    } else if d == 3 {
        '3'
    } else if d == 4 {
        '4'
    } else if d == 5 {
        '5'
    } else if d == 6 {
        '6'
    } else if d == 7 {
        '7'
    } else if d == 8 {
        '8'
    } else if d == 9 {
        '9'
    } else if d == 10 {
        'A'
    } else if d == 11 {
        'B'
    } else if d == 12 {
        'C'
    } else if d == 13 {
        'D'
    } else if d == 14 {
        'E'
    } else {
        'F'
    }
}

/// The four characters `0xXX` for a byte.
pub open spec fn spec_hex_str(b: u8) -> Seq<char> {
    seq!['0', 'x', spec_hex_digit(b as int / 16), spec_hex_digit(b as int % 16)]
}

fn hex_digit_str(d: u8) -> (r: &'static str)
    requires
        d < 16,
    ensures
        r@ =~= seq![spec_hex_digit(d as int)],
{
    match d {
        0 => {
            proof { reveal_strlit("0"); }
            "0"
        },
        1 => {
            proof { reveal_strlit("1"); }
            "1"
        },
        2 => {
            proof { reveal_strlit("2"); }
            "2"
        },
        3 => {
            proof { reveal_strlit("3"); }
            "3"
        },
        4 => {
            proof { reveal_strlit("4"); }
            "4"
        },
        5 => {
            proof { reveal_strlit("5"); }
            "5"
        },
        6 => {
            proof { reveal_strlit("6"); }
            "6"
        },
        7 => {
            proof { reveal_strlit("7"); }
            "7"
        },
        8 => {
            proof { reveal_strlit("8"); }
            "8"
        },
        9 => {
            proof { reveal_strlit("9"); }
            "9"
        },
        10 => {
            proof { reveal_strlit("A"); }
            "A"
        },
        11 => {
            proof { reveal_strlit("B"); }
            "B"
        },
        12 => {
            proof { reveal_strlit("C"); }
            "C"
        },
        13 => {
            proof { reveal_strlit("D"); }
            "D"
        },
        14 => {
            proof { reveal_strlit("E"); }
            "E"
        },
        _ => {
            proof { reveal_strlit("F"); }
            "F"
        },
    }
}

/// Format a byte as `0xXX`, upper-case digits.
pub fn to_hex_byte(b: u8) -> (r: String)
    ensures
        r@ == spec_hex_str(b),
{
    proof {
        reveal_strlit("0x");
    }
    let mut s = String::from_str("0x");
    s.append(hex_digit_str(b / 16));
    s.append(hex_digit_str(b % 16));
    proof {
        assert(s@ =~= spec_hex_str(b));
    }
    s
}

/// Whether a character counts as trimmable whitespace.
pub open spec fn spec_is_space(c: char) -> bool {
    c == ' ' || c == '\t' || c == '\n' || c == '\r'
}

/// The sequence without its leading whitespace.
pub open spec fn spec_trim_front(s: Seq<char>) -> Seq<char>
    decreases s.len(),
{
    if s.len() > 0 && spec_is_space(s[0]) {
        spec_trim_front(s.drop_first())
    } else {
        s
    }
}

/// The sequence without its trailing whitespace.
pub open spec fn spec_trim_back(s: Seq<char>) -> Seq<char>
    decreases s.len(),
{
    if s.len() > 0 && spec_is_space(s[s.len() - 1]) {
        spec_trim_back(s.drop_last())
    } else {
        s
    }
}

/// The sequence without leading and trailing whitespace.
pub open spec fn spec_trim(s: Seq<char>) -> Seq<char> {
    spec_trim_back(spec_trim_front(s))
}

/// The value of one digit character under the given radix (10 or 16), or
/// nothing if the character is no digit of that radix.
pub open spec fn spec_digit_val(c: char, radix: int) -> Option<int> {
    let v = if '0' <= c && c <= '9' {
        c as int - '0' as int
    } else if 'a' <= c && c <= 'f' {
        c as int - 'a' as int + 10
    } else if 'A' <= c && c <= 'F' {
        c as int - 'A' as int + 10
    } else {
        16
    };
    if v < radix {
        Some(v)
    } else {
        None
    }
}

/// The value of a digit string under the given radix; the empty string has
/// value 0, and any non-digit character spoils the whole string.
pub open spec fn spec_digits_val(s: Seq<char>, radix: int) -> Option<int>
    decreases s.len(),
{
    if s.len() == 0 {
        Some(0)
    } else {
        match (spec_digits_val(s.drop_last(), radix), spec_digit_val(s.last(), radix)) {
            (Some(v), Some(d)) => Some(v * radix + d),
            _ => None,
        }
    }
}

/// A non-empty digit string's value under the given radix.
pub open spec fn spec_parse_uint(s: Seq<char>, radix: int) -> Option<int> {
    if s.len() == 0 {
        None
    } else {
        spec_digits_val(s, radix)
    }
}

/// The byte a register-address or data string denotes: after trimming
/// whitespace, either `0x`/`0X` followed by hexadecimal digits, or a plain
/// decimal number; values over 255 do not parse.
pub open spec fn spec_parse_byte(s: Seq<char>) -> Option<u8> {
    let t = spec_trim(s);
    let v = if t.len() >= 2 && t[0] == '0' && (t[1] == 'x' || t[1] == 'X') {
        spec_parse_uint(t.subrange(2, t.len() as int), 16)
    } else {
        spec_parse_uint(t, 10)
    };
    match v {
        Some(n) => if n <= 255 {
            Some(n as u8)
        } else {
            None
        },
        None => None,
    }
}

/// When every character before `i` is whitespace, trimming the front removes
/// exactly those characters.
proof fn lemma_trim_front_range(s: Seq<char>, i: int)
    requires
        0 <= i <= s.len(),
        forall|j: int| 0 <= j < i ==> spec_is_space(s[j]),
        i < s.len() ==> !spec_is_space(s[i]),
    ensures
        spec_trim_front(s) =~= s.subrange(i, s.len() as int),
    decreases i,
{
    if i == 0 {
        if s.len() > 0 {
            assert(!spec_is_space(s[0]));
        }
        assert(spec_trim_front(s) =~= s.subrange(0, s.len() as int));
    } else {
        assert(spec_is_space(s[0]));
        let d = s.drop_first();
        assert(forall|j: int| 0 <= j < i - 1 ==> spec_is_space(d[j]));
        lemma_trim_front_range(d, i - 1);
        assert(d.subrange(i - 1, d.len() as int) =~= s.subrange(i, s.len() as int));
    }
}

/// When every character from `i` on is whitespace, trimming the back removes
/// exactly those characters.
proof fn lemma_trim_back_range(s: Seq<char>, i: int)
    requires
        0 <= i <= s.len(),
        forall|j: int| i <= j < s.len() ==> spec_is_space(s[j]),
        i > 0 ==> !spec_is_space(s[i - 1]),
    ensures
        spec_trim_back(s) =~= s.subrange(0, i),
    decreases s.len() - i,
{
    if i == s.len() {
        if s.len() > 0 {
            assert(!spec_is_space(s[s.len() - 1]));
        }
        assert(spec_trim_back(s) =~= s.subrange(0, i));
    } else {
        assert(spec_is_space(s[s.len() - 1]));
        let d = s.drop_last();
        lemma_trim_back_range(d, i);
    }
}

fn is_space_char(c: char) -> (r: bool)
    ensures
        r == spec_is_space(c),
{
    c == ' ' || c == '\t' || c == '\n' || c == '\r'
}

fn digit_val(c: char, hex: bool) -> (r: Option<u8>)
    ensures
        r matches Some(d) ==> spec_digit_val(c, if hex { 16int } else { 10int }) == Some(d as int),
        r is None ==> spec_digit_val(c, if hex { 16int } else { 10int }) is None,
        r matches Some(d) ==> d < 16,
{
    if '0' <= c && c <= '9' {
        Some(c as u8 - '0' as u8)
    } else if hex && 'a' <= c && c <= 'f' {
        Some(c as u8 - 'a' as u8 + 10)
    } else if hex && 'A' <= c && c <= 'F' {
        Some(c as u8 - 'A' as u8 + 10)
    } else {
        None
    }
}

/// Values over 255 stay over 255 when more digits follow.
proof fn lemma_digits_val_grows(s: Seq<char>, i: int, radix: int)
    requires
        0 <= i <= s.len(),
        radix == 10 || radix == 16,
        spec_digits_val(s.subrange(0, i), radix) matches Some(v) && v > 255,
    ensures
        spec_digits_val(s, radix) matches Some(v) ==> v > 255,
    decreases s.len() - i,
{
    if i == s.len() {
        assert(s.subrange(0, i) =~= s);
    } else {
        let p = s.subrange(0, i);
        let q = s.subrange(0, i + 1);
        assert(q.drop_last() =~= p);
        let vp = spec_digits_val(p, radix)->0;
        match spec_digit_val(s[i], radix) {
            Some(d) => {
                assert(spec_digits_val(q, radix) == Some(vp * radix + d));
                assert(vp * radix + d > 255) by (nonlinear_arith)
                    requires
                        vp > 255,
                        radix >= 10,
                        d >= 0,
                ;
                lemma_digits_val_grows(s, i + 1, radix);
            },
            None => {
                lemma_digits_none_stays_none(s, i + 1, radix);
            },
        }
    }
}

/// A spoiled digit prefix spoils the whole string.
proof fn lemma_digits_none_stays_none(s: Seq<char>, i: int, radix: int)
    requires
        0 <= i <= s.len(),
        spec_digits_val(s.subrange(0, i), radix) is None,
    ensures
        spec_digits_val(s, radix) is None,
    decreases s.len() - i,
{
    if i == s.len() {
        assert(s.subrange(0, i) =~= s);
    } else {
        assert(s.subrange(0, i + 1).drop_last() =~= s.subrange(0, i));
        lemma_digits_none_stays_none(s, i + 1, radix);
    }
}

/// Parse a register-address or data string as a byte: optional surrounding
/// whitespace, then `0x`/`0X` and hexadecimal digits or a plain decimal
/// number. Anything else, and any value over 255, gives nothing.
pub fn parse_hex_byte(value: &str) -> (r: Option<u8>)
    ensures
        r == spec_parse_byte(value@),
{
    let ghost s = value@;
    let len = value.unicode_len();
    let mut lo: usize = 0;
    while lo < len && is_space_char(value.get_char(lo))
        invariant
            s == value@,
            0 <= lo <= len,
            len == s.len(),
            forall|j: int| 0 <= j < lo ==> spec_is_space(s[j]),
        decreases len - lo,
    {
        lo = lo + 1;
    }
    let mut hi: usize = len;
    while hi > lo && is_space_char(value.get_char(hi - 1))
        invariant
            s == value@,
            lo <= hi <= len,
            len == s.len(),
            forall|j: int| 0 <= j < lo ==> spec_is_space(s[j]),
            lo < s.len() ==> !spec_is_space(s[lo as int]),
            forall|j: int| hi <= j < len ==> spec_is_space(s[j]),
        decreases hi,
    {
        hi = hi - 1;
    }
    proof {
        lemma_trim_front_range(s, lo as int);
        let f = s.subrange(lo as int, s.len() as int);
        if hi > lo {
            lemma_trim_back_range(f, hi - lo);
        } else {
            lemma_trim_back_range(f, 0);
        }
        assert(f.subrange(0, hi - lo) =~= s.subrange(lo as int, hi as int));
        assert(spec_trim(s) =~= s.subrange(lo as int, hi as int));
    }
    let ghost t = spec_trim(s);
    let hex = hi - lo >= 2 && value.get_char(lo) == '0' && {
        let c1 = value.get_char(lo + 1);
        c1 == 'x' || c1 == 'X'
    };
    let start = if hex {
        lo + 2
    } else {
        lo
    };
    let ghost body = s.subrange(start as int, hi as int);
    proof {
        if hex {
            assert(body =~= t.subrange(2, t.len() as int));
        } else {
            assert(body =~= t);
        }
    }
    if start == hi {
        return None;
    }
    let ghost radix: int = if hex { 16 } else { 10 };
    let mut acc: u32 = 0;
    let mut i: usize = start;
    while i < hi
        invariant
            s == value@,
            start <= i <= hi <= len,
            len == s.len(),
            hi - start > 0,
            body =~= s.subrange(start as int, hi as int),
            radix == if hex { 16int } else { 10int },
            spec_trim(s) =~= s.subrange(lo as int, hi as int),
            hex == (spec_trim(s).len() >= 2 && spec_trim(s)[0] == '0' && (spec_trim(s)[1]
                == 'x' || spec_trim(s)[1] == 'X')),
            body =~= if hex {
                spec_trim(s).subrange(2, spec_trim(s).len() as int)
            } else {
                spec_trim(s)
            },
            match spec_digits_val(body.subrange(0, i - start), radix) {
                Some(v) => (v <= 255 && acc == v) || (v > 255 && acc == 256),
                None => false,
            },
        decreases hi - i,
    {
        let c = value.get_char(i);
        let ghost prefix = body.subrange(0, i - start);
        let ghost prefix1 = body.subrange(0, i + 1 - start);
        proof {
            assert(prefix1.drop_last() =~= prefix);
            assert(prefix1.last() == s[i as int]);
        }
        match digit_val(c, hex) {
            Some(d) => {
                let next = if hex {
                    acc * 16 + d as u32
                } else {
                    acc * 10 + d as u32
                };
                proof {
                    let vp = spec_digits_val(prefix, radix)->0;
                    if vp > 255 {
                        assert(vp * radix + d > 255) by (nonlinear_arith)
                            requires
                                vp > 255,
                                radix >= 10,
                                d >= 0,
                        ;
                    }
                }
                if next > 255 {
                    acc = 256;
                } else {
                    acc = next;
                }
            },
            None => {
                proof {
                    assert(spec_digits_val(prefix1, radix) is None);
                    lemma_digits_none_stays_none(body, i + 1 - start, radix);
                }
                return None;
            },
        }
        i = i + 1;
    }
    proof {
        assert(body.subrange(0, hi - start) =~= body);
    }
    if acc <= 255 {
        Some(acc as u8)
    } else {
        proof {
            lemma_digits_val_grows(body, body.len() as int, radix);
        }
        None
    }
}

/// Formatting a byte and parsing the string back returns the byte.
pub proof fn lemma_hex_round_trip(b: u8)
    ensures
        spec_parse_byte(spec_hex_str(b)) == Some(b),
{
    let s = spec_hex_str(b);
    let hi = b as int / 16;
    let lo = b as int % 16;
    assert(!spec_is_space(spec_hex_digit(hi)));
    assert(!spec_is_space(spec_hex_digit(lo)));
    assert(spec_trim_front(s) =~= s);
    assert(spec_trim_back(s) =~= s);
    let t = spec_trim(s);
    assert(t =~= s);
    let digits = t.subrange(2, t.len() as int);
    assert(digits =~= seq![spec_hex_digit(hi), spec_hex_digit(lo)]);
    assert(spec_digit_val(spec_hex_digit(hi), 16) == Some(hi));
    assert(spec_digit_val(spec_hex_digit(lo), 16) == Some(lo));
    assert(digits.drop_last() =~= seq![spec_hex_digit(hi)]);
    assert(seq![spec_hex_digit(hi)].drop_last() =~= Seq::<char>::empty());
    assert(spec_digits_val(Seq::<char>::empty(), 16) == Some(0int));
    assert(seq![spec_hex_digit(hi)].last() == spec_hex_digit(hi));
    assert(spec_digits_val(seq![spec_hex_digit(hi)], 16) == Some(0int * 16 + hi));
    assert(digits.last() == spec_hex_digit(lo));
    assert(spec_digits_val(digits, 16) == Some(hi * 16 + lo));
    assert(hi * 16 + lo == b);
}

} // verus!
