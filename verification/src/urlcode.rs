//! Percent-encoding of bytes and decoding of form-encoded text.
//!
//! Unreserved bytes (`A-Z a-z 0-9 - _ . ~`) pass through; every other byte is
//! written as `%` and two upper-case hexadecimal digits. Decoding turns `%XX`
//! back into the character with that code and `+` into a space.
use vstd::prelude::*;
use vstd::string::*;
use crate::text::{chars_of, string_of};

verus! {

/// Whether a byte is written unescaped.
pub open spec fn is_unreserved(b: u8) -> bool {
    ||| 0x41 <= b <= 0x5a
    ||| 0x61 <= b <= 0x7a
    ||| 0x30 <= b <= 0x39
    ||| b == 0x2d
    ||| b == 0x5f
    ||| b == 0x2e
    ||| b == 0x7e
}

/// The upper-case hexadecimal digit of a value below 16.
pub open spec fn hex_upper(n: int) -> char {
    if n < 10 {
        (0x30 + n) as char
    } else {
        (0x37 + n) as char
    }
}

/// The characters that one byte is encoded as.
pub open spec fn encode_byte(b: u8) -> Seq<char> {
    if is_unreserved(b) {
        seq![b as char]
    } else {
        seq!['%', hex_upper(b as int / 16), hex_upper(b as int % 16)]
    }
}

/// The percent-encoding of a byte string.
pub open spec fn percent_encode_spec(bytes: Seq<u8>) -> Seq<char>
    decreases bytes.len(),
{
    if bytes.len() == 0 {
        Seq::<char>::empty()
    } else {
        encode_byte(bytes[0]) + percent_encode_spec(bytes.skip(1))
    }
}

/// The value of a hexadecimal digit of either case, if the character is one.
pub open spec fn hex_digit_value(c: char) -> Option<int> {
    let n = c as int;
    if 0x30 <= n <= 0x39 {
        Some(n - 0x30)
    } else if 0x41 <= n <= 0x46 {
        Some(n - 0x37)
    } else if 0x61 <= n <= 0x66 {
        Some(n - 0x57)
    } else {
        None
    }
}

/// The byte that the characters following a `%` denote. At most two
/// characters follow. They denote a byte when they are one or two hexadecimal
/// digits, or a `+` and one hexadecimal digit.
pub open spec fn escape_value(hex: Seq<char>) -> Option<int> {
    if hex.len() == 1 {
        hex_digit_value(hex[0])
    } else if hex.len() == 2 {
        if hex[0] == '+' {
            hex_digit_value(hex[1])
        } else {
            match (hex_digit_value(hex[0]), hex_digit_value(hex[1])) {
                (Some(h), Some(l)) => Some(h * 16 + l),
                _ => None,
            }
        }
    } else {
        None
    }
}

/// How many characters an escape takes after its `%`: two, or what is left.
pub open spec fn escape_len(s: Seq<char>) -> int {
    if s.len() >= 3 {
        2
    } else {
        s.len() - 1
    }
}

/// The decoding of form-encoded text. A `%` consumes up to two following
/// characters and yields the character they denote, or nothing when they
/// denote none; `+` yields a space; any other character yields itself.
pub open spec fn url_decode_spec(s: Seq<char>) -> Seq<char>
    decreases s.len(),
{
    if s.len() == 0 {
        Seq::<char>::empty()
    } else if s[0] == '%' {
        let n = escape_len(s);
        let rest = url_decode_spec(s.skip(1 + n));
        match escape_value(s.subrange(1, 1 + n)) {
            Some(b) => seq![b as char] + rest,
            None => rest,
        }
    } else if s[0] == '+' {
        seq![' '] + url_decode_spec(s.skip(1))
    } else {
        seq![s[0]] + url_decode_spec(s.skip(1))
    }
}

fn hex_upper_of(n: u8) -> (c: char)
    requires
        n < 16,
    ensures
        c == hex_upper(n as int),
{
    if n < 10 {
        (0x30u8 + n) as char
    } else {
        (0x37u8 + n) as char
    }
}

fn unreserved(b: u8) -> (r: bool)
    ensures
        r == is_unreserved(b),
{
    (0x41 <= b && b <= 0x5a) || (0x61 <= b && b <= 0x7a) || (0x30 <= b && b <= 0x39) || b == 0x2d
        || b == 0x5f || b == 0x2e || b == 0x7e
}

/// Percent-encodes a byte string.
pub fn percent_encode_bytes(bytes: &[u8]) -> (r: Vec<char>)
    ensures
        r@ == percent_encode_spec(bytes@),
{
    let mut out: Vec<char> = Vec::new();
    let mut i: usize = 0;
    assert(bytes@.skip(0) =~= bytes@);
    while i < bytes.len()
        invariant
            i <= bytes.len(),
            out@ + percent_encode_spec(bytes@.skip(i as int)) == percent_encode_spec(bytes@),
        decreases bytes.len() - i,
    {
        let b: u8 = bytes[i];
        let ghost before = out@;
        let ghost tail = bytes@.skip(i as int);
        assert(tail[0] == b);
        assert(tail.skip(1) =~= bytes@.skip(i + 1));
        if unreserved(b) {
            out.push(b as char);
        } else {
            out.push('%');
            out.push(hex_upper_of(b / 16));
            out.push(hex_upper_of(b % 16));
        }
        assert(out@ =~= before + encode_byte(b));
        assert(out@ + percent_encode_spec(bytes@.skip(i + 1)) =~= before + percent_encode_spec(
            tail,
        ));
        i += 1;
    }
    assert(out@ + Seq::<char>::empty() =~= out@);
    out
}

/// Percent-encodes the UTF-8 bytes of `input`.
pub fn percent_encode(input: &str) -> (r: String)
    ensures
        r@ == percent_encode_spec(input.spec_bytes()),
{
    let out = percent_encode_bytes(input.as_bytes());
    string_of(&out)
}

fn hex_digit_of(c: char) -> (r: Option<u8>)
    ensures
        match r {
            Some(v) => hex_digit_value(c) == Some(v as int) && v < 16,
            None => hex_digit_value(c) is None,
        },
{
    let n: u32 = c as u32;
    if 0x30 <= n && n <= 0x39 {
        Some((n - 0x30) as u8)
    } else if 0x41 <= n && n <= 0x46 {
        Some((n - 0x37) as u8)
    } else if 0x61 <= n && n <= 0x66 {
        Some((n - 0x57) as u8)
    } else {
        None
    }
}

fn escape_of(v: &Vec<char>, from: usize, n: usize) -> (r: Option<u8>)
    requires
        from + n <= v.len(),
        n <= 2,
    ensures
        match r {
            Some(b) => escape_value(v@.subrange(from as int, from + n)) == Some(b as int),
            None => escape_value(v@.subrange(from as int, from + n)) is None,
        },
{
    let ghost hex = v@.subrange(from as int, from + n);
    if n == 1 {
        assert(hex[0] == v@[from as int]);
        hex_digit_of(v[from])
    } else if n == 2 {
        assert(hex[0] == v@[from as int]);
        assert(hex[1] == v@[from + 1]);
        if v[from] == '+' {
            hex_digit_of(v[from + 1])
        } else {
            match (hex_digit_of(v[from]), hex_digit_of(v[from + 1])) {
                (Some(h), Some(l)) => Some(h * 16 + l),
                _ => None,
            }
        }
    } else {
        None
    }
}

/// Decodes form-encoded characters.
pub fn url_decode_chars(v: &Vec<char>) -> (r: Vec<char>)
    ensures
        r@ == url_decode_spec(v@),
{
    let mut out: Vec<char> = Vec::new();
    let mut i: usize = 0;
    assert(v@.skip(0) =~= v@);
    while i < v.len()
        invariant
            i <= v.len(),
            out@ + url_decode_spec(v@.skip(i as int)) == url_decode_spec(v@),
        decreases v.len() - i,
    {
        let c = v[i];
        let ghost before = out@;
        let ghost tail = v@.skip(i as int);
        assert(tail[0] == c);
        if c == '%' {
            let left: usize = v.len() - i - 1;
            let n: usize = if left >= 2 {
                2
            } else {
                left
            };
            assert(n == escape_len(tail));
            assert(tail.subrange(1, 1 + n) =~= v@.subrange(i + 1, i + 1 + n));
            assert(tail.skip(1 + n) =~= v@.skip(i + 1 + n));
            match escape_of(v, i + 1, n) {
                Some(b) => {
                    out.push(b as char);
                    assert(out@ + url_decode_spec(v@.skip(i + 1 + n)) =~= before + url_decode_spec(
                        tail,
                    ));
                },
                None => {},
            }
            i = i + 1 + n;
        } else {
            assert(tail.skip(1) =~= v@.skip(i + 1));
            if c == '+' {
                out.push(' ');
            } else {
                out.push(c);
            }
            assert(out@ + url_decode_spec(v@.skip(i + 1)) =~= before + url_decode_spec(tail));
            i += 1;
        }
    }
    assert(out@ + Seq::<char>::empty() =~= out@);
    out
}

/// Decodes form-encoded text.
pub fn simple_url_decode(input: &str) -> (r: String)
    ensures
        r@ == url_decode_spec(input@),
{
    let v = chars_of(input);
    let out = url_decode_chars(&v);
    string_of(&out)
}

/// The characters whose codes are the given bytes.
pub open spec fn bytes_as_chars(bytes: Seq<u8>) -> Seq<char> {
    Seq::new(bytes.len(), |i: int| bytes[i] as char)
}

/// Decoding the encoding of one byte, followed by anything, yields the
/// character with that byte's code, followed by the decoding of the rest.
proof fn lemma_decode_encoded_byte(b: u8, rest: Seq<char>)
    ensures
        url_decode_spec(encode_byte(b) + rest) == seq![b as char] + url_decode_spec(rest),
{
    let s = encode_byte(b) + rest;
    if is_unreserved(b) {
        assert(s[0] == b as char);
        assert(s.skip(1) =~= rest);
    } else {
        let h = b as int / 16;
        let l = b as int % 16;
        assert(s[0] == '%');
        assert(s.len() >= 3);
        assert(s.subrange(1, 3) =~= seq![hex_upper(h), hex_upper(l)]);
        assert(s.skip(3) =~= rest);
        assert(hex_digit_value(hex_upper(h)) == Some(h));
        assert(hex_digit_value(hex_upper(l)) == Some(l));
        assert(hex_upper(h) != '+');
        assert(h * 16 + l == b as int);
    }
}

/// Decoding reverses encoding on every byte string: the result holds, for each
/// byte, the character with that byte's code.
pub proof fn lemma_decode_encode_bytes(bytes: Seq<u8>)
    ensures
        url_decode_spec(percent_encode_spec(bytes)) == bytes_as_chars(bytes),
    decreases bytes.len(),
{
    if bytes.len() == 0 {
        assert(bytes_as_chars(bytes) =~= Seq::<char>::empty());
    } else {
        lemma_decode_encode_bytes(bytes.skip(1));
        lemma_decode_encoded_byte(bytes[0], percent_encode_spec(bytes.skip(1)));
        assert(bytes_as_chars(bytes) =~= seq![bytes[0] as char] + bytes_as_chars(bytes.skip(1)));
    }
}

/// Encoding and then decoding gives back the text, for every text made of
/// ASCII characters: reserved characters, spaces and unreserved characters
/// alike.
pub proof fn lemma_percent_round_trip(s: &str)
    requires
        is_ascii(s),
    ensures
        url_decode_spec(percent_encode_spec(s.spec_bytes())) == s@,
{
    broadcast use is_ascii_spec_bytes;
    lemma_decode_encode_bytes(s.spec_bytes());
    let bytes = s.spec_bytes();
    assert(bytes =~= Seq::new(s@.len(), |i: int| s@.index(i) as u8));
    assert forall|i: int| 0 <= i < s@.len() implies (#[trigger] bytes[i]) as char == s@[i] by {
        assert(bytes[i] == s@[i] as u8);
        assert(vstd::utf8::is_ascii_chars(s@));
        assert(s@[i] as int <= 0x7f);
    }
    assert(bytes_as_chars(bytes) =~= s@);
}

} // verus!
