//! Base64 for handing text to the terminal's clipboard.
use vstd::prelude::*;
use vstd::string::*;
use crate::text::string_of;

verus! {

/// The character of a six-bit value in the standard base64 alphabet.
pub open spec fn sextet_char(n: int) -> char {
    if n < 26 {
        (0x41 + n) as char
    } else if n < 52 {
        (0x61 + n - 26) as char
    } else if n < 62 {
        (0x30 + n - 52) as char
    } else if n == 62 {
        '+'
    } else {
        '/'
    }
}

/// The standard base64 encoding of a byte string, with padding.
pub open spec fn base64_spec(b: Seq<u8>) -> Seq<char>
    decreases b.len(),
{
    if b.len() == 0 {
        Seq::<char>::empty()
    } else if b.len() == 1 {
        seq![sextet_char(b[0] as int / 4), sextet_char((b[0] as int % 4) * 16), '=', '=']
    } else if b.len() == 2 {
        seq![
            sextet_char(b[0] as int / 4),
            sextet_char((b[0] as int % 4) * 16 + b[1] as int / 16),
            sextet_char((b[1] as int % 16) * 4),
            '=',
        ]
    } else {
        seq![
            sextet_char(b[0] as int / 4),
            sextet_char((b[0] as int % 4) * 16 + b[1] as int / 16),
            sextet_char((b[1] as int % 16) * 4 + b[2] as int / 64),
            sextet_char(b[2] as int % 64),
        ] + base64_spec(b.skip(3))
    }
}

fn sextet(n: u8) -> (c: char)
    requires
        n < 64,
    ensures
        c == sextet_char(n as int),
{
    if n < 26 {
        (0x41u8 + n) as char
    } else if n < 52 {
        (0x61u8 + (n - 26)) as char
    } else if n < 62 {
        (0x30u8 + (n - 52)) as char
    } else if n == 62 {
        '+'
    } else {
        '/'
    }
}

/// Encodes a byte string in standard base64 with padding.
pub fn base64_encode_bytes(b: &[u8]) -> (r: Vec<char>)
    ensures
        r@ == base64_spec(b@),
{
    let mut out: Vec<char> = Vec::new();
    let mut i: usize = 0;
    assert(b@.skip(0) =~= b@);
    while b.len() - i >= 3
        invariant
            i <= b.len(),
            out@ + base64_spec(b@.skip(i as int)) == base64_spec(b@),
        decreases b.len() - i,
    {
        let ghost before = out@;
        let ghost tail = b@.skip(i as int);
        let b0: u8 = b[i];
        let b1: u8 = b[i + 1];
        let b2: u8 = b[i + 2];
        assert(tail[0] == b0 && tail[1] == b1 && tail[2] == b2);
        assert(tail.skip(3) =~= b@.skip(i + 3));
        out.push(sextet(b0 / 4));
        out.push(sextet((b0 % 4) * 16 + b1 / 16));
        out.push(sextet((b1 % 16) * 4 + b2 / 64));
        out.push(sextet(b2 % 64));
        assert(out@ + base64_spec(b@.skip(i + 3)) =~= before + base64_spec(tail));
        i += 3;
    }
    let ghost before = out@;
    let ghost tail = b@.skip(i as int);
    if b.len() - i == 1 {
        let b0: u8 = b[i];
        assert(tail[0] == b0);
        out.push(sextet(b0 / 4));
        out.push(sextet((b0 % 4) * 16));
        out.push('=');
        out.push('=');
        assert(out@ =~= before + base64_spec(tail));
    } else if b.len() - i == 2 {
        let b0: u8 = b[i];
        let b1: u8 = b[i + 1];
        assert(tail[0] == b0 && tail[1] == b1);
        out.push(sextet(b0 / 4));
        out.push(sextet((b0 % 4) * 16 + b1 / 16));
        out.push(sextet((b1 % 16) * 4));
        out.push('=');
        assert(out@ =~= before + base64_spec(tail));
    } else {
        assert(out@ =~= before + base64_spec(tail));
    }
    out
}

/// Encodes the UTF-8 bytes of a text in standard base64 with padding.
pub fn base64_encode(input: &str) -> (r: String)
    ensures
        r@ == base64_spec(input.spec_bytes()),
{
    let out = base64_encode_bytes(input.as_bytes());
    string_of(&out)
}

} // verus!
