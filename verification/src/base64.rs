//! Base64 encoding of binary payloads, so that they can travel through the
//! text-only result channel.

use vstd::prelude::*;

verus! {

/// The base64 alphabet: `A`-`Z`, `a`-`z`, `0`-`9`, `+`, `/`.
pub open spec fn b64_digit(i: int) -> char
    recommends
        0 <= i < 64,
{
    if i < 26 {
        ((65 + i) as u8) as char
    } else if i < 52 {
        ((97 + (i - 26)) as u8) as char
    } else if i < 62 {
        ((48 + (i - 52)) as u8) as char
    } else if i == 62 {
        '+'
    } else {
        '/'
    }
}

/// Four digits for a full group of three bytes.
pub open spec fn b64_group3(b0: u8, b1: u8, b2: u8) -> Seq<char> {
    let n = (b0 as int) * 65536 + (b1 as int) * 256 + (b2 as int);
    seq![
        b64_digit(n / 262144),
        b64_digit((n / 4096) % 64),
        b64_digit((n / 64) % 64),
        b64_digit(n % 64),
    ]
}

/// A trailing group of two bytes: three digits and one pad character.
pub open spec fn b64_group2(b0: u8, b1: u8) -> Seq<char> {
    let n = (b0 as int) * 65536 + (b1 as int) * 256;
    seq![b64_digit(n / 262144), b64_digit((n / 4096) % 64), b64_digit((n / 64) % 64), '=']
}

/// A trailing group of one byte: two digits and two pad characters.
pub open spec fn b64_group1(b0: u8) -> Seq<char> {
    let n = (b0 as int) * 65536;
    seq![b64_digit(n / 262144), b64_digit((n / 4096) % 64), '=', '=']
}

/// The base64 text of a byte sequence: successive groups of three bytes, the
/// last group padded with `=` to four characters.
pub open spec fn base64_chars(data: Seq<u8>) -> Seq<char>
    decreases data.len(),
{
    if data.len() == 0 {
        Seq::<char>::empty()
    } else if data.len() == 1 {
        b64_group1(data[0])
    } else if data.len() == 2 {
        b64_group2(data[0], data[1])
    } else {
        b64_group3(data[0], data[1], data[2]) + base64_chars(data.skip(3))
    }
}

/// The character standing for one six-bit value.
fn b64_digit_char(i: u32) -> (c: char)
    requires
        i < 64,
    ensures
        c == b64_digit(i as int),
{
    if i < 26 {
        (65 + i as u8) as char
    } else if i < 52 {
        (97 + (i as u8 - 26)) as char
    } else if i < 62 {
        (48 + (i as u8 - 52)) as char
    } else if i == 62 {
        '+'
    } else {
        '/'
    }
}

/// Base64-encodes the bytes, exactly as `base64_chars` states.
pub fn base64_encode(data: &[u8]) -> (r: String)
    ensures
        r@ == base64_chars(data@),
{
    let mut r = String::new();
    let mut i: usize = 0;
    proof {
        assert(data@.skip(0) =~= data@);
        assert(r@ + base64_chars(data@) =~= base64_chars(data@));
    }
    while data.len() - i >= 3
        invariant
            i <= data@.len(),
            r@ + base64_chars(data@.skip(i as int)) == base64_chars(data@),
        decreases data@.len() - i,
    {
        let n: u32 = (data[i] as u32) * 65536 + (data[i + 1] as u32) * 256 + (data[i + 2] as u32);
        r.push(b64_digit_char(n / 262144));
        r.push(b64_digit_char((n / 4096) % 64));
        r.push(b64_digit_char((n / 64) % 64));
        r.push(b64_digit_char(n % 64));
        proof {
            let rest = data@.skip(i as int);
            assert(rest.len() >= 3);
            assert(rest[0] == data@[i as int]);
            assert(rest[1] == data@[i as int + 1]);
            assert(rest[2] == data@[i as int + 2]);
            assert(rest.skip(3) =~= data@.skip(i as int + 3));
            assert(base64_chars(rest) == b64_group3(rest[0], rest[1], rest[2]) + base64_chars(
                data@.skip(i as int + 3),
            ));
            assert(r@ + base64_chars(data@.skip(i as int + 3)) =~= base64_chars(data@));
        }
        i = i + 3;
    }
    if data.len() - i == 1 {
        let n: u32 = (data[i] as u32) * 65536;
        r.push(b64_digit_char(n / 262144));
        r.push(b64_digit_char((n / 4096) % 64));
        r.push('=');
        r.push('=');
        proof {
            let rest = data@.skip(i as int);
            assert(rest.len() == 1);
            assert(rest[0] == data@[i as int]);
            assert(base64_chars(rest) == b64_group1(rest[0]));
            assert(r@ =~= base64_chars(data@));
        }
    } else if data.len() - i == 2 {
        let n: u32 = (data[i] as u32) * 65536 + (data[i + 1] as u32) * 256;
        r.push(b64_digit_char(n / 262144));
        r.push(b64_digit_char((n / 4096) % 64));
        r.push(b64_digit_char((n / 64) % 64));
        r.push('=');
        proof {
            let rest = data@.skip(i as int);
            assert(rest.len() == 2);
            assert(rest[0] == data@[i as int]);
            assert(rest[1] == data@[i as int + 1]);
            assert(base64_chars(rest) == b64_group2(rest[0], rest[1]));
            assert(r@ =~= base64_chars(data@));
        }
    } else {
        proof {
            let rest = data@.skip(i as int);
            assert(rest.len() == 0);
            assert(base64_chars(rest) =~= Seq::<char>::empty());
            assert(r@ =~= base64_chars(data@));
        }
    }
    r
}

} // verus!
