//! Verified text and byte helpers: fixed-width decimal and hexadecimal
//! rendering, big-endian integer encoding, string comparison and decimal
//! parsing. OTP codes are short fixed-format strings, so these are written
//! here once with exact character-level contracts.

use vstd::prelude::*;

verus! {

/// The character for one decimal digit value.
pub open spec fn digit_char(d: u64) -> char
    recommends
        d < 10,
{
    ((d + 48) as u8) as char
}

/// The character for one hexadecimal digit value, lower case.
pub open spec fn hex_digit_char(d: u64) -> char
    recommends
        d < 16,
{
    if d < 10 {
        ((d + 48) as u8) as char
    } else {
        ((d + 87) as u8) as char
    }
}

/// Six decimal digits of `n`, most significant first, zero padded.
pub open spec fn decimal6_chars(n: u32) -> Seq<char>
    recommends
        n < 1000000,
{
    seq![
        digit_char(((n / 100000) % 10) as u64),
        digit_char(((n / 10000) % 10) as u64),
        digit_char(((n / 1000) % 10) as u64),
        digit_char(((n / 100) % 10) as u64),
        digit_char(((n / 10) % 10) as u64),
        digit_char((n % 10) as u64),
    ]
}

/// Six hexadecimal digits of `n`, most significant first, zero padded,
/// lower case.
pub open spec fn hex6_chars(n: u32) -> Seq<char>
    recommends
        n < 0x1000000,
{
    seq![
        hex_digit_char(((n / 0x100000) % 16) as u64),
        hex_digit_char(((n / 0x10000) % 16) as u64),
        hex_digit_char(((n / 0x1000) % 16) as u64),
        hex_digit_char(((n / 0x100) % 16) as u64),
        hex_digit_char(((n / 0x10) % 16) as u64),
        hex_digit_char((n % 16) as u64),
    ]
}

/// The shortest hexadecimal rendering of `n`, lower case: what Rust's
/// `{:x}` format produces.
pub open spec fn hex_chars(n: u64) -> Seq<char>
    decreases n,
{
    if n < 16 {
        seq![hex_digit_char(n)]
    } else {
        hex_chars(n / 16).push(hex_digit_char(n % 16))
    }
}

/// The eight bytes of `n`, big endian.
pub open spec fn u64_be_bytes(n: u64) -> Seq<u8> {
    seq![
        (n >> 56) as u8,
        (n >> 48) as u8,
        (n >> 40) as u8,
        (n >> 32) as u8,
        (n >> 24) as u8,
        (n >> 16) as u8,
        (n >> 8) as u8,
        n as u8,
    ]
}

/// Relies on String::push: appends exactly one character.
#[verifier::external_body]
pub(crate) fn push_char(s: &mut String, c: char)
    ensures
        final(s)@ == old(s)@.push(c),
{
    s.push(c);
}

/// One decimal digit value as its character.
fn digit_to_char(d: u64) -> (c: char)
    requires
        d < 10,
    ensures
        c == digit_char(d),
{
    (48 + d as u8) as char
}

/// One hexadecimal digit value as its lower-case character.
fn hex_digit_to_char(d: u64) -> (c: char)
    requires
        d < 16,
    ensures
        c == hex_digit_char(d),
{
    if d < 10 {
        (48 + d as u8) as char
    } else {
        (87 + d as u8) as char
    }
}

/// Renders `n` as exactly six decimal digits, zero padded.
pub fn decimal6_string(n: u32) -> (r: String)
    requires
        n < 1000000,
    ensures
        r@ == decimal6_chars(n),
{
    let mut s = String::new();
    push_char(&mut s, digit_to_char(((n / 100000) % 10) as u64));
    push_char(&mut s, digit_to_char(((n / 10000) % 10) as u64));
    push_char(&mut s, digit_to_char(((n / 1000) % 10) as u64));
    push_char(&mut s, digit_to_char(((n / 100) % 10) as u64));
    push_char(&mut s, digit_to_char(((n / 10) % 10) as u64));
    push_char(&mut s, digit_to_char((n % 10) as u64));
    proof {
        assert(s@ =~= decimal6_chars(n));
    }
    s
}

/// Renders `n` as exactly six lower-case hexadecimal digits, zero padded.
pub fn hex6_string(n: u32) -> (r: String)
    requires
        n < 0x1000000,
    ensures
        r@ == hex6_chars(n),
{
    let mut s = String::new();
    push_char(&mut s, hex_digit_to_char(((n / 0x100000) % 16) as u64));
    push_char(&mut s, hex_digit_to_char(((n / 0x10000) % 16) as u64));
    push_char(&mut s, hex_digit_to_char(((n / 0x1000) % 16) as u64));
    push_char(&mut s, hex_digit_to_char(((n / 0x100) % 16) as u64));
    push_char(&mut s, hex_digit_to_char(((n / 0x10) % 16) as u64));
    push_char(&mut s, hex_digit_to_char((n % 16) as u64));
    proof {
        assert(s@ =~= hex6_chars(n));
    }
    s
}

/// Renders `n` in shortest lower-case hexadecimal, as `{:x}` would.
pub fn hex_string(n: u64) -> (r: String)
    ensures
        r@ == hex_chars(n),
    decreases n,
{
    if n < 16 {
        let mut s = String::new();
        push_char(&mut s, hex_digit_to_char(n));
        proof {
            assert(s@ =~= hex_chars(n));
        }
        s
    } else {
        let mut s = hex_string(n / 16);
        push_char(&mut s, hex_digit_to_char(n % 16));
        s
    }
}

/// The eight bytes of `n`, big endian, as a vector.
pub fn u64_be_vec(n: u64) -> (r: Vec<u8>)
    ensures
        r@ == u64_be_bytes(n),
{
    let mut v: Vec<u8> = Vec::new();
    v.push((n >> 56) as u8);
    v.push((n >> 48) as u8);
    v.push((n >> 40) as u8);
    v.push((n >> 32) as u8);
    v.push((n >> 24) as u8);
    v.push((n >> 16) as u8);
    v.push((n >> 8) as u8);
    v.push(n as u8);
    proof {
        assert(v@ =~= u64_be_bytes(n));
    }
    v
}

/// Appends every byte of `s` to `v`, in order.
pub fn extend_bytes(v: &mut Vec<u8>, s: &[u8])
    ensures
        final(v)@ == old(v)@ + s@,
{
    let n = s.len();
    let mut i: usize = 0;
    while i < n
        invariant
            n == s@.len(),
            i <= n,
            v@ == old(v)@ + s@.subrange(0, i as int),
        decreases n - i,
    {
        v.push(s[i]);
        proof {
            assert(v@ =~= old(v)@ + s@.subrange(0, i + 1));
        }
        i += 1;
    }
    proof {
        assert(v@ =~= old(v)@ + s@);
    }
}

/// Whether two strings hold the same characters. Equal characters give
/// equal UTF-8 bytes and conversely, so the bytes decide.
pub fn str_eq(a: &str, b: &str) -> (r: bool)
    ensures
        r == (a@ == b@),
{
    broadcast use vstd::utf8::decode_utf8_encode_utf8, vstd::utf8::encode_utf8_decode_utf8;

    let ab = a.as_bytes();
    let bb = b.as_bytes();
    if ab.len() != bb.len() {
        proof {
            assert(a@ != b@) by {
                if a@ == b@ {
                    assert(vstd::utf8::encode_utf8(a@) == vstd::utf8::encode_utf8(b@));
                }
            }
        }
        return false;
    }
    let n = ab.len();
    let mut i: usize = 0;
    while i < n
        invariant
            n == ab@.len() == bb@.len(),
            i <= n,
            ab@ == vstd::utf8::encode_utf8(a@),
            bb@ == vstd::utf8::encode_utf8(b@),
            forall|j: int| 0 <= j < i ==> ab@[j] == bb@[j],
        decreases n - i,
    {
        if ab[i] != bb[i] {
            proof {
                assert(a@ != b@) by {
                    if a@ == b@ {
                        assert(vstd::utf8::encode_utf8(a@) == vstd::utf8::encode_utf8(b@));
                    }
                }
            }
            return false;
        }
        i += 1;
    }
    proof {
        assert(ab@ =~= bb@);
        assert(vstd::utf8::decode_utf8(vstd::utf8::encode_utf8(a@)) == a@);
        assert(vstd::utf8::decode_utf8(vstd::utf8::encode_utf8(b@)) == b@);
    }
    true
}

} // verus!
