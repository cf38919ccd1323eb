//! Encoding text for URL query strings.
use vstd::prelude::*;

use crate::text::{chars_of, push_char};

verus! {

/// Characters that stand for themselves in a query string.
pub open spec fn unreserved(c: char) -> bool {
    ('a' <= c && c <= 'z') || ('A' <= c && c <= 'Z') || ('0' <= c && c <= '9') || c == '-' || c
        == '_' || c == '.' || c == '~'
}

/// The UTF-8 encoding of `c`.
pub open spec fn utf8_bytes(c: char) -> Seq<u8> {
    let cp = c as u32;
    if cp < 0x80 {
        seq![cp as u8]
    } else if cp < 0x800 {
        seq![(0xC0 + cp / 64) as u8, (0x80 + cp % 64) as u8]
    } else if cp < 0x10000 {
        seq![(0xE0 + cp / 4096) as u8, (0x80 + (cp / 64) % 64) as u8, (0x80 + cp % 64) as u8]
    } else {
        seq![
            (0xF0 + cp / 262144) as u8,
            (0x80 + (cp / 4096) % 64) as u8,
            (0x80 + (cp / 64) % 64) as u8,
            (0x80 + cp % 64) as u8,
        ]
    }
}

/// The upper-case hexadecimal digit of `d` (below 16).
pub open spec fn hex_digit(d: u8) -> char {
    if d < 10 {
        (48 + d) as char
    } else {
        (55 + d) as char
    }
}

/// `%` and two upper-case hexadecimal digits for each byte of `bs`.
pub open spec fn percent_bytes(bs: Seq<u8>) -> Seq<char>
    decreases bs.len(),
{
    if bs.len() == 0 {
        Seq::empty()
    } else {
        percent_bytes(bs.drop_last()) + seq!['%', hex_digit(bs.last() / 16), hex_digit(bs.last() % 16)]
    }
}

/// What a character becomes in a query string.
pub open spec fn encoded_char(c: char) -> Seq<char> {
    if unreserved(c) {
        seq![c]
    } else if c == ' ' {
        seq!['+']
    } else {
        percent_bytes(utf8_bytes(c))
    }
}

/// `s` encoded for a query string.
pub open spec fn url_encoded(s: Seq<char>) -> Seq<char>
    decreases s.len(),
{
    if s.len() == 0 {
        Seq::empty()
    } else {
        url_encoded(s.drop_last()) + encoded_char(s.last())
    }
}

fn hex_char(d: u8) -> (r: char)
    requires
        d < 16,
    ensures
        r == hex_digit(d),
{
    if d < 10 {
        (48 + d) as char
    } else {
        (55 + d) as char
    }
}

fn utf8_of(c: char) -> (r: Vec<u8>)
    ensures
        r@ == utf8_bytes(c),
{
    let cp = c as u32;
    let mut r: Vec<u8> = Vec::new();
    if cp < 0x80 {
        r.push(cp as u8);
    } else if cp < 0x800 {
        r.push((0xC0 + cp / 64) as u8);
        r.push((0x80 + cp % 64) as u8);
    } else if cp < 0x10000 {
        r.push((0xE0 + cp / 4096) as u8);
        r.push((0x80 + (cp / 64) % 64) as u8);
        r.push((0x80 + cp % 64) as u8);
    } else {
        r.push((0xF0 + cp / 262144) as u8);
        r.push((0x80 + (cp / 4096) % 64) as u8);
        r.push((0x80 + (cp / 64) % 64) as u8);
        r.push((0x80 + cp % 64) as u8);
    }
    assert(r@ =~= utf8_bytes(c));
    r
}

/// Encodes `s` for a URL query string: letters, digits and `-_.~` stay, a
/// space becomes `+`, every other character its UTF-8 bytes as `%XX`.
pub fn url_encode(s: &str) -> (r: String)
    ensures
        r@ == url_encoded(s@),
{
    let cs = chars_of(s);
    let mut out = String::new();
    let mut i: usize = 0;
    while i < cs.len()
        invariant
            cs@ == s@,
            i <= cs@.len(),
            out@ == url_encoded(cs@.subrange(0, i as int)),
        decreases cs@.len() - i,
    {
        assert(cs@.subrange(0, i + 1).drop_last() =~= cs@.subrange(0, i as int));
        let c = cs[i];
        let ghost before = out@;
        if ('a' <= c && c <= 'z') || ('A' <= c && c <= 'Z') || ('0' <= c && c <= '9') || c == '-'
            || c == '_' || c == '.' || c == '~' {
            push_char(&mut out, c);
        } else if c == ' ' {
            push_char(&mut out, '+');
        } else {
            let bytes = utf8_of(c);
            let mut k: usize = 0;
            while k < bytes.len()
                invariant
                    k <= bytes@.len(),
                    bytes@ == utf8_bytes(c),
                    out@ == before + percent_bytes(bytes@.subrange(0, k as int)),
                decreases bytes@.len() - k,
            {
                assert(bytes@.subrange(0, k + 1).drop_last() =~= bytes@.subrange(0, k as int));
                let b = bytes[k];
                push_char(&mut out, '%');
                push_char(&mut out, hex_char(b / 16));
                push_char(&mut out, hex_char(b % 16));
                k = k + 1;
                assert(out@ =~= before + percent_bytes(bytes@.subrange(0, k as int)));
            }
            assert(bytes@.subrange(0, k as int) =~= bytes@);
        }
        i = i + 1;
        assert(out@ =~= url_encoded(cs@.subrange(0, i as int)));
    }
    assert(cs@.subrange(0, i as int) =~= cs@);
    out
}

} // verus!
