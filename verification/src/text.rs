//! Text utilities for addresses and keys: ASCII case folding and hex-prefix
//! stripping. Addresses in this pipeline are hexadecimal text, so folding is
//! defined on the ASCII range; a string with characters outside that range is
//! passed through unchanged, and the contracts say so.

use vstd::prelude::*;
use vstd::string::StrSliceExecFns;

verus! {

/// ASCII case folding of one character: `A`..`Z` map to `a`..`z`, everything
/// else is unchanged.
pub open spec fn lower_char(c: char) -> char {
    if 'A' <= c && c <= 'Z' {
        ((c as u32 + 32) as u8) as char
    } else {
        c
    }
}

/// ASCII case folding of a character sequence.
pub open spec fn lower_chars(s: Seq<char>) -> Seq<char> {
    s.map_values(|c: char| lower_char(c))
}

/// All leading repetitions of `0x` removed.
pub open spec fn strip0x_chars(s: Seq<char>) -> Seq<char>
    decreases s.len(),
{
    if s.len() >= 2 && s[0] == '0' && s[1] == 'x' {
        strip0x_chars(s.skip(2))
    } else {
        s
    }
}

/// The normal form of an address: leading `0x` repetitions removed, then
/// ASCII-folded to lower case (unchanged when the remainder is not ASCII).
pub open spec fn normalized(s: Seq<char>) -> Seq<char> {
    let t = strip0x_chars(s);
    if vstd::utf8::is_ascii_chars(t) {
        lower_chars(t)
    } else {
        t
    }
}

/// Folding when the input is ASCII, identity otherwise.
pub open spec fn lowered(s: Seq<char>) -> Seq<char> {
    if vstd::utf8::is_ascii_chars(s) {
        lower_chars(s)
    } else {
        s
    }
}

/// Relies on `String::from_utf8`: a vector of ASCII bytes decodes to exactly
/// those characters, one per byte (ASCII is valid UTF-8, so the decode
/// cannot fail).
#[verifier::external_body]
fn string_from_ascii(bytes: Vec<u8>) -> (r: String)
    requires
        forall|i: int| 0 <= i < bytes@.len() ==> bytes@[i] < 128,
    ensures
        r@ == bytes@.map_values(|b: u8| b as char),
{
    String::from_utf8(bytes).unwrap()
}

/// ASCII case folding of a whole string; a string with non-ASCII characters
/// is returned unchanged.
pub fn ascii_lowercase(s: &str) -> (r: String)
    ensures
        r@ == lowered(s@),
{
    if !s.is_ascii() {
        return s.to_owned();
    }
    let n = s.unicode_len();
    let mut bytes: Vec<u8> = Vec::new();
    let mut i: usize = 0;
    while i < n
        invariant
            0 <= i <= n,
            n == s@.len(),
            vstd::string::is_ascii(s),
            bytes@.len() == i,
            forall|j: int| 0 <= j < i ==> bytes@[j] < 128,
            forall|j: int| 0 <= j < i ==> bytes@[j] as char == lower_char(s@[j]),
        decreases n - i,
    {
        let c = s.get_char(i);
        let u = c as u32;
        proof {
            assert(vstd::utf8::is_ascii_chars(s@));
            assert('\0' <= s@[i as int] <= '\u{7f}');
            assert(u < 128);
        }
        let b: u8 = if 65 <= u && u <= 90 {
            (u + 32) as u8
        } else {
            u as u8
        };
        proof {
            assert(b as char == lower_char(s@[i as int]));
        }
        bytes.push(b);
        i = i + 1;
    }
    let r = string_from_ascii(bytes);
    proof {
        assert(r@ =~= lower_chars(s@));
    }
    r
}

/// All leading repetitions of `0x` removed; the result is a suffix of the
/// input.
pub fn strip_hex_prefix(s: &str) -> (r: &str)
    ensures
        r@ == strip0x_chars(s@),
{
    let n = s.unicode_len();
    let mut i: usize = 0;
    proof {
        assert(s@.subrange(0, n as int) =~= s@);
    }
    while n - i >= 2 && s.get_char(i) == '0' && s.get_char(i + 1) == 'x'
        invariant
            0 <= i <= n,
            n == s@.len(),
            strip0x_chars(s@) == strip0x_chars(s@.subrange(i as int, n as int)),
        decreases n - i,
    {
        proof {
            let t = s@.subrange(i as int, n as int);
            assert(t.len() >= 2 && t[0] == '0' && t[1] == 'x');
            assert(t.skip(2) =~= s@.subrange(i + 2, n as int));
        }
        i = i + 2;
    }
    proof {
        let t = s@.subrange(i as int, n as int);
        assert(!(t.len() >= 2 && t[0] == '0' && t[1] == 'x'));
        assert(strip0x_chars(t) == t);
    }
    let r = s.substring_char(i, n);
    r
}

/// An address in normal form: `0x` prefixes removed, ASCII-folded.
pub fn normalize_address(address: &str) -> (r: String)
    ensures
        r@ == normalized(address@),
{
    let t = strip_hex_prefix(address);
    ascii_lowercase(t)
}

/// The decimal digit character for a value below ten.
pub open spec fn digit_char(n: int) -> char {
    ((48 + n) as u8) as char
}

/// The decimal text of a nonnegative integer, most significant digit first.
pub open spec fn dec_str(n: nat) -> Seq<char>
    decreases n,
{
    if n < 10 {
        seq![digit_char(n as int)]
    } else {
        dec_str(n / 10).push(digit_char((n % 10) as int))
    }
}

/// The decimal text of a `u64`.
pub fn u64_to_string(n: u64) -> (r: String)
    ensures
        r@ == dec_str(n as nat),
    decreases n,
{
    if n < 10 {
        let b: u8 = 48 + (n as u8);
        let mut bytes: Vec<u8> = Vec::new();
        bytes.push(b);
        let r = string_from_ascii(bytes);
        proof {
            assert(r@ =~= dec_str(n as nat));
        }
        r
    } else {
        let high = u64_to_string(n / 10);
        let b: u8 = 48 + ((n % 10) as u8);
        let mut bytes: Vec<u8> = Vec::new();
        bytes.push(b);
        let low = string_from_ascii(bytes);
        let r = high.concat(low.as_str());
        proof {
            assert(r@ =~= dec_str(n as nat));
        }
        r
    }
}

/// Equality of two string slices, through their character sequences.
pub fn str_eq(a: &str, b: &str) -> (r: bool)
    ensures
        r == (a@ == b@),
{
    let sa = a.to_owned();
    let sb = b.to_owned();
    sa == sb
}

} // verus!
