//! Base64 (standard alphabet, `=` padding) for the stored sudo password.
//!
//! The password file holds `base64_encode(password)`; reading it back goes
//! through `base64_decode`, which trims surrounding whitespace first.
use vstd::prelude::*;
use vstd::utf8::*;

use crate::text::{is_ws, lemma_trim_no_ws, push_char, trim, trim_str};

verus! {

/// The symbol of the standard base64 alphabet for a 6-bit value
/// (`A`-`Z`, `a`-`z`, `0`-`9`, `+`, `/`).
pub open spec fn b64_symbol(v: u32) -> u8 {
    if v < 26 {
        (65 + v) as u8
    } else if v < 52 {
        (97 + (v - 26)) as u8
    } else if v < 62 {
        (48 + (v - 52)) as u8
    } else if v == 62 {
        43u8
    } else {
        47u8
    }
}

/// The 24-bit group of a chunk of one to three bytes, missing bytes taken as zero.
pub open spec fn chunk_triple(c: Seq<u8>) -> u32 {
    let b0 = c[0] as u32;
    let b1 = if c.len() > 1 {
        c[1] as u32
    } else {
        0u32
    };
    let b2 = if c.len() > 2 {
        c[2] as u32
    } else {
        0u32
    };
    (b0 << 16u32) | (b1 << 8u32) | b2
}

/// The four characters that encode a chunk of one to three bytes.
pub open spec fn encode_chunk(c: Seq<u8>) -> Seq<char> {
    let t = chunk_triple(c);
    seq![
        b64_symbol((t >> 18u32) & 0x3Fu32) as char,
        b64_symbol((t >> 12u32) & 0x3Fu32) as char,
        if c.len() > 1 {
            b64_symbol((t >> 6u32) & 0x3Fu32) as char
        } else {
            '='
        },
        if c.len() > 2 {
            b64_symbol(t & 0x3Fu32) as char
        } else {
            '='
        },
    ]
}

/// Base64 of a byte sequence: each group of three bytes (the last one possibly
/// shorter) becomes four characters.
pub open spec fn encode_bytes(b: Seq<u8>) -> Seq<char>
    decreases b.len(),
{
    if b.len() == 0 {
        seq![]
    } else if b.len() <= 3 {
        encode_chunk(b)
    } else {
        encode_chunk(b.take(3)) + encode_bytes(b.skip(3))
    }
}

/// What `base64_encode` returns for a string: the base64 of its UTF-8 bytes.
pub open spec fn spec_base64_encode(s: Seq<char>) -> Seq<char> {
    encode_bytes(encode_utf8(s))
}

/// The 6-bit value of a base64 byte; any byte outside the alphabet counts as zero.
pub open spec fn sextet(c: u8) -> u32 {
    if 65 <= c <= 90 {
        (c - 65) as u32
    } else if 97 <= c <= 122 {
        (c - 97 + 26) as u32
    } else if 48 <= c <= 57 {
        (c - 48 + 52) as u32
    } else if c == 43 {
        62u32
    } else if c == 47 {
        63u32
    } else {
        0u32
    }
}

/// The 24-bit group of a quad of four encoded bytes.
pub open spec fn quad_triple(q: Seq<u8>) -> u32 {
    (sextet(q[0]) << 18u32) | (sextet(q[1]) << 12u32) | (sextet(q[2]) << 6u32) | sextet(q[3])
}

/// The bytes a quad decodes to: always the first, the second unless the third
/// character is `=`, the third unless the fourth character is `=`.
pub open spec fn decode_quad(q: Seq<u8>) -> Seq<u8> {
    let t = quad_triple(q);
    seq![((t >> 16u32) & 0xFFu32) as u8] + (if q[2] != 61u8 {
        seq![((t >> 8u32) & 0xFFu32) as u8]
    } else {
        Seq::<u8>::empty()
    }) + (if q[3] != 61u8 {
        seq![(t & 0xFFu32) as u8]
    } else {
        Seq::<u8>::empty()
    })
}

/// Decoding of encoded bytes quad by quad; a trailing group shorter than four is ignored.
pub open spec fn decode_bytes(b: Seq<u8>) -> Seq<u8>
    decreases b.len(),
{
    if b.len() < 4 {
        seq![]
    } else {
        decode_quad(b.take(4)) + decode_bytes(b.skip(4))
    }
}

/// The message of std's `FromUtf8Error` (its `to_string()`) for bytes that are not UTF-8.
pub uninterp spec fn utf8_error_text(bytes: Seq<u8>) -> Seq<char>;

/// What `base64_decode` returns: the input is trimmed, its UTF-8 bytes are decoded
/// quad by quad, and the result must be UTF-8.
pub open spec fn spec_base64_decode(s: Seq<char>) -> Result<Seq<char>, Seq<char>> {
    let out = decode_bytes(encode_utf8(trim(s)));
    if valid_utf8(out) {
        Ok(decode_utf8(out))
    } else {
        Err(utf8_error_text(out))
    }
}

/// std's `String::from_utf8`, its error turned into its message (`to_string`).
/// Claimed: it succeeds exactly when the bytes are valid UTF-8 (vstd's
/// `valid_utf8`, the standard's definition), with the characters they encode;
/// otherwise the message is `utf8_error_text` of the bytes, a text that depends
/// on the bytes alone and whose wording is not stated.
#[verifier::external_body]
fn string_from_utf8(bytes: Vec<u8>) -> (r: Result<String, String>)
    ensures
        match r {
            Ok(s) => valid_utf8(bytes@) && s@ == decode_utf8(bytes@),
            Err(e) => !valid_utf8(bytes@) && e@ == utf8_error_text(bytes@),
        },
{
    String::from_utf8(bytes).map_err(|e| e.to_string())
}

/// The alphabet symbol for a 6-bit value.
fn symbol(v: u32) -> (c: u8)
    requires
        v < 64,
    ensures
        c == b64_symbol(v),
{
    if v < 26 {
        65 + v as u8
    } else if v < 52 {
        97 + (v - 26) as u8
    } else if v < 62 {
        48 + (v - 52) as u8
    } else if v == 62 {
        43
    } else {
        47
    }
}

/// The 6-bit value of an encoded byte.
fn sextet_of(c: u8) -> (v: u32)
    ensures
        v == sextet(c),
        v < 64,
{
    if 65 <= c && c <= 90 {
        (c - 65) as u32
    } else if 97 <= c && c <= 122 {
        (c - 97 + 26) as u32
    } else if 48 <= c && c <= 57 {
        (c - 48 + 52) as u32
    } else if c == 43 {
        62
    } else if c == 47 {
        63
    } else {
        0
    }
}

/// Appends the four characters that encode `bytes[i..i + len]`.
fn push_chunk(result: &mut String, bytes: &[u8], i: usize, len: usize)
    requires
        1 <= len <= 3,
        i + len <= bytes@.len(),
    ensures
        final(result)@ == old(result)@ + encode_chunk(bytes@.subrange(i as int, i + len)),
{
    let b0 = bytes[i] as u32;
    let b1 = if len > 1 {
        bytes[i + 1] as u32
    } else {
        0
    };
    let b2 = if len > 2 {
        bytes[i + 2] as u32
    } else {
        0
    };
    let triple = (b0 << 16u32) | (b1 << 8u32) | b2;
    let ghost chunk = bytes@.subrange(i as int, i + len);
    assert(triple == chunk_triple(chunk));
    assert((triple >> 18u32) & 0x3Fu32 < 64) by (bit_vector);
    assert((triple >> 12u32) & 0x3Fu32 < 64) by (bit_vector);
    assert((triple >> 6u32) & 0x3Fu32 < 64) by (bit_vector);
    assert(triple & 0x3Fu32 < 64) by (bit_vector);
    let ghost before = result@;
    push_char(result, symbol((triple >> 18u32) & 0x3F) as char);
    push_char(result, symbol((triple >> 12u32) & 0x3F) as char);
    if len > 1 {
        push_char(result, symbol((triple >> 6u32) & 0x3F) as char);
    } else {
        push_char(result, '=');
    }
    if len > 2 {
        push_char(result, symbol(triple & 0x3F) as char);
    } else {
        push_char(result, '=');
    }
    assert(result@ =~= before + encode_chunk(chunk));
}

/// Encodes the UTF-8 bytes of `s` in base64 with `=` padding.
pub fn base64_encode(s: &str) -> (r: String)
    ensures
        r@ == spec_base64_encode(s@),
{
    let bytes = s.as_bytes();
    let n = bytes.len();
    let mut result = String::new();
    let mut i: usize = 0;
    assert(bytes@.skip(0) =~= bytes@);
    while i < n
        invariant
            n == bytes@.len(),
            bytes@ == encode_utf8(s@),
            i <= n,
            result@ + encode_bytes(bytes@.skip(i as int)) == encode_bytes(bytes@),
        decreases n - i,
    {
        let len: usize = if n - i >= 3 {
            3
        } else {
            n - i
        };
        let ghost chunk = bytes@.subrange(i as int, i + len);
        let ghost before = result@;
        push_chunk(&mut result, bytes, i, len);
        let ghost rest = bytes@.skip(i as int);
        if len == 3 && n - i > 3 {
            assert(rest.take(3) =~= chunk);
            assert(rest.skip(3) =~= bytes@.skip(i + 3));
        } else {
            assert(rest =~= chunk);
            assert(bytes@.skip(i + len) =~= Seq::<u8>::empty());
        }
        i = i + len;
    }
    assert(bytes@.skip(n as int) =~= Seq::<u8>::empty());
    result
}

/// Decodes base64 text (surrounding whitespace ignored) and reads the bytes as UTF-8.
/// A trailing group of fewer than four characters is ignored, characters outside
/// the alphabet count as zero, and bytes that are not UTF-8 give the error message.
pub fn base64_decode(s: &str) -> (r: Result<String, String>)
    ensures
        match spec_base64_decode(s@) {
            Ok(t) => r matches Ok(x) && x@ == t,
            Err(e) => r matches Err(x) && x@ == e,
        },
{
    let t = trim_str(s);
    let b = t.as_str().as_bytes();
    let n = b.len();
    let mut out: Vec<u8> = Vec::new();
    let mut i: usize = 0;
    assert(b@.skip(0) =~= b@);
    while n - i >= 4
        invariant
            n == b@.len(),
            b@ == encode_utf8(trim(s@)),
            i <= n,
            out@ + decode_bytes(b@.skip(i as int)) == decode_bytes(b@),
        decreases n - i,
    {
        let c0 = b[i];
        let c1 = b[i + 1];
        let c2 = b[i + 2];
        let c3 = b[i + 3];
        let v0 = sextet_of(c0);
        let v1 = sextet_of(c1);
        let v2 = sextet_of(c2);
        let v3 = sextet_of(c3);
        let triple = (v0 << 18u32) | (v1 << 12u32) | (v2 << 6u32) | v3;
        let ghost quad = b@.subrange(i as int, i + 4);
        assert(triple == quad_triple(quad));
        let ghost before = out@;
        out.push(((triple >> 16u32) & 0xFF) as u8);
        if c2 != 61 {
            out.push(((triple >> 8u32) & 0xFF) as u8);
        }
        if c3 != 61 {
            out.push((triple & 0xFF) as u8);
        }
        assert(out@ =~= before + decode_quad(quad));
        let ghost rest = b@.skip(i as int);
        assert(rest.take(4) =~= quad);
        assert(rest.skip(4) =~= b@.skip(i + 4));
        i = i + 4;
    }
    assert(decode_bytes(b@.skip(i as int)) =~= Seq::<u8>::empty());
    assert(out@ =~= decode_bytes(b@));
    string_from_utf8(out)
}


/// The bytes of a character sequence read one per character.
pub open spec fn ascii_bytes(e: Seq<char>) -> Seq<u8> {
    e.map_values(|c: char| c as u8)
}

/// A base64 alphabet symbol decodes back to its value, is not `=`, and is ASCII.
proof fn lemma_symbol(v: u32)
    requires
        v < 64,
    ensures
        sextet(b64_symbol(v)) == v,
        b64_symbol(v) != 61u8,
        b64_symbol(v) < 128,
        b64_symbol(v) > 32,
{
}

/// Splitting a 24-bit group into sextets and joining them back gives the group,
/// and its three bytes are the bytes it was built from.
proof fn lemma_triple_bits(b0: u32, b1: u32, b2: u32)
    requires
        b0 < 256,
        b1 < 256,
        b2 < 256,
    ensures
        ({
            let t = (b0 << 16u32) | (b1 << 8u32) | b2;
            &&& (((t >> 18u32) & 0x3Fu32) << 18u32) | (((t >> 12u32) & 0x3Fu32) << 12u32) | (((t
                >> 6u32) & 0x3Fu32) << 6u32) | (t & 0x3Fu32) == t
            &&& (t >> 16u32) & 0xFFu32 == b0
            &&& (t >> 8u32) & 0xFFu32 == b1
            &&& t & 0xFFu32 == b2
            &&& (b1 == 0 && b2 == 0) ==> (t >> 6u32) & 0x3Fu32 == 0
            &&& b2 == 0 ==> t & 0x3Fu32 == 0
        }),
{
    assert({
        let t = (b0 << 16u32) | (b1 << 8u32) | b2;
        &&& (((t >> 18u32) & 0x3Fu32) << 18u32) | (((t >> 12u32) & 0x3Fu32) << 12u32) | (((t
            >> 6u32) & 0x3Fu32) << 6u32) | (t & 0x3Fu32) == t
        &&& (t >> 16u32) & 0xFFu32 == b0
        &&& (t >> 8u32) & 0xFFu32 == b1
        &&& t & 0xFFu32 == b2
        &&& (b1 == 0 && b2 == 0) ==> (t >> 6u32) & 0x3Fu32 == 0
        &&& b2 == 0 ==> t & 0x3Fu32 == 0
    }) by (bit_vector)
        requires
            b0 < 256,
            b1 < 256,
            b2 < 256,
    ;
}

/// The four characters of an encoded chunk decode back to the chunk.
proof fn lemma_chunk_roundtrip(c: Seq<u8>)
    requires
        1 <= c.len() <= 3,
    ensures
        decode_quad(ascii_bytes(encode_chunk(c))) == c,
        ascii_bytes(encode_chunk(c)).len() == 4,
{
    let b0 = c[0] as u32;
    let b1 = if c.len() > 1 {
        c[1] as u32
    } else {
        0u32
    };
    let b2 = if c.len() > 2 {
        c[2] as u32
    } else {
        0u32
    };
    let t = chunk_triple(c);
    lemma_triple_bits(b0, b1, b2);
    let s0 = (t >> 18u32) & 0x3Fu32;
    let s1 = (t >> 12u32) & 0x3Fu32;
    let s2 = (t >> 6u32) & 0x3Fu32;
    let s3 = t & 0x3Fu32;
    assert(s0 < 64 && s1 < 64 && s2 < 64 && s3 < 64) by (bit_vector)
        requires
            s0 == (t >> 18u32) & 0x3Fu32,
            s1 == (t >> 12u32) & 0x3Fu32,
            s2 == (t >> 6u32) & 0x3Fu32,
            s3 == t & 0x3Fu32,
    ;
    lemma_symbol(s0);
    lemma_symbol(s1);
    lemma_symbol(s2);
    lemma_symbol(s3);
    let q = ascii_bytes(encode_chunk(c));
    assert(q[0] == b64_symbol(s0));
    assert(q[1] == b64_symbol(s1));
    assert(sextet(q[2]) == s2);
    assert(sextet(q[3]) == s3);
    assert(quad_triple(q) == t);
    assert(decode_quad(q) =~= c);
}

/// Every character of an encoding is an ASCII symbol of the alphabet or `=`, so
/// none is whitespace; and reading the encoding byte by byte and decoding it gives
/// back the bytes.
proof fn lemma_encode_bytes(b: Seq<u8>)
    ensures
        forall|i: int|
            0 <= i < encode_bytes(b).len() ==> {
                &&& !is_ws(#[trigger] encode_bytes(b)[i])
                &&& '\0' <= encode_bytes(b)[i] <= '\u{7f}'
            },
        decode_bytes(ascii_bytes(encode_bytes(b))) == b,
    decreases b.len(),
{
    if b.len() == 0 {
        assert(decode_bytes(ascii_bytes(encode_bytes(b))) =~= b);
    } else {
        let c = if b.len() <= 3 {
            b
        } else {
            b.take(3)
        };
        lemma_chunk_roundtrip(c);
        lemma_chunk_chars(c);
        let e = encode_bytes(b);
        if b.len() <= 3 {
            let q = ascii_bytes(e);
            assert(q.take(4) =~= q);
            assert(decode_bytes(q.skip(4)) =~= Seq::<u8>::empty());
            assert(decode_bytes(q) =~= b);
        } else {
            let rest = b.skip(3);
            lemma_encode_bytes(rest);
            let q = ascii_bytes(e);
            assert(q.take(4) =~= ascii_bytes(encode_chunk(c)));
            assert(q.skip(4) =~= ascii_bytes(encode_bytes(rest)));
            assert(c + rest =~= b);
            assert forall|i: int| 0 <= i < e.len() implies {
                &&& !is_ws(#[trigger] e[i])
                &&& '\0' <= e[i] <= '\u{7f}'
            } by {
                if i >= 4 {
                    assert(e[i] == encode_bytes(rest)[i - 4]);
                }
            }
        }
    }
}

/// The characters of an encoded chunk are ASCII alphabet symbols or `=`.
proof fn lemma_chunk_chars(c: Seq<u8>)
    requires
        1 <= c.len() <= 3,
    ensures
        forall|i: int|
            0 <= i < 4 ==> {
                &&& !is_ws(#[trigger] encode_chunk(c)[i])
                &&& '\0' <= encode_chunk(c)[i] <= '\u{7f}'
            },
{
    let t = chunk_triple(c);
    let s0 = (t >> 18u32) & 0x3Fu32;
    let s1 = (t >> 12u32) & 0x3Fu32;
    let s2 = (t >> 6u32) & 0x3Fu32;
    let s3 = t & 0x3Fu32;
    assert(s0 < 64 && s1 < 64 && s2 < 64 && s3 < 64) by (bit_vector)
        requires
            s0 == (t >> 18u32) & 0x3Fu32,
            s1 == (t >> 12u32) & 0x3Fu32,
            s2 == (t >> 6u32) & 0x3Fu32,
            s3 == t & 0x3Fu32,
    ;
    lemma_symbol(s0);
    lemma_symbol(s1);
    lemma_symbol(s2);
    lemma_symbol(s3);
}

/// Decoding what `base64_encode` produced gives back the original string: a
/// password saved to the credentials file reads back unchanged.
pub proof fn law_decode_encode(s: Seq<char>)
    ensures
        spec_base64_decode(spec_base64_encode(s)) == Ok::<Seq<char>, Seq<char>>(s),
{
    broadcast use vstd::utf8::group_utf8_lib;

    let b = encode_utf8(s);
    let e = encode_bytes(b);
    lemma_encode_bytes(b);
    lemma_trim_no_ws(e);
    assert(is_ascii_chars(e));
    is_ascii_chars_encode_utf8(e);
    assert(encode_utf8(e) =~= ascii_bytes(e));
}


/// Whether `c` is a symbol of the base64 alphabet or the padding `=`.
pub open spec fn is_b64_char(c: char) -> bool {
    ||| 'A' <= c <= 'Z'
    ||| 'a' <= c <= 'z'
    ||| '0' <= c <= '9'
    ||| c == '+'
    ||| c == '/'
    ||| c == '='
}

proof fn lemma_encode_shape(b: Seq<u8>)
    ensures
        forall|i: int|
            0 <= i < encode_bytes(b).len() ==> is_b64_char(#[trigger] encode_bytes(b)[i]),
        encode_bytes(b).len() % 4 == 0,
        encode_bytes(b).len() == 4 * ((b.len() + 2) / 3),
    decreases b.len(),
{
    if b.len() > 0 {
        let c = if b.len() <= 3 {
            b
        } else {
            b.take(3)
        };
        let t = chunk_triple(c);
        let s0 = (t >> 18u32) & 0x3Fu32;
        let s1 = (t >> 12u32) & 0x3Fu32;
        let s2 = (t >> 6u32) & 0x3Fu32;
        let s3 = t & 0x3Fu32;
        assert(s0 < 64 && s1 < 64 && s2 < 64 && s3 < 64) by (bit_vector)
            requires
                s0 == (t >> 18u32) & 0x3Fu32,
                s1 == (t >> 12u32) & 0x3Fu32,
                s2 == (t >> 6u32) & 0x3Fu32,
                s3 == t & 0x3Fu32,
        ;
        let e = encode_bytes(b);
        if b.len() > 3 {
            lemma_encode_shape(b.skip(3));
            assert forall|i: int| 0 <= i < e.len() implies is_b64_char(#[trigger] e[i]) by {
                if i >= 4 {
                    assert(e[i] == encode_bytes(b.skip(3))[i - 4]);
                }
            }
        }
    }
}

/// What `base64_encode` writes to the credentials file is plain base64: only
/// alphabet symbols and `=`, four characters for every three bytes of the
/// password's UTF-8 (the last group padded).
pub proof fn law_encode_shape(s: Seq<char>)
    ensures
        forall|i: int|
            0 <= i < spec_base64_encode(s).len() ==> is_b64_char(
                #[trigger] spec_base64_encode(s)[i],
            ),
        spec_base64_encode(s).len() == 4 * ((encode_utf8(s).len() + 2) / 3),
{
    lemma_encode_shape(encode_utf8(s));
}


/// The encoding alphabet is the standard one: value `v` is written with the
/// letters `A` to `Z` for 0 to 25, `a` to `z` for 26 to 51, the digits `0` to
/// `9` for 52 to 61, `+` for 62 and `/` for 63.
pub proof fn law_encoding_alphabet(v: u32)
    requires
        v < 64,
    ensures
        v < 26 ==> b64_symbol(v) as int == 'A' as int + v,
        26 <= v < 52 ==> b64_symbol(v) as int == 'a' as int + (v - 26),
        52 <= v < 62 ==> b64_symbol(v) as int == '0' as int + (v - 52),
        v == 62 ==> b64_symbol(v) as int == '+' as int,
        v == 63 ==> b64_symbol(v) as int == '/' as int,
{
}

/// Decoding reads each character of the standard alphabet as its position in
/// it: `A`-`Z` as 0-25, `a`-`z` as 26-51, `0`-`9` as 52-61, `+` as 62, `/` as 63.
pub proof fn law_decoding_alphabet(c: char)
    ensures
        'A' <= c <= 'Z' ==> sextet(c as u8) == c as int - 'A' as int,
        'a' <= c <= 'z' ==> sextet(c as u8) == c as int - 'a' as int + 26,
        '0' <= c <= '9' ==> sextet(c as u8) == c as int - '0' as int + 52,
        c == '+' ==> sextet(c as u8) == 62,
        c == '/' ==> sextet(c as u8) == 63,
{
}

/// The encoding of a non-empty string begins with the standard symbol of the
/// top six bits of its first UTF-8 byte.
pub proof fn law_first_symbol(s: Seq<char>)
    requires
        encode_utf8(s).len() > 0,
    ensures
        ({
            let v = encode_utf8(s)[0] / 4;
            let e = spec_base64_encode(s);
            &&& v < 26 ==> e[0] as int == 'A' as int + v
            &&& 26 <= v < 52 ==> e[0] as int == 'a' as int + (v - 26)
            &&& 52 <= v < 62 ==> e[0] as int == '0' as int + (v - 52)
            &&& v == 62 ==> e[0] == '+'
            &&& v == 63 ==> e[0] == '/'
        }),
{
    let b = encode_utf8(s);
    let c = if b.len() <= 3 {
        b
    } else {
        b.take(3)
    };
    assert(c[0] == b[0]);
    let b0 = c[0] as u32;
    let b1 = if c.len() > 1 {
        c[1] as u32
    } else {
        0u32
    };
    let b2 = if c.len() > 2 {
        c[2] as u32
    } else {
        0u32
    };
    let t = chunk_triple(c);
    assert(t == (b0 << 16u32) | (b1 << 8u32) | b2);
    let v = (t >> 18u32) & 0x3Fu32;
    assert(v == b0 / 4) by (bit_vector)
        requires
            b0 < 256,
            b1 < 256,
            b2 < 256,
            t == (b0 << 16u32) | (b1 << 8u32) | b2,
            v == (t >> 18u32) & 0x3Fu32,
    ;
    assert(spec_base64_encode(s)[0] == b64_symbol(v) as char);
    law_encoding_alphabet(v);
}

} // verus!
