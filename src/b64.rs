//! URL-safe base64 without padding, as the `base64` crate computes it.

use crate::tagged::TB64Error;
use vstd::prelude::*;
use vstd::string::StringSliceAdditionalSpecFns;

verus! {

/// The ASCII code of the symbol for a six-bit value in the URL-safe alphabet
/// (`A-Z`, `a-z`, `0-9`, `-`, `_`).
pub open spec fn b64_code(v: int) -> int {
    if v < 26 {
        v + 65
    } else if v < 52 {
        v + 71
    } else if v < 62 {
        v - 4
    } else if v == 62 {
        45
    } else {
        95
    }
}

/// The symbol for a six-bit value.
pub open spec fn b64_symbol(v: int) -> char {
    b64_code(v) as char
}

/// The base64 encoding (URL-safe alphabet, no `=` padding) of a byte
/// sequence: each group of three bytes becomes four symbols, and a final
/// group of one or two bytes becomes two or three symbols.
pub open spec fn url_b64_encode(b: Seq<u8>) -> Seq<char>
    decreases b.len(),
{
    let x: int = if b.len() > 0 { b[0] as int } else { 0 };
    let y: int = if b.len() > 1 { b[1] as int } else { 0 };
    let z: int = if b.len() > 2 { b[2] as int } else { 0 };
    if b.len() == 0 {
        Seq::empty()
    } else if b.len() == 1 {
        seq![b64_symbol(x / 4), b64_symbol((x % 4) * 16)]
    } else if b.len() == 2 {
        seq![b64_symbol(x / 4), b64_symbol((x % 4) * 16 + y / 16), b64_symbol((y % 16) * 4)]
    } else {
        seq![
            b64_symbol(x / 4),
            b64_symbol((x % 4) * 16 + y / 16),
            b64_symbol((y % 16) * 4 + z / 64),
            b64_symbol(z % 64),
        ] + url_b64_encode(b.subrange(3, b.len() as int))
    }
}

/// Whether a character belongs to the URL-safe base64 alphabet.
pub open spec fn is_b64_char(c: char) -> bool {
    ('A' <= c <= 'Z') || ('a' <= c <= 'z') || ('0' <= c <= '9') || c == '-' || c == '_'
}

proof fn lemma_symbol_injective(v: int, w: int)
    requires
        0 <= v < 64,
        0 <= w < 64,
        b64_symbol(v) == b64_symbol(w),
    ensures
        v == w,
{
}

proof fn lemma_symbol_in_alphabet(v: int)
    requires
        0 <= v < 64,
    ensures
        is_b64_char(b64_symbol(v)),
{
}

/// An encoding has `(4n + 2) / 3` symbols for `n` bytes.
pub proof fn lemma_encode_len(b: Seq<u8>)
    ensures
        url_b64_encode(b).len() == (4 * b.len() + 2) / 3,
    decreases b.len(),
{
    if b.len() >= 3 {
        lemma_encode_len(b.subrange(3, b.len() as int));
    }
}

/// Every symbol of an encoding is in the URL-safe alphabet.
pub proof fn lemma_encode_alphabet(b: Seq<u8>)
    ensures
        forall|i: int| 0 <= i < url_b64_encode(b).len() ==> is_b64_char(#[trigger] url_b64_encode(b)[i]),
    decreases b.len(),
{
    let e = url_b64_encode(b);
    if b.len() >= 3 {
        let r = b.subrange(3, b.len() as int);
        lemma_encode_alphabet(r);
        let x = b[0] as int;
        let y = b[1] as int;
        let z = b[2] as int;
        lemma_symbol_in_alphabet(x / 4);
        lemma_symbol_in_alphabet((x % 4) * 16 + y / 16);
        lemma_symbol_in_alphabet((y % 16) * 4 + z / 64);
        lemma_symbol_in_alphabet(z % 64);
        assert forall|i: int| 0 <= i < e.len() implies is_b64_char(#[trigger] e[i]) by {
            if i >= 4 {
                assert(e[i] == url_b64_encode(r)[i - 4]);
            }
        }
    } else if b.len() > 0 {
        let x = b[0] as int;
        let y: int = if b.len() > 1 { b[1] as int } else { 0 };
        lemma_symbol_in_alphabet(x / 4);
        lemma_symbol_in_alphabet((x % 4) * 16 + y / 16);
        lemma_symbol_in_alphabet((x % 4) * 16);
        lemma_symbol_in_alphabet((y % 16) * 4);
    }
}

/// Two byte sequences with the same encoding are equal.
pub proof fn lemma_encode_injective(a: Seq<u8>, b: Seq<u8>)
    requires
        url_b64_encode(a) == url_b64_encode(b),
    ensures
        a == b,
    decreases a.len(),
{
    lemma_encode_len(a);
    lemma_encode_len(b);
    assert(a.len() == b.len()) by (nonlinear_arith)
        requires (4 * a.len() + 2) / 3 == (4 * b.len() + 2) / 3;
    let ea = url_b64_encode(a);
    if a.len() == 0 {
        assert(a =~= b);
    } else {
        let (x, y, z) = (a[0] as int, if a.len() > 1 { a[1] as int } else { 0 }, if a.len() > 2 { a[2] as int } else { 0 });
        let (u, v, w) = (b[0] as int, if b.len() > 1 { b[1] as int } else { 0 }, if b.len() > 2 { b[2] as int } else { 0 });
        let eb = url_b64_encode(b);
        assert(ea[0] == eb[0]);
        assert(ea[1] == eb[1]);
        lemma_symbol_injective(x / 4, u / 4);
        lemma_symbol_injective((x % 4) * 16 + y / 16, (u % 4) * 16 + v / 16);
        if a.len() >= 2 {
            if a.len() == 2 {
                assert(ea[2] == eb[2]);
                lemma_symbol_injective((y % 16) * 4, (v % 16) * 4);
            } else {
                assert(ea[2] == eb[2]);
                assert(ea[3] == eb[3]);
                lemma_symbol_injective((y % 16) * 4 + z / 64, (v % 16) * 4 + w / 64);
                lemma_symbol_injective(z % 64, w % 64);
                let ra = a.subrange(3, a.len() as int);
                let rb = b.subrange(3, b.len() as int);
                lemma_encode_len(ra);
                assert(url_b64_encode(ra) =~= ea.subrange(4, ea.len() as int));
                assert(url_b64_encode(rb) =~= url_b64_encode(b).subrange(4, ea.len() as int));
                lemma_encode_injective(ra, rb);
                assert(a[0] == b[0]);
                assert(a[1] == b[1]);
                assert(a[2] == b[2]);
                assert forall|i: int| 0 <= i < a.len() implies a[i] == b[i] by {
                    if i >= 3 {
                        assert(a[i] == ra[i - 3]);
                    }
                }
            }
        }
        assert(a =~= b);
    }
}

} // verus!

verus! {

/// What the `base64` crate's URL-safe decoder gives for text that is not the
/// padless encoding of any byte sequence: padded text, which it also accepts,
/// or one of its errors.
pub uninterp spec fn url_b64_decode_other(s: Seq<char>) -> Result<Seq<u8>, TB64Error>;

/// The result of decoding URL-safe base64 text: the encoded bytes when the
/// text is the padless encoding of some byte sequence (there is at most one),
/// and otherwise what the decoder makes of it.
pub open spec fn url_b64_decode(s: Seq<char>) -> Result<Seq<u8>, TB64Error> {
    if exists|b: Seq<u8>| url_b64_encode(b) == s {
        Ok(choose|b: Seq<u8>| url_b64_encode(b) == s)
    } else {
        url_b64_decode_other(s)
    }
}

/// Decoding the encoding of a byte sequence gives that sequence back.
pub proof fn lemma_decode_encode(b: Seq<u8>)
    ensures
        url_b64_decode(url_b64_encode(b)) == Ok::<Seq<u8>, TB64Error>(b),
{
    let s = url_b64_encode(b);
    assert(exists|c: Seq<u8>| url_b64_encode(c) == s);
    let c = choose|c: Seq<u8>| url_b64_encode(c) == s;
    lemma_encode_injective(c, b);
}

/// Relies on `base64::encode_config` with `URL_SAFE_NO_PAD`: the padless
/// URL-safe encoding of the input. It panics when the output size overflows
/// `usize`, which the bound on the input rules out.
#[verifier::external_body]
pub(crate) fn encode_url_b64(input: &[u8]) -> (r: String)
    requires
        input@.len() <= usize::MAX / 2,
    ensures
        r@ == url_b64_encode(input@),
{
    base64::encode_config(input, base64::URL_SAFE_NO_PAD)
}

/// Relies on `base64::decode_config` with `URL_SAFE_NO_PAD`: it returns the
/// bytes that a padless URL-safe encoding stands for, and passes its
/// `DecodeError` on as a `TB64Error` (a non-zero trailing symbol is reported
/// as an invalid byte at its offset). It panics when the input length plus
/// three overflows `usize`, which the bound rules out.
#[verifier::external_body]
pub(crate) fn decode_url_b64(input: &str) -> (r: Result<Vec<u8>, TB64Error>)
    requires
        input.spec_bytes().len() <= usize::MAX - 3,
    ensures
        (exists|b: Seq<u8>| url_b64_encode(b) == input@) ==> r is Ok && url_b64_encode(r->Ok_0@)
            == input@,
        !(exists|b: Seq<u8>| url_b64_encode(b) == input@) && r is Ok ==> url_b64_decode_other(input@)
            == Ok::<Seq<u8>, TB64Error>(r->Ok_0@),
        !(exists|b: Seq<u8>| url_b64_encode(b) == input@) && r is Err ==> url_b64_decode_other(
            input@,
        ) == Err::<Seq<u8>, TB64Error>(r->Err_0),
{
    match base64::decode_config(input, base64::URL_SAFE_NO_PAD) {
        Ok(v) => Ok(v),
        Err(base64::DecodeError::InvalidByte(o, b)) => Err(TB64Error::InvalidByte(o, b)),
        Err(base64::DecodeError::InvalidLength) => Err(TB64Error::InvalidLength),
        Err(base64::DecodeError::InvalidLastSymbol(o, b)) => Err(TB64Error::InvalidByte(o, b)),
    }
}

} // verus!
