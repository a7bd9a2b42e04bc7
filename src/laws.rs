//! Laws that relate formatting and parsing.

use crate::b64::{is_b64_char, lemma_decode_encode, lemma_encode_alphabet, url_b64_encode};
use crate::tagged::{
    checked, checksum_of, formatted, is_first_delim, is_valid_tag, parsed, TB64Error, TB64_DELIM,
};
use vstd::prelude::*;

verus! {

/// In a valid tag followed by the delimiter, the first delimiter is the one
/// right after the tag.
proof fn lemma_delim_after_tag(tag: Seq<char>, rest: Seq<char>)
    requires
        is_valid_tag(tag),
    ensures
        is_first_delim(tag + seq![TB64_DELIM] + rest, tag.len() as int),
        parsed(tag + seq![TB64_DELIM] + rest) == checked(tag, rest),
{
    let s = tag + seq![TB64_DELIM] + rest;
    let p = tag.len() as int;
    assert forall|j: int| 0 <= j < p implies s[j] != TB64_DELIM by {
        assert(s[j] == tag[j]);
        assert(is_b64_char(tag[j]));
    }
    assert(is_first_delim(s, p));
    let q = choose|q: int| is_first_delim(s, q);
    assert(q == p) by {
        if q < p {
            assert(s[q] == tag[q]);
            assert(is_b64_char(tag[q]));
        }
    }
    assert(s.subrange(0, p) =~= tag);
    assert(s.subrange(p + 1, s.len() as int) =~= rest);
}

/// Parsing the canonical text of a valid tag and any payload gives back
/// that tag and payload.
pub proof fn lemma_round_trip(tag: Seq<char>, value: Seq<u8>)
    requires
        is_valid_tag(tag),
    ensures
        parsed(formatted(tag, value)) == Ok::<(Seq<char>, Seq<u8>), TB64Error>((tag, value)),
{
    let frame = seq![checksum_of(tag, value)] + value;
    lemma_delim_after_tag(tag, url_b64_encode(frame));
    lemma_decode_encode(frame);
    assert(frame.drop_first() =~= value);
}

/// Text whose frame starts with a byte other than the checksum of its tag
/// and payload is refused with `InvalidChecksum`: a change to the checksum
/// byte is always caught.
pub proof fn lemma_wrong_checksum_refused(tag: Seq<char>, value: Seq<u8>, wrong: u8)
    requires
        is_valid_tag(tag),
        wrong != checksum_of(tag, value),
    ensures
        parsed(tag + seq![TB64_DELIM] + url_b64_encode(seq![wrong] + value)) == Err::<
            (Seq<char>, Seq<u8>),
            TB64Error,
        >(TB64Error::InvalidChecksum),
{
    let frame = seq![wrong] + value;
    lemma_delim_after_tag(tag, url_b64_encode(frame));
    lemma_decode_encode(frame);
    assert(frame.drop_first() =~= value);
}

/// A tag with a character outside the URL-safe alphabet (but no delimiter)
/// is refused with `InvalidTag` when text that starts with it is parsed,
/// whatever follows the delimiter.
pub proof fn lemma_invalid_tag_refused(tag: Seq<char>, rest: Seq<char>)
    requires
        !is_valid_tag(tag),
        forall|j: int| 0 <= j < tag.len() ==> tag[j] != TB64_DELIM,
    ensures
        parsed(tag + seq![TB64_DELIM] + rest) == Err::<(Seq<char>, Seq<u8>), TB64Error>(
            TB64Error::InvalidTag,
        ),
{
    let s = tag + seq![TB64_DELIM] + rest;
    let p = tag.len() as int;
    assert forall|j: int| 0 <= j < p implies s[j] != TB64_DELIM by {
        assert(s[j] == tag[j]);
    }
    assert(is_first_delim(s, p));
    let q = choose|q: int| is_first_delim(s, q);
    assert(q == p) by {
        if q < p {
            assert(s[q] == tag[q]);
        }
    }
    assert(s.subrange(0, p) =~= tag);
}

/// Text without a delimiter is refused with `InvalidLength`, whatever it
/// holds.
pub proof fn lemma_missing_delim_refused(s: Seq<char>)
    requires
        forall|j: int| 0 <= j < s.len() ==> s[j] != TB64_DELIM,
    ensures
        parsed(s) == Err::<(Seq<char>, Seq<u8>), TB64Error>(TB64Error::InvalidLength),
{
}

/// The canonical text holds only characters of the URL-safe alphabet and
/// the delimiter, so it needs no escaping in a URL.
pub proof fn lemma_formatted_url_safe(tag: Seq<char>, value: Seq<u8>)
    requires
        is_valid_tag(tag),
    ensures
        forall|i: int|
            0 <= i < formatted(tag, value).len() ==> is_b64_char(#[trigger] formatted(tag, value)[i])
                || formatted(tag, value)[i] == TB64_DELIM,
{
    let e = url_b64_encode(seq![checksum_of(tag, value)] + value);
    lemma_encode_alphabet(seq![checksum_of(tag, value)] + value);
    let f = formatted(tag, value);
    assert forall|i: int| 0 <= i < f.len() implies is_b64_char(#[trigger] f[i]) || f[i] == TB64_DELIM by {
        if i < tag.len() {
            assert(f[i] == tag[i]);
        } else if i > tag.len() {
            assert(f[i] == e[i - tag.len() - 1]);
        }
    }
}

} // verus!
