//! Tagged values: the tag, the payload, the checksum that binds them, and
//! the canonical text `tag~base64url(checksum ++ payload)`.

use crate::b64::{
    decode_url_b64, encode_url_b64, is_b64_char, lemma_decode_encode, url_b64_decode,
    url_b64_encode,
};
use crate::checksum::{crc8, crc8_of_parts};
use vstd::prelude::*;
use vstd::slice::{slice_subrange, slice_to_vec};
use vstd::std_specs::iter::IteratorSpec;
use vstd::string::{StrSliceExecFns, StringExecFns, StringSliceAdditionalSpecFns};
use vstd::utf8::encode_utf8;

verus! {

broadcast use vstd::string::group_string_axioms;

/// Why a tagged value could not be built or parsed.
#[derive(Debug, Clone, Copy, PartialEq, Eq, Structural)]
pub enum TB64Error {
    /// An invalid character was found in the tag.
    InvalidTag,
    /// An invalid byte was found while decoding the base64-encoded value.
    /// The offset and offending byte are provided.
    InvalidByte(usize, u8),
    /// The base64-encoded value has an invalid length, decodes to no bytes
    /// at all, or the text has no delimiter.
    InvalidLength,
    /// The checksum did not match.
    InvalidChecksum,
}

/// Separator that does not appear in URL-safe base64 encoding and can
/// appear in URLs without percent-encoding.
pub const TB64_DELIM: char = '~';

/// A tag holds only characters of the URL-safe base64 alphabet.
pub open spec fn is_valid_tag(tag: Seq<char>) -> bool {
    forall|i: int| 0 <= i < tag.len() ==> is_b64_char(#[trigger] tag[i])
}

/// The checksum of a tag and a payload: CRC-8 over the tag's UTF-8 bytes
/// followed by the payload.
pub open spec fn checksum_of(tag: Seq<char>, value: Seq<u8>) -> u8 {
    crc8(encode_utf8(tag) + value)
}

/// The frame that is base64-encoded: the checksum byte, then the payload.
pub open spec fn frame_of(tag: Seq<char>, value: Seq<u8>) -> Seq<u8> {
    seq![checksum_of(tag, value)] + value
}

/// The canonical text of a tagged value.
pub open spec fn formatted(tag: Seq<char>, value: Seq<u8>) -> Seq<char> {
    tag + seq![TB64_DELIM] + url_b64_encode(frame_of(tag, value))
}

/// The outcome of building a tagged value from a tag and the base64 text of
/// its frame: the tag is checked first, then the text is decoded, then the
/// frame must hold a checksum byte that matches the rest.
pub open spec fn checked(tag: Seq<char>, encoded: Seq<char>) -> Result<(Seq<char>, Seq<u8>), TB64Error> {
    if !is_valid_tag(tag) {
        Err(TB64Error::InvalidTag)
    } else {
        match url_b64_decode(encoded) {
            Err(e) => Err(e),
            Ok(bytes) => {
                if bytes.len() == 0 {
                    Err(TB64Error::InvalidLength)
                } else if bytes[0] != checksum_of(tag, bytes.drop_first()) {
                    Err(TB64Error::InvalidChecksum)
                } else {
                    Ok((tag, bytes.drop_first()))
                }
            },
        }
    }
}

/// `p` is the position of the first delimiter in `s`.
pub open spec fn is_first_delim(s: Seq<char>, p: int) -> bool {
    &&& 0 <= p < s.len()
    &&& s[p] == TB64_DELIM
    &&& forall|j: int| 0 <= j < p ==> s[j] != TB64_DELIM
}

/// The outcome of parsing text: it splits at the first delimiter into the
/// tag and the base64 text of the frame; without a delimiter it fails with
/// `InvalidLength`.
pub open spec fn parsed(s: Seq<char>) -> Result<(Seq<char>, Seq<u8>), TB64Error> {
    if exists|p: int| is_first_delim(s, p) {
        let p = choose|p: int| is_first_delim(s, p);
        checked(s.subrange(0, p), s.subrange(p + 1, s.len() as int))
    } else {
        Err(TB64Error::InvalidLength)
    }
}

/// The result of building or parsing a tagged value, seen through its tag
/// and payload.
pub open spec fn outcome(r: Result<TaggedBase64, TB64Error>) -> Result<(Seq<char>, Seq<u8>), TB64Error> {
    match r {
        Ok(t) => Ok(t@),
        Err(e) => Err(e),
    }
}

/// The tag string and the binary data.
#[derive(Debug)]
pub struct TaggedBase64 {
    tag: String,
    value: Vec<u8>,
    checksum: u8,
}

impl View for TaggedBase64 {
    type V = (Seq<char>, Seq<u8>);

    closed spec fn view(&self) -> (Seq<char>, Seq<u8>) {
        (self.tag@, self.value@)
    }
}

impl TaggedBase64 {
    /// The tag is valid and the stored checksum is that of the tag and
    /// payload.
    #[verifier::type_invariant]
    spec fn inv(&self) -> bool {
        &&& is_valid_tag(self.tag@)
        &&& self.checksum == checksum_of(self.tag@, self.value@)
    }

    /// Constructs a TaggedBase64 from a tag and array of bytes. The tag
    /// must be URL-safe (alphanumeric with hyphen and underscore). The
    /// byte values are unconstrained.
    pub fn new(tag: &str, value: &[u8]) -> (r: Result<TaggedBase64, TB64Error>)
        ensures
            r is Ok <==> is_valid_tag(tag@),
            match r {
                Ok(t) => t@ == (tag@, value@),
                Err(e) => e == TB64Error::InvalidTag,
            },
    {
        if TaggedBase64::is_safe_base64_tag(tag) {
            let cs = TaggedBase64::calc_checksum(tag, value);
            Ok(TaggedBase64 { tag: tag.to_owned(), value: slice_to_vec(value), checksum: cs })
        } else {
            Err(TB64Error::InvalidTag)
        }
    }

    /// The checksum of a tag and a payload: one CRC-8 register fed the tag's
    /// bytes and then the payload.
    pub fn calc_checksum(tag: &str, value: &[u8]) -> (r: u8)
        ensures
            r == checksum_of(tag@, value@),
    {
        crc8_of_parts(tag.as_bytes(), value)
    }

    /// Returns true for characters permitted in URL-safe base64 encoding,
    /// and false otherwise.
    pub fn is_safe_base64_ascii(c: char) -> (r: bool)
        ensures
            r == is_b64_char(c),
    {
        ('a' <= c && c <= 'z') || ('A' <= c && c <= 'Z') || ('0' <= c && c <= '9') || c == '-'
            || c == '_'
    }

    /// Checks that every character of a tag is URL-safe. Because the tags
    /// are merely intended to be mnemonic, there's no need to support a
    /// large and visually ambiguous character set.
    pub fn is_safe_base64_tag(tag: &str) -> (r: bool)
        ensures
            r == is_valid_tag(tag@),
    {
        let mut it = tag.chars();
        let ghost mut k: int = 0;
        loop
            invariant
                0 <= k <= tag@.len(),
                it.remaining() == tag@.subrange(k, tag@.len() as int),
                forall|j: int| 0 <= j < k ==> is_b64_char(#[trigger] tag@[j]),
            decreases tag@.len() - k,
        {
            match it.next() {
                None => {
                    return true;
                },
                Some(c) => {
                    if !TaggedBase64::is_safe_base64_ascii(c) {
                        return false;
                    }
                    proof {
                        k = k + 1;
                    }
                },
            }
        }
    }

    /// Gets the tag of a TaggedBase64 instance.
    pub fn tag(&self) -> (r: String)
        ensures
            r@ == self@.0,
            is_valid_tag(r@),
    {
        proof {
            use_type_invariant(self);
        }
        self.tag.clone()
    }

    /// Sets the tag of a TaggedBase64 instance and recomputes the checksum.
    /// A tag with a character outside the URL-safe alphabet is rejected
    /// and the value is left as it was.
    pub fn set_tag(&mut self, tag: &str) -> (r: Result<(), TB64Error>)
        ensures
            r is Ok <==> is_valid_tag(tag@),
            r is Ok ==> final(self)@ == (tag@, old(self)@.1),
            r is Err ==> r == Err::<(), TB64Error>(TB64Error::InvalidTag) && final(self)@ == old(self)@,
    {
        if TaggedBase64::is_safe_base64_tag(tag) {
            let cs = TaggedBase64::calc_checksum(tag, self.value.as_slice());
            let value = slice_to_vec(self.value.as_slice());
            *self = TaggedBase64 { tag: tag.to_owned(), value, checksum: cs };
            Ok(())
        } else {
            Err(TB64Error::InvalidTag)
        }
    }

    /// Gets the value of a TaggedBase64 instance.
    pub fn value(&self) -> (r: Vec<u8>)
        ensures
            r@ == self@.1,
    {
        slice_to_vec(self.value.as_slice())
    }

    /// Sets the value of a TaggedBase64 instance and recomputes the
    /// checksum.
    pub fn set_value(&mut self, value: &[u8])
        ensures
            final(self)@ == (old(self)@.0, value@),
    {
        proof {
            use_type_invariant(&*self);
        }
        let cs = TaggedBase64::calc_checksum(self.tag.as_str(), value);
        let tag = self.tag.clone();
        *self = TaggedBase64 { tag, value: slice_to_vec(value), checksum: cs };
    }

    /// The URL-safe, padless base64 encoding of a byte sequence.
    pub fn encode_raw(input: &[u8]) -> (r: String)
        requires
            input@.len() <= usize::MAX / 2,
        ensures
            r@ == url_b64_encode(input@),
    {
        encode_url_b64(input)
    }

    /// Decodes URL-safe, padless base64 text.
    pub fn decode_raw(value: &str) -> (r: Result<Vec<u8>, TB64Error>)
        requires
            value.spec_bytes().len() <= usize::MAX - 3,
        ensures
            match r {
                Ok(v) => url_b64_decode(value@) == Ok::<Seq<u8>, TB64Error>(v@),
                Err(e) => url_b64_decode(value@) == Err::<Seq<u8>, TB64Error>(e),
            },
    {
        let r = decode_url_b64(value);
        proof {
            if exists|b: Seq<u8>| url_b64_encode(b) == value@ {
                lemma_decode_encode(r->Ok_0@);
            }
        }
        r
    }

    /// The canonical text of this value: the tag, the delimiter, and the
    /// base64 encoding of the checksum byte followed by the payload.
    pub fn to_text(&self) -> (r: String)
        requires
            self@.1.len() < usize::MAX / 2,
        ensures
            r@ == formatted(self@.0, self@.1),
    {
        proof {
            use_type_invariant(self);
        }
        let mut frame: Vec<u8> = Vec::new();
        frame.push(self.checksum);
        let mut i: usize = 0;
        while i < self.value.len()
            invariant
                i <= self.value@.len(),
                frame@ == seq![self.checksum] + self.value@.subrange(0, i as int),
            decreases self.value@.len() - i,
        {
            frame.push(self.value[i]);
            i = i + 1;
        }
        assert(frame@ =~= frame_of(self@.0, self@.1));
        let encoded = encode_url_b64(frame.as_slice());
        let mut out = self.tag.clone();
        out.append("~");
        out.append(encoded.as_str());
        proof {
            reveal_strlit("~");
        }
        assert(out@ =~= formatted(self@.0, self@.1));
        out
    }
}

impl PartialEq for TaggedBase64 {
    /// Two tagged values are equal when their tags and payloads are; the
    /// checksums then agree as well.
    fn eq(&self, other: &TaggedBase64) -> (r: bool) {
        proof {
            use_type_invariant(self);
            use_type_invariant(other);
        }
        if self.tag != other.tag || self.value.len() != other.value.len() {
            return false;
        }
        let mut i: usize = 0;
        while i < self.value.len()
            invariant
                i <= self.value@.len(),
                self.value@.len() == other.value@.len(),
                forall|j: int| 0 <= j < i ==> self.value@[j] == other.value@[j],
            decreases self.value@.len() - i,
        {
            if self.value[i] != other.value[i] {
                return false;
            }
            i = i + 1;
        }
        assert(self.value@ =~= other.value@);
        true
    }
}

impl vstd::std_specs::cmp::PartialEqSpecImpl for TaggedBase64 {
    open spec fn obeys_eq_spec() -> bool {
        true
    }

    open spec fn eq_spec(&self, other: &TaggedBase64) -> bool {
        self@ == other@
    }
}

/// Converts a TaggedBase64 value to a String.
pub fn to_string(tb64: &TaggedBase64) -> (r: String)
    requires
        tb64@.1.len() < usize::MAX / 2,
    ensures
        r@ == formatted(tb64@.0, tb64@.1),
{
    tb64.to_text()
}

/// Finds the first delimiter of a text, counted in characters.
fn find_delim(s: &str) -> (r: Option<usize>)
    ensures
        r matches Some(p) ==> is_first_delim(s@, p as int),
        r is None ==> forall|j: int| 0 <= j < s@.len() ==> s@[j] != TB64_DELIM,
{
    let n = s.unicode_len();
    let mut it = s.chars();
    let mut i: usize = 0;
    loop
        invariant
            n == s@.len(),
            i <= n,
            it.remaining() == s@.subrange(i as int, n as int),
            forall|j: int| 0 <= j < i ==> s@[j] != TB64_DELIM,
        decreases n - i,
    {
        match it.next() {
            None => {
                return None;
            },
            Some(c) => {
                if c == TB64_DELIM {
                    return Some(i);
                }
                i = i + 1;
            },
        }
    }
}

/// The UTF-8 encoding of a concatenation is the concatenation of the
/// encodings.
proof fn lemma_encode_utf8_concat(a: Seq<char>, b: Seq<char>)
    ensures
        encode_utf8(a + b) == encode_utf8(a) + encode_utf8(b),
    decreases a.len(),
{
    if a.len() == 0 {
        assert(a + b =~= b);
        assert(encode_utf8(a) + encode_utf8(b) =~= encode_utf8(b));
    } else {
        lemma_encode_utf8_concat(a.drop_first(), b);
        assert((a + b).drop_first() =~= a.drop_first() + b);
        assert(encode_utf8(a + b) =~= encode_utf8(a) + encode_utf8(b));
    }
}

/// Only one position can be the first delimiter.
proof fn lemma_first_delim_unique(s: Seq<char>, p: int, q: int)
    requires
        is_first_delim(s, p),
        is_first_delim(s, q),
    ensures
        p == q,
{
}

/// The entry points that build tagged values from text.
#[derive(Debug)]
pub struct JsTaggedBase64 {
    tb64: TaggedBase64,
}

impl JsTaggedBase64 {
    /// Constructs a TaggedBase64 from a tag and array of bytes, as
    /// `TaggedBase64::new` does.
    pub fn new(tag: &str, value: &[u8]) -> (r: Result<TaggedBase64, TB64Error>)
        ensures
            r is Ok <==> is_valid_tag(tag@),
            match r {
                Ok(t) => t@ == (tag@, value@),
                Err(e) => e == TB64Error::InvalidTag,
            },
    {
        TaggedBase64::new(tag, value)
    }

    /// Parses a string of the form tag~value into a TaggedBase64 value.
    ///
    /// The tag is restricted to URL-safe base64 ASCII characters. The tag
    /// may be empty. The delimiter is required.
    ///
    /// The value is a base64-encoded string, using the URL-safe character
    /// set, and no padding is used.
    pub fn tagged_base64_from(tb64: &str) -> (r: Result<TaggedBase64, TB64Error>)
        requires
            tb64.spec_bytes().len() <= usize::MAX - 3,
        ensures
            outcome(r) == parsed(tb64@),
    {
        match find_delim(tb64) {
            None => Err(TB64Error::InvalidLength),
            Some(p) => {
                let n = tb64.unicode_len();
                let tag = tb64.substring_char(0, p);
                let encoded = tb64.substring_char(p + 1, n);
                proof {
                    let s = tb64@;
                    assert(s =~= tag@ + (seq![TB64_DELIM] + encoded@));
                    lemma_encode_utf8_concat(tag@, seq![TB64_DELIM] + encoded@);
                    lemma_encode_utf8_concat(seq![TB64_DELIM], encoded@);
                    let q = choose|q: int| is_first_delim(s, q);
                    lemma_first_delim_unique(s, p as int, q);
                }
                JsTaggedBase64::make_tagged_base64(tag, encoded)
            },
        }
    }

    /// Constructs a TaggedBase64 from a tag string and a base64-encoded
    /// value, which must hold the checksum byte followed by the payload.
    ///
    /// The tag is restricted to URL-safe base64 ASCII characters. The tag
    /// may be empty. The value is a base64-encoded string, using the
    /// URL-safe character set, and no padding is used.
    pub fn make_tagged_base64(tag: &str, value: &str) -> (r: Result<TaggedBase64, TB64Error>)
        requires
            value.spec_bytes().len() <= usize::MAX - 3,
        ensures
            outcome(r) == checked(tag@, value@),
    {
        if !TaggedBase64::is_safe_base64_tag(tag) {
            return Err(TB64Error::InvalidTag);
        }
        let bytes = match TaggedBase64::decode_raw(value) {
            Ok(b) => b,
            Err(e) => {
                return Err(e);
            },
        };
        if bytes.len() == 0 {
            return Err(TB64Error::InvalidLength);
        }
        let cs = bytes[0];
        let payload = slice_subrange(bytes.as_slice(), 1, bytes.len());
        assert(payload@ =~= bytes@.drop_first());
        if cs == TaggedBase64::calc_checksum(tag, payload) {
            Ok(TaggedBase64 { tag: tag.to_owned(), value: slice_to_vec(payload), checksum: cs })
        } else {
            Err(TB64Error::InvalidChecksum)
        }
    }
}

} // verus!
