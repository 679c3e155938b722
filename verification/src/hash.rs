//! Content digests: Blake3 over bytes, carried as lowercase hexadecimal text.

use vstd::prelude::*;
use vstd::string::*;

verus! {

/// The 32-byte Blake3 digest of a byte sequence.
pub uninterp spec fn blake3_digest(data: Seq<u8>) -> Seq<u8>;

/// Hashes bytes with Blake3.
///
/// Trusted: `blake3::hash`, with the digest copied out of `blake3::Hash::as_bytes`.
/// The digest is a function of the input alone and always holds 32 bytes
/// (`blake3::OUT_LEN`); the contract names it and states that length.
#[verifier::external_body]
pub(crate) fn blake3_bytes(data: &[u8]) -> (r: Vec<u8>)
    ensures
        r@ == blake3_digest(data@),
        r@.len() == 32,
{
    blake3::hash(data).as_bytes().to_vec()
}

/// The lowercase hexadecimal digit for a value below sixteen.
pub open spec fn hex_digit(n: int) -> char {
    if n < 10 {
        (('0' as u8) + n) as char
    } else {
        (('a' as u8) + (n - 10)) as char
    }
}

/// Lowercase hexadecimal text: two digits per byte, high half first.
pub open spec fn hex_lower(bytes: Seq<u8>) -> Seq<char>
    decreases bytes.len(),
{
    if bytes.len() == 0 {
        Seq::empty()
    } else {
        hex_lower(bytes.drop_last()) + seq![
            hex_digit(bytes.last() as int / 16),
            hex_digit(bytes.last() as int % 16),
        ]
    }
}

/// The digest of a byte sequence as it is carried everywhere: 64 hex characters.
pub open spec fn digest_hex(data: Seq<u8>) -> Seq<char> {
    hex_lower(blake3_digest(data))
}

pub open spec fn is_lower_hex_char(c: char) -> bool {
    ('0' <= c <= '9') || ('a' <= c <= 'f')
}

/// Text that has the shape of a digest: 64 lowercase hex characters.
pub open spec fn is_digest_text(s: Seq<char>) -> bool {
    &&& s.len() == 64
    &&& forall|i: int| 0 <= i < s.len() ==> is_lower_hex_char(#[trigger] s[i])
}

/// Hex text is twice as long as its bytes and holds hex digits only.
pub proof fn lemma_hex_lower_shape(bytes: Seq<u8>)
    ensures
        hex_lower(bytes).len() == 2 * bytes.len(),
        forall|i: int| 0 <= i < hex_lower(bytes).len() ==> is_lower_hex_char(#[trigger] hex_lower(bytes)[i]),
    decreases bytes.len(),
{
    if bytes.len() > 0 {
        lemma_hex_lower_shape(bytes.drop_last());
        let hi = bytes.last() as int / 16;
        let lo = bytes.last() as int % 16;
        assert(is_lower_hex_char(hex_digit(hi)));
        assert(is_lower_hex_char(hex_digit(lo)));
    }
}

/// Hex characters are ASCII.
pub proof fn lemma_digest_text_is_ascii(s: Seq<char>)
    requires
        is_digest_text(s),
    ensures
        vstd::utf8::is_ascii_chars(s),
{
    assert forall|i: int| 0 <= i < s.len() implies '\0' <= #[trigger] s[i] <= '\u{7f}' by {
        assert(is_lower_hex_char(s[i]));
    }
}

fn hex_char(n: u8) -> (c: char)
    requires
        n < 16,
    ensures
        c == hex_digit(n as int),
{
    if n < 10 {
        (('0' as u8) + n) as char
    } else {
        (('a' as u8) + (n - 10)) as char
    }
}

/// Encodes bytes in lowercase hexadecimal.
pub fn to_hex(bytes: &[u8]) -> (r: String)
    ensures
        r@ == hex_lower(bytes@),
{
    let mut out = String::new();
    let mut i: usize = 0;
    while i < bytes.len()
        invariant
            i <= bytes.len(),
            out@ == hex_lower(bytes@.take(i as int)),
        decreases bytes.len() - i,
    {
        let b = bytes[i];
        proof {
            assert(bytes@.take(i + 1).drop_last() =~= bytes@.take(i as int));
        }
        crate::text::push_char(&mut out, hex_char(b / 16));
        crate::text::push_char(&mut out, hex_char(b % 16));
        assert(out@ =~= hex_lower(bytes@.take(i as int)) + seq![
            hex_digit(b as int / 16),
            hex_digit(b as int % 16),
        ]);
        i += 1;
    }
    assert(bytes@.take(bytes@.len() as int) =~= bytes@);
    out
}

/// The digest of the given bytes as 64 lowercase hex characters.
pub fn digest_of(data: &[u8]) -> (r: String)
    ensures
        r@ == digest_hex(data@),
        is_digest_text(r@),
{
    let raw = blake3_bytes(data);
    proof {
        lemma_hex_lower_shape(raw@);
    }
    to_hex(raw.as_slice())
}

/// A content digest. Its text is always 64 lowercase hex characters.
#[derive(Debug, PartialEq, Eq, Hash)]
pub struct Hash(String);

impl View for Hash {
    type V = Seq<char>;

    closed spec fn view(&self) -> Seq<char> {
        self.0@
    }
}

impl Clone for Hash {
    fn clone(&self) -> (r: Self)
        ensures
            r@ == self@,
    {
        proof {
            use_type_invariant(self);
        }
        Hash(self.0.clone())
    }
}

impl Hash {
    /// The invariant of the type: the text has the shape of a digest.
    #[verifier::type_invariant]
    spec fn well_formed(self) -> bool {
        is_digest_text(self.0@)
    }

    /// The digest of a byte sequence.
    pub fn new(data: &[u8]) -> (r: Self)
        ensures
            r@ == digest_hex(data@),
            is_digest_text(r@),
    {
        Hash(digest_of(data))
    }

    /// The digest of a string's UTF-8 bytes.
    pub fn from_string(s: &str) -> (r: Self)
        ensures
            r@ == digest_hex(s.spec_bytes()),
    {
        Self::new(s.as_bytes())
    }

    /// The 64 hex characters.
    pub fn as_str(&self) -> (r: &str)
        ensures
            r@ == self@,
            is_digest_text(r@),
    {
        proof {
            use_type_invariant(self);
        }
        self.0.as_str()
    }

    /// The first eight hex characters.
    pub fn short(&self) -> (r: &str)
        ensures
            r@ == self@.subrange(0, 8),
    {
        proof {
            use_type_invariant(self);
            lemma_digest_text_is_ascii(self.0@);
        }
        self.0.as_str().substring_ascii(0, 8)
    }

    /// The digest as an owned string.
    pub fn to_hex_string(&self) -> (r: String)
        ensures
            r@ == self@,
    {
        self.0.clone()
    }

    /// Whether two digests are the same.
    pub fn same(&self, other: &Hash) -> (r: bool)
        ensures
            r == (self@ == other@),
    {
        self.0 == other.0
    }
}


impl<'a> From<&'a str> for Hash {
    /// The digest of a string's UTF-8 bytes.
    fn from(s: &'a str) -> (r: Hash)
        ensures
            r@ == digest_hex(s.spec_bytes()),
    {
        Hash::from_string(s)
    }
}

impl<'a> vstd::std_specs::convert::FromSpecImpl<&'a str> for Hash {
    open spec fn obeys_from_spec() -> bool {
        false
    }

    open spec fn from_spec(v: &'a str) -> Hash {
        arbitrary()
    }
}

impl From<String> for Hash {
    /// The digest of a string's UTF-8 bytes.
    fn from(s: String) -> (r: Hash)
        ensures
            r@ == digest_hex(vstd::utf8::encode_utf8(s@)),
    {
        Hash::from_string(s.as_str())
    }
}

impl vstd::std_specs::convert::FromSpecImpl<String> for Hash {
    open spec fn obeys_from_spec() -> bool {
        false
    }

    open spec fn from_spec(v: String) -> Hash {
        arbitrary()
    }
}

} // verus!
