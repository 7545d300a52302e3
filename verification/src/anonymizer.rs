use sha2::Digest;
use vstd::prelude::*;

verus! {

use vstd::string::StringExecFns;

use crate::types::TaggedString;

/// The SHA-256 digest of a byte sequence. The digest is a function of the
/// bytes alone; its definition is left to the outside implementation.
pub uninterp spec fn sha256_of(bytes: Seq<u8>) -> Seq<u8>;

/// Relies on sha2::Sha256: hashes `value` followed by `salt` and returns the
/// 32-byte digest, a function of those bytes alone.
#[verifier::external_body]
fn sha256_value_salt(value: &[u8], salt: &[u8; 32]) -> (r: [u8; 32])
    ensures
        r@ == sha256_of(value@ + salt@),
{
    let mut hasher = sha2::Sha256::new();
    hasher.update(value);
    hasher.update(salt);
    hasher.finalize().into()
}

/// The lower-case hexadecimal digit with value `n`.
pub open spec fn hex_digit(n: u8) -> char {
    if n == 0 { '0' }
    else if n == 1 { '1' }
    else if n == 2 { '2' }
    else if n == 3 { '3' }
    else if n == 4 { '4' }
    else if n == 5 { '5' }
    else if n == 6 { '6' }
    else if n == 7 { '7' }
    else if n == 8 { '8' }
    else if n == 9 { '9' }
    else if n == 10 { 'a' }
    else if n == 11 { 'b' }
    else if n == 12 { 'c' }
    else if n == 13 { 'd' }
    else if n == 14 { 'e' }
    else { 'f' }
}

/// Whether `c` is a lower-case hexadecimal digit.
pub open spec fn is_hex_char(c: char) -> bool {
    exists|n: u8| n < 16 && c == hex_digit(n)
}

/// The two hexadecimal digits of one byte, high nibble first.
pub open spec fn hex_of_byte(b: u8) -> Seq<char> {
    seq![hex_digit(b / 16), hex_digit(b % 16)]
}

/// The hexadecimal rendering of a byte sequence.
pub open spec fn hex_str(bytes: Seq<u8>) -> Seq<char>
    decreases bytes.len(),
{
    if bytes.len() == 0 {
        Seq::empty()
    } else {
        hex_str(bytes.drop_last()) + hex_of_byte(bytes.last())
    }
}

/// A hexadecimal rendering is twice as long as its input and made of
/// hexadecimal digits only.
pub proof fn lemma_hex_str_shape(bytes: Seq<u8>)
    ensures
        hex_str(bytes).len() == 2 * bytes.len(),
        forall|i: int| 0 <= i < hex_str(bytes).len() ==> is_hex_char(#[trigger] hex_str(bytes)[i]),
    decreases bytes.len(),
{
    if bytes.len() > 0 {
        lemma_hex_str_shape(bytes.drop_last());
        let b = bytes.last();
        assert(hex_of_byte(b)[0] == hex_digit(b / 16) && b / 16 < 16);
        assert(hex_of_byte(b)[1] == hex_digit(b % 16) && b % 16 < 16);
        assert forall|i: int| 0 <= i < hex_str(bytes).len() implies is_hex_char(
            #[trigger] hex_str(bytes)[i],
        ) by {
            if i < hex_str(bytes.drop_last()).len() {
                assert(hex_str(bytes)[i] == hex_str(bytes.drop_last())[i]);
            } else {
                assert(hex_str(bytes)[i] == hex_of_byte(b)[i - hex_str(bytes.drop_last()).len()]);
            }
        }
    }
}

/// The string an `Anonymize` field is replaced by: the last 16 bytes of the
/// salted SHA-256 digest of the value's UTF-8 bytes, rendered as 32
/// hexadecimal characters.
pub open spec fn anonymized(value: Seq<char>, salt: Seq<u8>) -> Seq<char> {
    hex_str(sha256_of(vstd::utf8::encode_utf8(value) + salt).skip(16))
}

/// What a tagged field resolves to when persisted: a `Public` value verbatim,
/// an `Anonymize` value hashed with the salt.
pub open spec fn resolved(t: TaggedString, salt: Seq<u8>) -> Seq<char> {
    match t {
        TaggedString::Public(s) => s,
        TaggedString::Anonymize(s) => anonymized(s, salt),
    }
}

/// The single-character string holding the hexadecimal digit with value `n`.
pub(crate) fn hex_char_str(n: u8) -> (r: &'static str)
    requires
        n < 16,
    ensures
        r@.len() == 1,
        r@[0] == hex_digit(n),
{
    proof {
        reveal_strlit("0");
        reveal_strlit("1");
        reveal_strlit("2");
        reveal_strlit("3");
        reveal_strlit("4");
        reveal_strlit("5");
        reveal_strlit("6");
        reveal_strlit("7");
        reveal_strlit("8");
        reveal_strlit("9");
        reveal_strlit("a");
        reveal_strlit("b");
        reveal_strlit("c");
        reveal_strlit("d");
        reveal_strlit("e");
        reveal_strlit("f");
    }
    match n {
        0 => "0",
        1 => "1",
        2 => "2",
        3 => "3",
        4 => "4",
        5 => "5",
        6 => "6",
        7 => "7",
        8 => "8",
        9 => "9",
        10 => "a",
        11 => "b",
        12 => "c",
        13 => "d",
        14 => "e",
        _ => "f",
    }
}

/// Appends the two hexadecimal digits of `b` to `s`.
fn push_hex_byte(s: &mut String, b: u8)
    ensures
        final(s)@ == old(s)@ + hex_of_byte(b),
{
    s.append(hex_char_str(b / 16));
    s.append(hex_char_str(b % 16));
    assert(s@ =~= old(s)@ + hex_of_byte(b));
}

/// Hashes `value` with the salt and renders the last 16 digest bytes as a
/// 32-character hexadecimal string: deterministic for a fixed salt, and not
/// reversible without it.
pub fn anonymize(value: &str, salt: &[u8; 32]) -> (r: String)
    ensures
        r@ == anonymized(value@, salt@),
        r@.len() == 32,
        forall|i: int| 0 <= i < r@.len() ==> is_hex_char(#[trigger] r@[i]),
{
    let bytes = value.as_bytes();
    let hash = sha256_value_salt(bytes, salt);
    let mut s = String::new();
    let mut i: usize = 16;
    while i < 32
        invariant
            16 <= i <= 32,
            hash@.len() == 32,
            hash@ == sha256_of(vstd::utf8::encode_utf8(value@) + salt@),
            s@ == hex_str(hash@.subrange(16, i as int)),
        decreases 32 - i,
    {
        proof {
            assert(hash@.subrange(16, i + 1).drop_last() =~= hash@.subrange(16, i as int));
            assert(hash@.subrange(16, i + 1).last() == hash@[i as int]);
        }
        push_hex_byte(&mut s, hash[i]);
        i += 1;
    }
    proof {
        assert(hash@.subrange(16, 32) =~= hash@.skip(16));
        lemma_hex_str_shape(hash@.skip(16));
    }
    s
}

/// Resolves a tagged field for persistence: stores a `Public` value verbatim
/// and replaces an `Anonymize` value by its salted hash.
pub fn to_maybe_anonymized_string(value: crate::types::Anonymizable, salt: &[u8; 32]) -> (r: String)
    ensures
        r@ == resolved(value@, salt@),
{
    match value {
        crate::types::Anonymizable::Public(s) => s,
        crate::types::Anonymizable::Anonymize(s) => anonymize(s.as_str(), salt),
    }
}

/// The salt: a 256-bit secret acquired once shortly after startup and constant
/// for the life of the process.
pub struct Salt {
    value: Option<[u8; 32]>,
}

impl Salt {
    /// Whether the secret has been acquired yet.
    pub closed spec fn is_set(&self) -> bool {
        self.value is Some
    }

    /// The secret's bytes, once acquired.
    pub closed spec fn bytes(&self) -> Seq<u8> {
        match self.value {
            Some(s) => s@,
            None => Seq::empty(),
        }
    }

    pub fn new() -> (r: Salt)
        ensures
            !r.is_set(),
    {
        Salt { value: None }
    }

    /// Records the secret. It can be set only once.
    pub fn set(&mut self, salt: [u8; 32])
        requires
            !old(self).is_set(),
        ensures
            final(self).is_set(),
            final(self).bytes() == salt@,
    {
        self.value = Some(salt);
    }

    /// The secret, absent until it has been acquired.
    pub fn get(&self) -> (r: Option<[u8; 32]>)
        ensures
            self.is_set() ==> (r matches Some(s) && s@ == self.bytes()),
            !self.is_set() ==> r is None,
    {
        self.value
    }
}

impl Default for Salt {
    fn default() -> (r: Self)
        ensures
            !r.is_set(),
    {
        Salt::new()
    }
}

} // verus!
