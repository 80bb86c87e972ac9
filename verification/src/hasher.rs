//! Short paths for link keys, made by the `harsh` implementation of hashids.

use vstd::prelude::*;
use crate::error::{HashidError, HasherBuildError};
use vstd::utf8::encode_utf8;

verus! {

/// `harsh::Harsh`, a configured hashids encoder and decoder.
#[verifier::external_type_specification]
#[verifier::external_body]
pub struct ExHarsh(harsh::Harsh);

/// The settings of a hasher: its alphabet, its salt and the least length of a hashid.
pub type HasherSettings = (Seq<char>, Seq<char>, nat);

/// The hashid that `harsh::Harsh::encode` makes of `values` with the given settings.
pub uninterp spec fn hashid_encode(settings: HasherSettings, values: Seq<u64>) -> Seq<char>;

/// What `harsh::Harsh::decode` gives back for `input` with the given settings:
/// `None` where the digits of a segment, read from the UTF-8 bytes of `input`, add up
/// past `u64::MAX` (that addition in `harsh` is unchecked, so the call panics where
/// overflow checks are on), else the decoded keys or why decoding failed.
pub uninterp spec fn hashid_decode(settings: HasherSettings, input: Seq<char>) -> Option<Result<Seq<u64>, HashidError>>;

/// A decoding that succeeded with `values`.
pub open spec fn decoded_to(values: Seq<u64>) -> Option<Result<Seq<u64>, HashidError>> {
    Some(Ok(values))
}

/// A decoding that failed with `e`.
pub open spec fn decode_failed(e: HashidError) -> Option<Result<Seq<u64>, HashidError>> {
    Some(Err(e))
}

/// A hashids encoder and decoder together with the settings it was built from.
pub struct LinkHasher {
    harsh: harsh::Harsh,
    alphabet: String,
    salt: String,
    length: usize,
}

impl View for LinkHasher {
    type V = HasherSettings;

    closed spec fn view(&self) -> HasherSettings {
        (self.alphabet@, self.salt@, self.length as nat)
    }
}

/// All characters are ASCII and none is NUL.
pub open spec fn all_ascii(s: Seq<char>) -> bool {
    forall|i: int| 0 <= i < s.len() ==> 0 < (#[trigger] s[i] as u32) < 128
}

/// Whether `harsh` accepts an alphabet: no space in it and at least 16 distinct characters.
pub open spec fn alphabet_accepted(alphabet: Seq<char>) -> bool {
    !alphabet.contains(' ') && alphabet.to_set().len() >= 16
}

/// Settings on which `harsh` encodes and decodes without a panic: an ASCII alphabet
/// without NUL (a hashid is then made of whole characters and no remainder is taken
/// by zero), and a least length that stays below `i32::MAX` by the alphabet's size
/// (`encode` compares lengths as `i32`).
pub open spec fn settings_supported(settings: HasherSettings) -> bool {
    &&& all_ascii(settings.0)
    &&& settings.2 + settings.0.len() <= i32::MAX
}

/// Builds a hasher with `harsh::Harsh::builder()`, its `alphabet`, `salt` and `length`
/// settings, and `build`.
///
/// The contract claims what the source of `HarshBuilder::build` shows for an ASCII
/// alphabet: a space in the alphabet is refused first, then an alphabet of fewer than
/// 16 distinct characters; otherwise the hasher is built from exactly these settings.
/// It also claims that no input of at most 9 UTF-8 bytes makes `decode` overflow: a
/// segment then has at most 8 bytes, and so at most 8 digits in a base below 128. And
/// it claims the round trip that the crate documents: decoding the hashid of one value
/// gives that value back (guards, separators and alphabet are disjoint, and `decode`
/// checks its result by encoding it again).
#[verifier::external_body]
fn build_harsh(alphabet: &str, salt: &str, length: usize) -> (r: Result<LinkHasher, HasherBuildError>)
    requires
        all_ascii(alphabet@),
        length + alphabet@.len() <= i32::MAX,
    ensures
        r is Ok <==> alphabet_accepted(alphabet@),
        alphabet@.contains(' ')
            ==> r matches Err(HasherBuildError::IllegalCharacter(' ')),
        !alphabet@.contains(' ') && alphabet@.to_set().len() < 16
            ==> r matches Err(HasherBuildError::AlphabetLength),
        r matches Ok(h) ==> h@ == (alphabet@, salt@, length as nat),
        r matches Ok(h) ==> forall|input: Seq<char>|
            encode_utf8(input).len() <= 9 ==> #[trigger] hashid_decode(h@, input) is Some,
        r matches Ok(h) ==> forall|v: u64|
            hashid_decode(h@, #[trigger] hashid_encode(h@, seq![v])) == decoded_to(seq![v]),
{
    match harsh::Harsh::builder().alphabet(alphabet).salt(salt).length(length).build() {
        Ok(harsh) => Ok(
            LinkHasher { harsh, alphabet: alphabet.to_string(), salt: salt.to_string(), length },
        ),
        Err(harsh::BuildError::AlphabetLength) => Err(HasherBuildError::AlphabetLength),
        Err(harsh::BuildError::IllegalCharacter(c)) => Err(HasherBuildError::IllegalCharacter(c)),
        Err(harsh::BuildError::Separator) => Err(HasherBuildError::Separator),
    }
}

/// Encodes `values` into one hashid with `harsh::Harsh::encode`; the result is named
/// by `hashid_encode` on the hasher's settings and the values. The contract also claims
/// what the source shows of a nonempty `values`: the hashid is padded to at least the
/// least length, and all its characters (lottery, digits, separators, guards and
/// padding) come from the alphabet.
#[verifier::external_body]
fn harsh_encode(hasher: &LinkHasher, values: &[u64]) -> (s: String)
    requires
        settings_supported(hasher@),
    ensures
        s@ == hashid_encode(hasher@, values@),
        values@.len() >= 1 ==> s@.len() >= hasher@.2,
        values@.len() >= 1 ==> forall|i: int| 0 <= i < s@.len() ==> hasher@.0.contains(#[trigger] s@[i]),
{
    hasher.harsh.encode(values)
}

/// Decodes `input` with `harsh::Harsh::decode`; the result is named by `hashid_decode`.
/// The contract also claims what the source shows of a success: `decode` compares the
/// encoding of what it found with the input, and finds at least one value.
#[verifier::external_body]
fn harsh_decode(hasher: &LinkHasher, input: &str) -> (r: Result<Vec<u64>, HashidError>)
    requires
        settings_supported(hasher@),
        hashid_decode(hasher@, input@) is Some,
    ensures
        match r {
            Ok(v) => hashid_decode(hasher@, input@) == decoded_to(v@),
            Err(e) => hashid_decode(hasher@, input@) == decode_failed(e),
        },
        r matches Ok(v) ==> v@.len() >= 1 && hashid_encode(hasher@, v@) == input@,
{
    match hasher.harsh.decode(input) {
        Ok(v) => Ok(v),
        Err(harsh::Error::Hex) => Err(HashidError::Hex),
        Err(harsh::Error::Decode(_)) => Err(HashidError::Decode),
    }
}

impl LinkHasher {
    /// Builds a hasher from an ASCII alphabet, a salt and the least length of a hashid.
    pub fn new(alphabet: &str, salt: &str, length: usize) -> (r: Result<LinkHasher, HasherBuildError>)
        requires
            all_ascii(alphabet@),
            length + alphabet@.len() <= i32::MAX,
        ensures
            r is Ok <==> alphabet_accepted(alphabet@),
            alphabet@.contains(' ')
                ==> r matches Err(HasherBuildError::IllegalCharacter(' ')),
            !alphabet@.contains(' ') && alphabet@.to_set().len() < 16
                ==> r matches Err(HasherBuildError::AlphabetLength),
            r matches Ok(h) ==> h@ == (alphabet@, salt@, length as nat),
            r matches Ok(h) ==> h.well_formed(),
    {
        build_harsh(alphabet, salt, length)
    }

    /// What every hasher built by `new` satisfies: its settings are supported, inputs
    /// of at most 9 UTF-8 bytes decode without overflow, and the hashid of one value
    /// decodes back to that value.
    pub open spec fn well_formed(&self) -> bool {
        &&& settings_supported(self@)
        &&& forall|input: Seq<char>|
            encode_utf8(input).len() <= 9 ==> #[trigger] hashid_decode(self@, input) is Some
        &&& forall|v: u64|
            hashid_decode(self@, #[trigger] hashid_encode(self@, seq![v])) == decoded_to(seq![v])
    }

    /// The hashid of one key: at least the least length long, made of the alphabet's
    /// characters.
    pub fn encode(&self, key: u64) -> (s: String)
        requires
            self.well_formed(),
        ensures
            s@ == hashid_encode(self@, seq![key]),
            s@.len() >= self@.2,
            forall|i: int| 0 <= i < s@.len() ==> self@.0.contains(#[trigger] s@[i]),
    {
        let values = [key];
        let s = harsh_encode(self, values.as_slice());
        assert(values@ == seq![key]);
        s
    }

    /// The keys that `input` decodes to.
    pub fn decode(&self, input: &str) -> (r: Result<Vec<u64>, HashidError>)
        requires
            self.well_formed(),
            hashid_decode(self@, input@) is Some,
        ensures
            match r {
                Ok(v) => hashid_decode(self@, input@) == decoded_to(v@),
                Err(e) => hashid_decode(self@, input@) == decode_failed(e),
            },
            r matches Ok(v) ==> v@.len() >= 1 && hashid_encode(self@, v@) == input@,
    {
        harsh_decode(self, input)
    }
}

} // verus!
