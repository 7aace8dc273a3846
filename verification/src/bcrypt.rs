//! Password hashing with bcrypt: hashing under a cost and a fresh salt,
//! the `$<version>$<cost>$<salt><hash>` text form, and verification.

use crate::cipher::{bcrypt, raw_digest};
use crate::codec::{
    decode, decoded, encode, encoded, lemma_decoded_is, lemma_salt_text_length,
};
use crate::text::{
    chars_of, decimal, nonempty, parse_unsigned, parsed_unsigned, push_decimal, split,
    split_keeping, string_of, views,
};
use crate::laws::{law_hash_text_shape, law_own_hash_verifies, lemma_hashed_shape};
use vstd::prelude::*;
use vstd::slice::slice_subrange;

verus! {

/// Lowest cost that hashing takes.
pub const MIN_COST: u32 = 4;

/// Highest cost that hashing takes.
pub const MAX_COST: u32 = 31;

/// The cost to use where the caller has no reason for another.
pub const DEFAULT_COST: u32 = 12;

/// The parts of a hash before they are joined into its text form.
#[derive(Debug, PartialEq)]
pub struct HashParts {
    cost: u32,
    salt: String,
    hash: String,
}

/// What a `HashParts` holds: the cost, and salt and hash in their text
/// forms.
pub struct PartsView {
    pub cost: u32,
    pub salt: Seq<char>,
    pub hash: Seq<char>,
}

impl View for HashParts {
    type V = PartsView;

    closed spec fn view(&self) -> PartsView {
        PartsView { cost: self.cost, salt: self.salt@, hash: self.hash@ }
    }
}

/// The version tag in front of a hash. It picks the prefix and nothing
/// else: the digest is the same under all four.
#[derive(Clone, Copy, Debug, PartialEq, Eq)]
pub enum Version {
    TwoA,
    TwoX,
    TwoY,
    TwoB,
}

/// What can go wrong while hashing or verifying.
#[derive(Debug)]
pub enum BcryptError {
    /// The cost is outside `MIN_COST..=MAX_COST`.
    CostNotAllowed(u32),
    /// The password holds a zero byte.
    InvalidPassword,
    /// The cost of a hash text is not an unsigned number.
    InvalidCost(String),
    /// The version tag of a hash text is none of the four.
    InvalidPrefix(String),
    /// A hash text has not three parts, or its last part has not 53
    /// characters.
    InvalidHash(String),
    /// Salt or hash of a hash text is not base-64 text.
    InvalidBase64(base64::DecodeError),
}

/// A `BcryptError` with its texts as sequences and without the decoder's
/// own error.
pub enum ErrorView {
    CostNotAllowed(u32),
    InvalidPassword,
    InvalidCost(Seq<char>),
    InvalidPrefix(Seq<char>),
    InvalidHash(Seq<char>),
    InvalidBase64,
}

impl View for BcryptError {
    type V = ErrorView;

    open spec fn view(&self) -> ErrorView {
        match self {
            BcryptError::CostNotAllowed(cost) => ErrorView::CostNotAllowed(*cost),
            BcryptError::InvalidPassword => ErrorView::InvalidPassword,
            BcryptError::InvalidCost(text) => ErrorView::InvalidCost(text@),
            BcryptError::InvalidPrefix(text) => ErrorView::InvalidPrefix(text@),
            BcryptError::InvalidHash(text) => ErrorView::InvalidHash(text@),
            BcryptError::InvalidBase64(_) => ErrorView::InvalidBase64,
        }
    }
}

impl From<base64::DecodeError> for BcryptError {
    /// An error of the decoder as an error of this library.
    fn from(error: base64::DecodeError) -> (made: BcryptError) {
        BcryptError::InvalidBase64(error)
    }
}

impl vstd::std_specs::convert::FromSpecImpl<base64::DecodeError> for BcryptError {
    open spec fn obeys_from_spec() -> bool {
        true
    }

    open spec fn from_spec(error: base64::DecodeError) -> BcryptError {
        BcryptError::InvalidBase64(error)
    }
}

/// The view of a result that holds hash parts.
pub open spec fn parts_outcome(result: Result<HashParts, BcryptError>) -> Result<
    PartsView,
    ErrorView,
> {
    match result {
        Ok(parts) => Ok(parts@),
        Err(error) => Err(error@),
    }
}

/// The view of a result that holds a text.
pub open spec fn text_outcome(result: Result<String, BcryptError>) -> Result<
    Seq<char>,
    ErrorView,
> {
    match result {
        Ok(text) => Ok(text@),
        Err(error) => Err(error@),
    }
}

/// The view of a result that holds a verdict.
pub open spec fn verdict_outcome(result: Result<bool, BcryptError>) -> Result<bool, ErrorView> {
    match result {
        Ok(verdict) => Ok(verdict),
        Err(error) => Err(error@),
    }
}

/// The two characters of a version tag.
pub open spec fn tag(version: Version) -> Seq<char> {
    match version {
        Version::TwoA => seq!['2', 'a'],
        Version::TwoB => seq!['2', 'b'],
        Version::TwoX => seq!['2', 'x'],
        Version::TwoY => seq!['2', 'y'],
    }
}

/// Whether a token is one of the four version tags.
pub open spec fn is_tag(token: Seq<char>) -> bool {
    token == tag(Version::TwoA) || token == tag(Version::TwoB) || token == tag(Version::TwoX)
        || token == tag(Version::TwoY)
}

/// The cost as it stands in a hash text: in decimal, with a zero in front
/// where it has one digit only.
pub open spec fn two_digits(cost: u32) -> Seq<char> {
    if cost < 10 {
        seq!['0'] + decimal(cost as nat)
    } else {
        decimal(cost as nat)
    }
}

/// The text form of hash parts under a version tag.
pub open spec fn formatted(parts: PartsView, version: Version) -> Seq<char> {
    seq!['$'] + tag(version) + seq!['$'] + two_digits(parts.cost) + seq!['$'] + parts.salt
        + parts.hash
}

/// What a hash text parses to.
///
/// The text is cut at every `$` and the empty pieces are dropped. There
/// must be three pieces left: a version tag, a cost, and 53 characters of
/// which the first 22 are the salt and the other 31 the hash. The cost is
/// read as a number and not held against the range that hashing takes.
pub open spec fn parsed(text: Seq<char>) -> Result<PartsView, ErrorView> {
    let tokens = nonempty(split(text, '$'));
    if tokens.len() != 3 {
        Err(ErrorView::InvalidHash(text))
    } else if !is_tag(tokens[0]) {
        Err(ErrorView::InvalidPrefix(tokens[0]))
    } else {
        match parsed_unsigned(tokens[1], u32::MAX as int) {
            None => Err(ErrorView::InvalidCost(tokens[1])),
            Some(cost) => if tokens[2].len() != 53 {
                Err(ErrorView::InvalidHash(text))
            } else {
                Ok(
                    PartsView {
                        cost: cost as u32,
                        salt: tokens[2].take(22),
                        hash: tokens[2].skip(22),
                    },
                )
            },
        }
    }
}

/// Whether parts have the lengths that every hash has: 22 characters of
/// salt and 31 of hash.
pub open spec fn well_formed(parts: PartsView) -> bool {
    parts.salt.len() == 22 && parts.hash.len() == 31
}

/// The bytes that go into the key schedule for a password: the password
/// with a zero byte behind it, cut to 72 bytes where it is longer.
pub open spec fn key_bytes(password: Seq<u8>) -> Seq<u8> {
    if password.len() >= 72 {
        password.take(72)
    } else {
        password.push(0u8)
    }
}

/// What hashing `password` under `cost` and `salt` gives: the cost must be
/// in range and the password free of zero bytes; the hash is the text form
/// of the first 23 bytes of the raw digest.
pub open spec fn hashed(password: Seq<u8>, cost: u32, salt: Seq<u8>) -> Result<
    PartsView,
    ErrorView,
> {
    if cost < MIN_COST || cost > MAX_COST {
        Err(ErrorView::CostNotAllowed(cost))
    } else if password.contains(0u8) {
        Err(ErrorView::InvalidPassword)
    } else {
        Ok(
            PartsView {
                cost,
                salt: encoded(salt),
                hash: encoded(raw_digest(cost as nat, salt, key_bytes(password)).take(23)),
            },
        )
    }
}

/// What verifying `password` against a hash text gives.
///
/// The text is parsed and its salt decoded; the password is hashed under
/// the text's cost and that salt; then the stored hash and the fresh one
/// are decoded and compared as bytes. Byte strings of different lengths do
/// not match, which is a verdict and no error.
pub open spec fn verified(password: Seq<u8>, text: Seq<char>) -> Result<bool, ErrorView> {
    match parsed(text) {
        Err(error) => Err(error),
        Ok(parts) => match decoded(parts.salt) {
            None => Err(ErrorView::InvalidBase64),
            Some(salt) => match hashed(password, parts.cost, salt) {
                Err(error) => Err(error),
                Ok(fresh) => match decoded(parts.hash) {
                    None => Err(ErrorView::InvalidBase64),
                    Some(stored) => match decoded(fresh.hash) {
                        None => Err(ErrorView::InvalidBase64),
                        Some(made) => Ok(stored == made),
                    },
                },
            },
        },
    }
}

/// The text that the decoder's error writes for itself.
pub uninterp spec fn decode_error_text(error: base64::DecodeError) -> Seq<char>;

/// `DecodeError`'s `Display`, through `to_string`: the text that the
/// error writes for itself.
#[verifier::external_body]
fn describe_decode_error(error: &base64::DecodeError) -> (text: String)
    ensures
        text@ == decode_error_text(*error),
{
    error.to_string()
}

/// The message of an error.
pub open spec fn message_of(error: BcryptError) -> Seq<char> {
    match error {
        BcryptError::InvalidCost(cost) => "Invalid Cost: "@ + cost@,
        BcryptError::CostNotAllowed(cost) => "Cost needs to be between 4 and 31, got "@ + decimal(
            cost as nat,
        ),
        BcryptError::InvalidPassword => "Invalid password: contains NULL byte"@,
        BcryptError::InvalidPrefix(prefix) => "Invalid Prefix: "@ + prefix@,
        BcryptError::InvalidHash(hash) => "Invalid hash: "@ + hash@,
        BcryptError::InvalidBase64(error) => "Base64 error: "@ + decode_error_text(error),
    }
}

impl BcryptError {
    /// The message of the error.
    pub fn to_string(&self) -> (text: String)
        ensures
            text@ == message_of(*self),
    {
        match self {
            BcryptError::InvalidCost(cost) => {
                let mut text = String::from_str("Invalid Cost: ");
                text.append(cost.as_str());
                text
            },
            BcryptError::CostNotAllowed(cost) => {
                let mut digits: Vec<char> = Vec::new();
                push_decimal(&mut digits, *cost as u64);
                assert(digits@ =~= decimal(*cost as nat));
                let mut text = String::from_str("Cost needs to be between 4 and 31, got ");
                text.append(string_of(&digits).as_str());
                text
            },
            BcryptError::InvalidPassword => String::from_str(
                "Invalid password: contains NULL byte",
            ),
            BcryptError::InvalidPrefix(prefix) => {
                let mut text = String::from_str("Invalid Prefix: ");
                text.append(prefix.as_str());
                text
            },
            BcryptError::InvalidHash(hash) => {
                let mut text = String::from_str("Invalid hash: ");
                text.append(hash.as_str());
                text
            },
            BcryptError::InvalidBase64(error) => {
                let mut text = String::from_str("Base64 error: ");
                text.append(describe_decode_error(error).as_str());
                text
            },
        }
    }
}

impl Version {
    /// The tag as a string.
    pub fn as_str(&self) -> (text: &'static str)
        ensures
            text@ == tag(*self),
    {
        proof {
            reveal_strlit("2a");
            reveal_strlit("2b");
            reveal_strlit("2x");
            reveal_strlit("2y");
        }
        let text = match self {
            Version::TwoA => "2a",
            Version::TwoB => "2b",
            Version::TwoX => "2x",
            Version::TwoY => "2y",
        };
        assert(text@ =~= tag(*self));
        text
    }
}

impl HashParts {
    /// The hash text under the tag `2b`; see `to_string` for the other
    /// default.
    pub fn format(self) -> (text: String)
        ensures
            text@ == formatted(self@, Version::TwoB),
    {
        self.format_for_version(Version::TwoB)
    }

    /// The cost.
    pub fn get_cost(&self) -> (cost: u32)
        ensures
            cost == self@.cost,
    {
        self.cost
    }

    /// The salt in its text form.
    pub fn get_salt(&self) -> (salt: String)
        ensures
            salt@ == self@.salt,
    {
        self.salt.clone()
    }

    /// The hash text under the given tag.
    pub fn format_for_version(&self, version: Version) -> (text: String)
        ensures
            text@ == formatted(self@, version),
    {
        let mut digits: Vec<char> = Vec::new();
        if self.cost < 10 {
            digits.push('0');
        }
        push_decimal(&mut digits, self.cost as u64);
        assert(digits@ =~= two_digits(self.cost));
        let cost_text = string_of(&digits);
        proof {
            reveal_strlit("$");
        }
        let mut text = String::new();
        text.append("$");
        text.append(version.as_str());
        text.append("$");
        text.append(cost_text.as_str());
        text.append("$");
        text.append(self.salt.as_str());
        text.append(self.hash.as_str());
        assert("$"@ =~= seq!['$']);
        assert(text@ =~= formatted(self@, version));
        text
    }

    /// The hash text under the tag `2y`.
    ///
    /// `format` writes the tag `2b` instead. The two do not agree, and
    /// which of them is meant as the default is open; both are kept as
    /// they are. The digest is the same under either tag.
    pub fn to_string(&self) -> (text: String)
        ensures
            text@ == formatted(self@, Version::TwoY),
    {
        self.format_for_version(Version::TwoY)
    }

    /// Parses a hash text.
    pub fn from_str(text: &str) -> (result: Result<HashParts, BcryptError>)
        ensures
            parts_outcome(result) == parsed(text@),
    {
        split_hash(text)
    }
}

impl core::str::FromStr for HashParts {
    type Err = BcryptError;

    /// Parses a hash text, as `split_hash` does.
    fn from_str(text: &str) -> (result: Result<HashParts, BcryptError>)
        ensures
            parts_outcome(result) == parsed(text@),
            result matches Ok(parts) ==> well_formed(parts@),
    {
        split_hash(text)
    }
}

/// Whether a byte string holds a zero byte.
fn has_zero(bytes: &[u8]) -> (found: bool)
    ensures
        found == bytes@.contains(0u8),
{
    let mut at: usize = 0;
    while at < bytes.len()
        invariant
            at <= bytes.len(),
            forall|index: int| 0 <= index < at ==> bytes@[index] != 0,
        decreases bytes.len() - at,
    {
        if bytes[at] == 0 {
            assert(bytes@[at as int] == 0u8);
            return true;
        }
        at = at + 1;
    }
    false
}

/// Hashes a password under a cost and a given salt of 16 bytes.
///
/// The password gets a zero byte at its end, and what then lies beyond 72
/// bytes is left out of the digest.
pub fn _hash_password(password: &[u8], cost: u32, salt: &[u8]) -> (result: Result<
    HashParts,
    BcryptError,
>)
    requires
        salt@.len() == 16,
    ensures
        parts_outcome(result) == hashed(password@, cost, salt@),
        result is Ok <==> MIN_COST <= cost <= MAX_COST && !password@.contains(0u8),
        result matches Ok(parts) ==> well_formed(parts@),
{
    proof {
        if hashed(password@, cost, salt@) is Ok {
            lemma_hashed_shape(password@, cost, salt@);
        }
    }
    if cost < MIN_COST || cost > MAX_COST {
        return Err(BcryptError::CostNotAllowed(cost));
    }
    if has_zero(password) {
        return Err(BcryptError::InvalidPassword);
    }
    let mut key: Vec<u8> = Vec::new();
    let mut at: usize = 0;
    while at < password.len() && at < 72
        invariant
            at <= password.len(),
            at <= 72,
            key@ == password@.take(at as int),
        decreases password.len() - at,
    {
        key.push(password[at]);
        assert(password@.take(at + 1) =~= password@.take(at as int).push(password@[at as int]));
        at = at + 1;
    }
    if password.len() < 72 {
        assert(password@.take(password@.len() as int) =~= password@);
        key.push(0);
    }
    assert(key@ == key_bytes(password@));
    let mut output: Vec<u8> = Vec::new();
    let mut filled: usize = 0;
    while filled < 24
        invariant
            filled <= 24,
            output@.len() == filled,
        decreases 24 - filled,
    {
        output.push(0);
        filled = filled + 1;
    }
    bcrypt(cost, salt, key.as_slice(), output.as_mut_slice());
    let digest = slice_subrange(output.as_slice(), 0, 23);
    assert(digest@ =~= raw_digest(cost as nat, salt@, key_bytes(password@)).take(23));
    Ok(HashParts { cost, salt: encode(salt), hash: encode(digest) })
}

/// Whether the characters are one of the four version tags.
fn is_version_tag(token: &Vec<char>) -> (known: bool)
    ensures
        known == is_tag(token@),
{
    if token.len() != 2 {
        return false;
    }
    let known = token[0] == '2' && (token[1] == 'y' || token[1] == 'b' || token[1] == 'a'
        || token[1] == 'x');
    proof {
        if known {
            assert(token@ =~= seq!['2', token@[1]]);
        }
    }
    known
}

/// Splits a hash text into cost, salt and hash.
pub fn split_hash(hash: &str) -> (result: Result<HashParts, BcryptError>)
    ensures
        parts_outcome(result) == parsed(hash@),
        result matches Ok(parts) ==> well_formed(parts@),
{
    let chars = chars_of(hash);
    let tokens = split_keeping(&chars, '$', 1);
    assert(views(tokens@).len() == tokens@.len());
    if tokens.len() != 3 {
        return Err(BcryptError::InvalidHash(string_of(&chars)));
    }
    assert(views(tokens@)[0] == tokens@[0]@);
    assert(views(tokens@)[1] == tokens@[1]@);
    assert(views(tokens@)[2] == tokens@[2]@);
    if !is_version_tag(&tokens[0]) {
        return Err(BcryptError::InvalidPrefix(string_of(&tokens[0])));
    }
    let cost: u32 = match parse_unsigned(&tokens[1], 0xffff_ffff) {
        Some(value) => value as u32,
        None => {
            return Err(BcryptError::InvalidCost(string_of(&tokens[1])));
        },
    };
    let payload = &tokens[2];
    if payload.len() != 53 {
        return Err(BcryptError::InvalidHash(string_of(&chars)));
    }
    let mut salt = String::new();
    let mut text = String::new();
    let mut at: usize = 0;
    while at < 53
        invariant
            at <= 53,
            payload@.len() == 53,
            at <= 22 ==> salt@ == payload@.take(at as int) && text@ == Seq::<char>::empty(),
            at > 22 ==> salt@ == payload@.take(22) && text@ == payload@.subrange(22, at as int),
        decreases 53 - at,
    {
        if at < 22 {
            salt.push(payload[at]);
            assert(payload@.take(at + 1) =~= payload@.take(at as int).push(payload@[at as int]));
        } else {
            text.push(payload[at]);
            assert(payload@.subrange(22, at + 1) =~= payload@.subrange(22, at as int).push(
                payload@[at as int],
            ));
        }
        at = at + 1;
    }
    assert(payload@.subrange(22, 53) =~= payload@.skip(22));
    Ok(HashParts { cost, salt, hash: text })
}

/// `fastrand::u8` over the whole range: a byte that the thread's generator
/// picks. Nothing is known of it.
#[verifier::external_body]
fn random_byte() -> u8 {
    fastrand::u8(..)
}

/// Hashes a password under a cost and a fresh random salt, and gives the
/// hash text under the tag `2b`.
pub fn hash(password: &[u8], cost: u32) -> (result: Result<String, BcryptError>)
    ensures
        result is Ok <==> MIN_COST <= cost <= MAX_COST && !password@.contains(0u8),
        exists|salt: Seq<u8>|
            salt.len() == 16 && match #[trigger] hashed(password@, cost, salt) {
                Ok(parts) => text_outcome(result) == Ok::<Seq<char>, ErrorView>(
                    formatted(parts, Version::TwoB),
                ),
                Err(error) => text_outcome(result) == Err::<Seq<char>, ErrorView>(error),
            },
        result matches Ok(text) ==> text@.len() == 60 && verified(password@, text@) == Ok::<
            bool,
            ErrorView,
        >(true),
{
    match hash_with_result(password, cost) {
        Ok(parts) => {
            proof {
                let salt = choose|salt: Seq<u8>|
                    salt.len() == 16 && Ok::<PartsView, ErrorView>(parts@) == #[trigger] hashed(
                        password@,
                        cost,
                        salt,
                    );
                law_hash_text_shape(password@, cost, salt, Version::TwoB);
                law_own_hash_verifies(password@, cost, salt, Version::TwoB);
            }
            Ok(parts.format())
        },
        Err(error) => Err(error),
    }
}

/// Hashes a password under a cost and a fresh random salt, and gives the
/// parts, which can then be formatted under any tag.
pub fn hash_with_result(password: &[u8], cost: u32) -> (result: Result<HashParts, BcryptError>)
    ensures
        result is Ok <==> MIN_COST <= cost <= MAX_COST && !password@.contains(0u8),
        exists|salt: Seq<u8>|
            salt.len() == 16 && parts_outcome(result) == #[trigger] hashed(password@, cost, salt),
        result matches Ok(parts) ==> well_formed(parts@) && forall|version: Version|
            #[trigger] verified(password@, formatted(parts@, version)) == Ok::<bool, ErrorView>(
                true,
            ),
{
    let mut salt: Vec<u8> = Vec::new();
    let mut drawn: usize = 0;
    while drawn < 16
        invariant
            drawn <= 16,
            salt@.len() == drawn,
        decreases 16 - drawn,
    {
        salt.push(random_byte());
        drawn = drawn + 1;
    }
    let result = _hash_password(password, cost, salt.as_slice());
    proof {
        if result is Ok {
            assert forall|version: Version|
                #[trigger] verified(password@, formatted(result->Ok_0@, version)) == Ok::<
                    bool,
                    ErrorView,
                >(true) by {
                law_own_hash_verifies(password@, cost, salt@, version);
            }
        }
    }
    result
}

/// Compares two byte strings without stopping at the first difference:
/// strings of one length are walked to their end whatever they hold.
pub fn same_bytes(left: &[u8], right: &[u8]) -> (same: bool)
    ensures
        same == (left@ == right@),
{
    if left.len() != right.len() {
        return false;
    }
    let mut diff: u8 = 0;
    let mut at: usize = 0;
    assert(left@.take(0) =~= right@.take(0));
    while at < left.len()
        invariant
            at <= left.len(),
            left.len() == right.len(),
            diff == 0 <==> left@.take(at as int) == right@.take(at as int),
        decreases left.len() - at,
    {
        let a = left[at];
        let b = right[at];
        let ghost before = diff;
        diff = diff | (a ^ b);
        assert(diff == 0 <==> (before == 0 && a == b)) by (bit_vector)
            requires
                diff == before | (a ^ b),
        ;
        proof {
            let l0 = left@.take(at as int);
            let r0 = right@.take(at as int);
            let l1 = left@.take(at + 1);
            let r1 = right@.take(at + 1);
            assert(l1 =~= l0.push(a));
            assert(r1 =~= r0.push(b));
            if l1 == r1 {
                assert(l1.drop_last() =~= l0);
                assert(r1.drop_last() =~= r0);
                assert(l1.last() == a);
                assert(r1.last() == b);
            }
        }
        at = at + 1;
    }
    assert(left@.take(left@.len() as int) =~= left@);
    assert(right@.take(right@.len() as int) =~= right@);
    diff == 0
}

/// Whether a password is the one that a hash text was made from.
pub fn verify(password: &[u8], hash: &str) -> (result: Result<bool, BcryptError>)
    ensures
        verdict_outcome(result) == verified(password@, hash@),
{
    let parts = match split_hash(hash) {
        Ok(parts) => parts,
        Err(error) => {
            return Err(error);
        },
    };
    let salt = match decode(parts.salt.as_str()) {
        Ok(salt) => salt,
        Err(error) => {
            return Err(BcryptError::from(error));
        },
    };
    proof {
        lemma_decoded_is(parts@.salt, salt@);
        lemma_salt_text_length(parts@.salt, salt@);
    }
    let generated = match _hash_password(password, parts.cost, salt.as_slice()) {
        Ok(generated) => generated,
        Err(error) => {
            return Err(error);
        },
    };
    let source_decoded = match decode(parts.hash.as_str()) {
        Ok(bytes) => bytes,
        Err(error) => {
            return Err(BcryptError::from(error));
        },
    };
    proof {
        lemma_decoded_is(parts@.hash, source_decoded@);
    }
    let generated_decoded = match decode(generated.hash.as_str()) {
        Ok(bytes) => bytes,
        Err(error) => {
            return Err(BcryptError::from(error));
        },
    };
    proof {
        lemma_decoded_is(generated@.hash, generated_decoded@);
    }
    Ok(same_bytes(source_decoded.as_slice(), generated_decoded.as_slice()))
}

} // verus!
