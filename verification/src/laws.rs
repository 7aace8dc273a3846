//! Laws that hold between hashing, formatting, parsing and verifying.

use crate::bcrypt::{
    formatted, hashed, is_tag, key_bytes, parsed, tag, two_digits, verified, ErrorView,
    PartsView, Version, MAX_COST, MIN_COST,
};
use crate::cipher::raw_digest;
use crate::codec::{
    decoded, is_symbol, lemma_decoded_encoded, lemma_encoded_lengths, lemma_encoded_symbols,
    lemma_symbol_is_no_dollar,
};
use crate::text::{
    all_digits, decimal, decimal_value, free_of, is_digit, lemma_decimal, lemma_parsed_digits,
    lemma_split_plain, lemma_split_separator, nonempty, parsed_unsigned, split,
};
use vstd::prelude::*;

verus! {

/// The raw digest has 24 bytes.
pub proof fn lemma_raw_digest_length(cost: nat, salt: Seq<u8>, password: Seq<u8>)
    ensures
        raw_digest(cost, salt, password).len() == 24,
{
}

/// The cost of a hash text is written with digits, at least two of them,
/// and reads back as the cost.
pub proof fn lemma_two_digits(cost: u32)
    ensures
        two_digits(cost).len() >= 2,
        cost < 100 ==> two_digits(cost).len() == 2,
        all_digits(two_digits(cost)),
        parsed_unsigned(two_digits(cost), u32::MAX as int) == Some(cost as int),
{
    lemma_decimal(cost as nat);
    let text = two_digits(cost);
    if cost < 10 {
        let digits = decimal(cost as nat);
        assert(text.drop_last() =~= seq!['0']);
        assert(text.last() == digits[0]);
        assert(digits.drop_last() =~= Seq::<char>::empty());
        assert(seq!['0'].drop_last() =~= Seq::<char>::empty());
        assert(decimal_value(seq!['0']) == 0);
        assert(decimal_value(text) == cost);
        assert forall|index: int| 0 <= index < text.len() implies is_digit(
            #[trigger] text[index],
        ) by {
            if index == 1 {
                assert(text[index] == digits[0]);
            }
        }
    } else {
        lemma_decimal((cost / 10) as nat);
    }
    lemma_parsed_digits(text, u32::MAX as int);
}

/// The pieces of a hash text are its tag, its cost and its payload.
pub proof fn lemma_formatted_tokens(parts: PartsView, version: Version)
    requires
        parts.salt.len() + parts.hash.len() > 0,
        free_of(parts.salt, '$'),
        free_of(parts.hash, '$'),
    ensures
        nonempty(split(formatted(parts, version), '$')) == seq![
            tag(version),
            two_digits(parts.cost),
            parts.salt + parts.hash,
        ],
{
    let sep = '$';
    let digits = two_digits(parts.cost);
    let payload = parts.salt + parts.hash;
    lemma_two_digits(parts.cost);
    assert(free_of(tag(version), sep));
    assert(free_of(digits, sep)) by {
        assert forall|index: int| 0 <= index < digits.len() implies #[trigger] digits[index]
            != sep by {
            assert(is_digit(digits[index]));
        }
    }
    assert(free_of(payload, sep)) by {
        assert forall|index: int| 0 <= index < payload.len() implies #[trigger] payload[index]
            != sep by {
            if index < parts.salt.len() {
                assert(payload[index] == parts.salt[index]);
            } else {
                assert(payload[index] == parts.hash[index - parts.salt.len()]);
            }
        }
    }
    let empty = Seq::<char>::empty();
    let t0 = Seq::<char>::empty();
    let t1 = t0.push(sep);
    let t2 = t1 + tag(version);
    let t3 = t2.push(sep);
    let t4 = t3 + digits;
    let t5 = t4.push(sep);
    let t6 = t5 + payload;
    assert(split(t0, sep) =~= seq![empty]);
    lemma_split_separator(t0, sep);
    assert(split(t1, sep) =~= seq![empty, empty]);
    lemma_split_plain(t1, tag(version), sep);
    assert(empty + tag(version) =~= tag(version));
    assert(split(t2, sep) =~= seq![empty, tag(version)]);
    lemma_split_separator(t2, sep);
    assert(split(t3, sep) =~= seq![empty, tag(version), empty]);
    lemma_split_plain(t3, digits, sep);
    assert(empty + digits =~= digits);
    assert(split(t4, sep) =~= seq![empty, tag(version), digits]);
    lemma_split_separator(t4, sep);
    assert(split(t5, sep) =~= seq![empty, tag(version), digits, empty]);
    lemma_split_plain(t5, payload, sep);
    assert(empty + payload =~= payload);
    let pieces = seq![empty, tag(version), digits, payload];
    assert(split(t6, sep) =~= pieces);
    assert(t6 =~= formatted(parts, version));
    let p1 = pieces.drop_last();
    let p2 = p1.drop_last();
    let p3 = p2.drop_last();
    let p4 = p3.drop_last();
    assert(p1 =~= seq![empty, tag(version), digits]);
    assert(p2 =~= seq![empty, tag(version)]);
    assert(p3 =~= seq![empty]);
    assert(p4 =~= Seq::<Seq<char>>::empty());
    assert(nonempty(p4) =~= Seq::<Seq<char>>::empty());
    assert(nonempty(p3) =~= Seq::<Seq<char>>::empty());
    assert(nonempty(p2) =~= seq![tag(version)]);
    assert(nonempty(p1) =~= seq![tag(version), digits]);
    assert(nonempty(pieces) =~= seq![tag(version), digits, payload]);
}

/// Parsing the text form of hash parts gives the parts back, whatever the
/// tag: for a salt of 22 and a hash of 31 characters, none of them a `$`.
pub proof fn law_parse_inverts_format(parts: PartsView, version: Version)
    requires
        parts.salt.len() == 22,
        parts.hash.len() == 31,
        free_of(parts.salt, '$'),
        free_of(parts.hash, '$'),
    ensures
        parsed(formatted(parts, version)) == Ok::<PartsView, ErrorView>(parts),
{
    lemma_formatted_tokens(parts, version);
    lemma_two_digits(parts.cost);
    let payload = parts.salt + parts.hash;
    assert(payload.take(22) =~= parts.salt);
    assert(payload.skip(22) =~= parts.hash);
    assert(is_tag(tag(version)));
}

/// The parts that hashing gives: a salt of 22 and a hash of 31 symbols.
pub proof fn lemma_hashed_shape(password: Seq<u8>, cost: u32, salt: Seq<u8>)
    requires
        salt.len() == 16,
        hashed(password, cost, salt) is Ok,
    ensures
        hashed(password, cost, salt)->Ok_0.cost == cost,
        MIN_COST <= cost <= MAX_COST,
        hashed(password, cost, salt)->Ok_0.salt.len() == 22,
        hashed(password, cost, salt)->Ok_0.hash.len() == 31,
        forall|index: int|
            0 <= index < 22 ==> is_symbol(#[trigger] hashed(password, cost, salt)->Ok_0.salt[index]),
        forall|index: int|
            0 <= index < 31 ==> is_symbol(#[trigger] hashed(password, cost, salt)->Ok_0.hash[index]),
        free_of(hashed(password, cost, salt)->Ok_0.salt, '$'),
        free_of(hashed(password, cost, salt)->Ok_0.hash, '$'),
{
    let digest = raw_digest(cost as nat, salt, key_bytes(password)).take(23);
    lemma_raw_digest_length(cost as nat, salt, key_bytes(password));
    lemma_encoded_lengths(salt);
    lemma_encoded_lengths(digest);
    lemma_encoded_symbols(salt);
    lemma_encoded_symbols(digest);
    let parts = hashed(password, cost, salt)->Ok_0;
    assert forall|index: int| 0 <= index < parts.salt.len() implies #[trigger] parts.salt[index]
        != '$' by {
        lemma_symbol_is_no_dollar(parts.salt[index]);
    }
    assert forall|index: int| 0 <= index < parts.hash.len() implies #[trigger] parts.hash[index]
        != '$' by {
        lemma_symbol_is_no_dollar(parts.hash[index]);
    }
}

/// A password verifies against every hash text made from it: for every
/// cost in range, every salt of 16 bytes, every password without a zero
/// byte, and under each of the four tags.
pub proof fn law_own_hash_verifies(password: Seq<u8>, cost: u32, salt: Seq<u8>, version: Version)
    requires
        MIN_COST <= cost <= MAX_COST,
        !password.contains(0u8),
        salt.len() == 16,
    ensures
        hashed(password, cost, salt) is Ok,
        verified(password, formatted(hashed(password, cost, salt)->Ok_0, version)) == Ok::<
            bool,
            ErrorView,
        >(true),
{
    let parts = hashed(password, cost, salt)->Ok_0;
    lemma_hashed_shape(password, cost, salt);
    law_parse_inverts_format(parts, version);
    lemma_decoded_encoded(salt);
    let digest = raw_digest(cost as nat, salt, key_bytes(password)).take(23);
    lemma_decoded_encoded(digest);
}

/// A hash text has one shape: 60 characters, of which the first seven are
/// `$`, the two of the tag, `$`, the two digits of the cost and `$`, and
/// the other 53 are symbols of the base-64 alphabet.
pub proof fn law_hash_text_shape(password: Seq<u8>, cost: u32, salt: Seq<u8>, version: Version)
    requires
        salt.len() == 16,
        hashed(password, cost, salt) is Ok,
    ensures
        formatted(hashed(password, cost, salt)->Ok_0, version).len() == 60,
        formatted(hashed(password, cost, salt)->Ok_0, version).take(7) == seq!['$'] + tag(version)
            + seq!['$'] + two_digits(cost) + seq!['$'],
        two_digits(cost).len() == 2,
        all_digits(two_digits(cost)),
        forall|index: int|
            7 <= index < 60 ==> is_symbol(
                #[trigger] formatted(hashed(password, cost, salt)->Ok_0, version)[index],
            ),
{
    let parts = hashed(password, cost, salt)->Ok_0;
    let text = formatted(parts, version);
    lemma_hashed_shape(password, cost, salt);
    lemma_two_digits(cost);
    assert(text.take(7) =~= seq!['$'] + tag(version) + seq!['$'] + two_digits(cost) + seq!['$']);
    assert forall|index: int| 7 <= index < 60 implies is_symbol(#[trigger] text[index]) by {
        if index < 29 {
            assert(text[index] == parts.salt[index - 7]);
        } else {
            assert(text[index] == parts.hash[index - 29]);
        }
    }
}

/// Where the stored hash of a hash text stands for a byte string that has
/// not the 23 bytes of a digest, verifying gives `false`, and no error.
pub proof fn law_other_length_is_no_match(password: Seq<u8>, text: Seq<char>)
    requires
        parsed(text) is Ok,
        decoded(parsed(text)->Ok_0.salt) is Some,
        decoded(parsed(text)->Ok_0.salt)->Some_0.len() == 16,
        hashed(password, parsed(text)->Ok_0.cost, decoded(parsed(text)->Ok_0.salt)->Some_0) is Ok,
        decoded(parsed(text)->Ok_0.hash) is Some,
        decoded(parsed(text)->Ok_0.hash)->Some_0.len() != 23,
    ensures
        verified(password, text) == Ok::<bool, ErrorView>(false),
{
    let parts = parsed(text)->Ok_0;
    let salt = decoded(parts.salt)->Some_0;
    let digest = raw_digest(parts.cost as nat, salt, key_bytes(password)).take(23);
    lemma_raw_digest_length(parts.cost as nat, salt, key_bytes(password));
    lemma_decoded_encoded(digest);
}

} // verus!
