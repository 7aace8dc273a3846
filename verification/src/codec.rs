//! The unpadded base-64 text form that bcrypt uses for salts and digests.
//!
//! Encoding and decoding are the `base64` crate's, run with its bcrypt
//! alphabet. What both do is stated here over a plain model: the input's
//! bits, most significant first, cut into groups of six, each group
//! written as one symbol.

use vstd::prelude::*;

verus! {

/// Error of the `base64` crate's decoder.
#[verifier::external_type_specification]
#[verifier::external_body]
pub struct ExDecodeError(base64::DecodeError);

/// The 64 symbols, by value.
pub open spec fn alphabet() -> Seq<char> {
    "./ABCDEFGHIJKLMNOPQRSTUVWXYZabcdefghijklmnopqrstuvwxyz0123456789"@
}

/// The symbol that stands for a six-bit value.
pub open spec fn symbol(value: u8) -> char {
    alphabet()[value as int]
}

/// The byte at `index`, or zero past the end.
pub open spec fn byte_or_zero(bytes: Seq<u8>, index: int) -> u8 {
    if 0 <= index < bytes.len() {
        bytes[index]
    } else {
        0
    }
}

/// Number of six-bit groups that `bytes` bytes take: a third more, rounded
/// up.
pub open spec fn group_count(bytes: nat) -> nat {
    (bytes * 4 + 2) / 3
}

/// The six-bit group at `index` of the bits of `bytes`, the last group
/// filled up with zero bits.
pub open spec fn group(bytes: Seq<u8>, index: int) -> u8 {
    let first = (index / 4) * 3;
    let b0 = byte_or_zero(bytes, first);
    let b1 = byte_or_zero(bytes, first + 1);
    let b2 = byte_or_zero(bytes, first + 2);
    if index % 4 == 0 {
        b0 >> 2
    } else if index % 4 == 1 {
        ((b0 & 3) << 4) | (b1 >> 4)
    } else if index % 4 == 2 {
        ((b1 & 15) << 2) | (b2 >> 6)
    } else {
        b2 & 63
    }
}

/// The text form of `bytes`: one symbol for each six-bit group, no padding.
pub open spec fn encoded(bytes: Seq<u8>) -> Seq<char> {
    Seq::new(group_count(bytes.len()), |index: int| symbol(group(bytes, index)))
}

/// `count` padding characters.
pub open spec fn padding(count: nat) -> Seq<char> {
    Seq::new(count, |index: int| '=')
}

/// Whether the decoder lets `count` padding characters follow `groups`
/// symbols: it takes up to two, and only in the second half of a group of
/// four characters.
pub open spec fn padding_fits(groups: nat, count: nat) -> bool {
    count == 0 || (count == 1 && groups % 4 >= 2) || (count == 2 && groups % 4 == 2)
}

/// Whether `text` is a text form of `bytes` that the decoder takes: the
/// encoding itself, alone or with padding where padding fits.
pub open spec fn decodes_to(text: Seq<char>, bytes: Seq<u8>) -> bool {
    exists|count: nat|
        padding_fits(encoded(bytes).len(), count) && text == encoded(bytes) + #[trigger] padding(
            count,
        )
}

/// The bytes that `text` stands for, if it stands for any.
pub open spec fn decoded(text: Seq<char>) -> Option<Seq<u8>> {
    if exists|bytes: Seq<u8>| decodes_to(text, bytes) {
        Some(choose|bytes: Seq<u8>| decodes_to(text, bytes))
    } else {
        None
    }
}

/// `base64::encode_config` with `base64::BCRYPT`: the unpadded encoding in
/// the bcrypt alphabet. The crate panics where the length of the text would
/// not fit `usize`, which the bound on the input rules out.
#[verifier::external_body]
pub(crate) fn encode(bytes: &[u8]) -> (text: String)
    requires
        bytes@.len() <= usize::MAX / 2,
    ensures
        text@ == encoded(bytes@),
{
    base64::encode_config(bytes, base64::BCRYPT)
}

/// `base64::decode_config` with `base64::BCRYPT`. The decoder takes every
/// unpadded encoding, and also one with `=` after it where `padding_fits`;
/// anything else (a character outside the alphabet, a length that leaves
/// six lone bits, set bits behind the last byte) is an error.
#[verifier::external_body]
pub(crate) fn decode(text: &str) -> (result: Result<Vec<u8>, base64::DecodeError>)
    ensures
        match result {
            Ok(bytes) => decodes_to(text@, bytes@),
            Err(_) => forall|bytes: Seq<u8>| !decodes_to(text@, bytes),
        },
{
    base64::decode_config(text, base64::BCRYPT)
}

/// The alphabet, symbol by symbol.
pub proof fn lemma_alphabet()
    ensures
        alphabet().len() == 64,
        alphabet()[0] == '.',
        alphabet()[1] == '/',
        alphabet()[2] == 'A',
        alphabet()[3] == 'B',
        alphabet()[4] == 'C',
        alphabet()[5] == 'D',
        alphabet()[6] == 'E',
        alphabet()[7] == 'F',
        alphabet()[8] == 'G',
        alphabet()[9] == 'H',
        alphabet()[10] == 'I',
        alphabet()[11] == 'J',
        alphabet()[12] == 'K',
        alphabet()[13] == 'L',
        alphabet()[14] == 'M',
        alphabet()[15] == 'N',
        alphabet()[16] == 'O',
        alphabet()[17] == 'P',
        alphabet()[18] == 'Q',
        alphabet()[19] == 'R',
        alphabet()[20] == 'S',
        alphabet()[21] == 'T',
        alphabet()[22] == 'U',
        alphabet()[23] == 'V',
        alphabet()[24] == 'W',
        alphabet()[25] == 'X',
        alphabet()[26] == 'Y',
        alphabet()[27] == 'Z',
        alphabet()[28] == 'a',
        alphabet()[29] == 'b',
        alphabet()[30] == 'c',
        alphabet()[31] == 'd',
        alphabet()[32] == 'e',
        alphabet()[33] == 'f',
        alphabet()[34] == 'g',
        alphabet()[35] == 'h',
        alphabet()[36] == 'i',
        alphabet()[37] == 'j',
        alphabet()[38] == 'k',
        alphabet()[39] == 'l',
        alphabet()[40] == 'm',
        alphabet()[41] == 'n',
        alphabet()[42] == 'o',
        alphabet()[43] == 'p',
        alphabet()[44] == 'q',
        alphabet()[45] == 'r',
        alphabet()[46] == 's',
        alphabet()[47] == 't',
        alphabet()[48] == 'u',
        alphabet()[49] == 'v',
        alphabet()[50] == 'w',
        alphabet()[51] == 'x',
        alphabet()[52] == 'y',
        alphabet()[53] == 'z',
        alphabet()[54] == '0',
        alphabet()[55] == '1',
        alphabet()[56] == '2',
        alphabet()[57] == '3',
        alphabet()[58] == '4',
        alphabet()[59] == '5',
        alphabet()[60] == '6',
        alphabet()[61] == '7',
        alphabet()[62] == '8',
        alphabet()[63] == '9',
{
    reveal_strlit("./ABCDEFGHIJKLMNOPQRSTUVWXYZabcdefghijklmnopqrstuvwxyz0123456789");
}

/// Whether a character is one of the 64 symbols.
pub open spec fn is_symbol(c: char) -> bool {
    c == '.' || c == '/' || ('A' <= c && c <= 'Z') || ('a' <= c && c <= 'z') || ('0' <= c && c
        <= '9')
}

/// The six-bit value that a symbol stands for.
pub open spec fn symbol_value(c: char) -> int {
    if c == '.' {
        0
    } else if c == '/' {
        1
    } else if 'A' <= c && c <= 'Z' {
        (c as int) - ('A' as int) + 2
    } else if 'a' <= c && c <= 'z' {
        (c as int) - ('a' as int) + 28
    } else {
        (c as int) - ('0' as int) + 54
    }
}

/// Every six-bit value has a symbol of its own, and reading the symbol
/// gives the value back.
pub proof fn lemma_symbol(value: u8)
    requires
        value < 64,
    ensures
        is_symbol(symbol(value)),
        symbol_value(symbol(value)) == value,
{
    lemma_alphabet();
    if value == 0 {
        assert(symbol(value) == '.');
    } else if value == 1 {
        assert(symbol(value) == '/');
    } else if value == 2 {
        assert(symbol(value) == 'A');
    } else if value == 3 {
        assert(symbol(value) == 'B');
    } else if value == 4 {
        assert(symbol(value) == 'C');
    } else if value == 5 {
        assert(symbol(value) == 'D');
    } else if value == 6 {
        assert(symbol(value) == 'E');
    } else if value == 7 {
        assert(symbol(value) == 'F');
    } else if value == 8 {
        assert(symbol(value) == 'G');
    } else if value == 9 {
        assert(symbol(value) == 'H');
    } else if value == 10 {
        assert(symbol(value) == 'I');
    } else if value == 11 {
        assert(symbol(value) == 'J');
    } else if value == 12 {
        assert(symbol(value) == 'K');
    } else if value == 13 {
        assert(symbol(value) == 'L');
    } else if value == 14 {
        assert(symbol(value) == 'M');
    } else if value == 15 {
        assert(symbol(value) == 'N');
    } else if value == 16 {
        assert(symbol(value) == 'O');
    } else if value == 17 {
        assert(symbol(value) == 'P');
    } else if value == 18 {
        assert(symbol(value) == 'Q');
    } else if value == 19 {
        assert(symbol(value) == 'R');
    } else if value == 20 {
        assert(symbol(value) == 'S');
    } else if value == 21 {
        assert(symbol(value) == 'T');
    } else if value == 22 {
        assert(symbol(value) == 'U');
    } else if value == 23 {
        assert(symbol(value) == 'V');
    } else if value == 24 {
        assert(symbol(value) == 'W');
    } else if value == 25 {
        assert(symbol(value) == 'X');
    } else if value == 26 {
        assert(symbol(value) == 'Y');
    } else if value == 27 {
        assert(symbol(value) == 'Z');
    } else if value == 28 {
        assert(symbol(value) == 'a');
    } else if value == 29 {
        assert(symbol(value) == 'b');
    } else if value == 30 {
        assert(symbol(value) == 'c');
    } else if value == 31 {
        assert(symbol(value) == 'd');
    } else if value == 32 {
        assert(symbol(value) == 'e');
    } else if value == 33 {
        assert(symbol(value) == 'f');
    } else if value == 34 {
        assert(symbol(value) == 'g');
    } else if value == 35 {
        assert(symbol(value) == 'h');
    } else if value == 36 {
        assert(symbol(value) == 'i');
    } else if value == 37 {
        assert(symbol(value) == 'j');
    } else if value == 38 {
        assert(symbol(value) == 'k');
    } else if value == 39 {
        assert(symbol(value) == 'l');
    } else if value == 40 {
        assert(symbol(value) == 'm');
    } else if value == 41 {
        assert(symbol(value) == 'n');
    } else if value == 42 {
        assert(symbol(value) == 'o');
    } else if value == 43 {
        assert(symbol(value) == 'p');
    } else if value == 44 {
        assert(symbol(value) == 'q');
    } else if value == 45 {
        assert(symbol(value) == 'r');
    } else if value == 46 {
        assert(symbol(value) == 's');
    } else if value == 47 {
        assert(symbol(value) == 't');
    } else if value == 48 {
        assert(symbol(value) == 'u');
    } else if value == 49 {
        assert(symbol(value) == 'v');
    } else if value == 50 {
        assert(symbol(value) == 'w');
    } else if value == 51 {
        assert(symbol(value) == 'x');
    } else if value == 52 {
        assert(symbol(value) == 'y');
    } else if value == 53 {
        assert(symbol(value) == 'z');
    } else if value == 54 {
        assert(symbol(value) == '0');
    } else if value == 55 {
        assert(symbol(value) == '1');
    } else if value == 56 {
        assert(symbol(value) == '2');
    } else if value == 57 {
        assert(symbol(value) == '3');
    } else if value == 58 {
        assert(symbol(value) == '4');
    } else if value == 59 {
        assert(symbol(value) == '5');
    } else if value == 60 {
        assert(symbol(value) == '6');
    } else if value == 61 {
        assert(symbol(value) == '7');
    } else if value == 62 {
        assert(symbol(value) == '8');
    } else {
        assert(symbol(value) == '9');
    }
}

/// A group is a six-bit value.
pub proof fn lemma_group_is_six_bits(bytes: Seq<u8>, index: int)
    ensures
        group(bytes, index) < 64,
{
    let first = (index / 4) * 3;
    let b0 = byte_or_zero(bytes, first);
    let b1 = byte_or_zero(bytes, first + 1);
    let b2 = byte_or_zero(bytes, first + 2);
    assert(b0 >> 2 < 64) by (bit_vector);
    assert(((b0 & 3) << 4) | (b1 >> 4) < 64) by (bit_vector);
    assert(((b1 & 15) << 2) | (b2 >> 6) < 64) by (bit_vector);
    assert(b2 & 63 < 64) by (bit_vector);
}

/// Three bytes can be read back from their four groups, and two or one
/// from the groups that hold their bits.
proof fn lemma_bytes_of_groups(b0: u8, b1: u8, b2: u8)
    ensures
        b0 == ((b0 >> 2) << 2) | ((((b0 & 3) << 4) | (b1 >> 4)) >> 4),
        b1 == (((((b0 & 3) << 4) | (b1 >> 4)) & 15) << 4) | ((((b1 & 15) << 2) | (b2 >> 6)) >> 2),
        b2 == (((((b1 & 15) << 2) | (b2 >> 6)) & 3) << 6) | (b2 & 63),
{
    assert(b0 == ((b0 >> 2) << 2) | ((((b0 & 3) << 4) | (b1 >> 4)) >> 4)) by (bit_vector);
    assert(b1 == (((((b0 & 3) << 4) | (b1 >> 4)) & 15) << 4) | ((((b1 & 15) << 2) | (b2 >> 6))
        >> 2)) by (bit_vector);
    assert(b2 == (((((b1 & 15) << 2) | (b2 >> 6)) & 3) << 6) | (b2 & 63)) by (bit_vector);
}

/// No symbol of an encoding is a padding character or a `$`.
pub proof fn lemma_encoded_symbols(bytes: Seq<u8>)
    ensures
        encoded(bytes).len() == group_count(bytes.len()),
        forall|index: int|
            0 <= index < encoded(bytes).len() ==> is_symbol(#[trigger] encoded(bytes)[index]),
{
    assert forall|index: int| 0 <= index < encoded(bytes).len() implies is_symbol(
        #[trigger] encoded(bytes)[index],
    ) by {
        lemma_group_is_six_bits(bytes, index);
        lemma_symbol(group(bytes, index));
    }
}

/// Two byte strings with the same encoding are the same.
pub proof fn lemma_encoded_injective(a: Seq<u8>, b: Seq<u8>)
    requires
        encoded(a) == encoded(b),
    ensures
        a == b,
{
    assert(encoded(a).len() == group_count(a.len()));
    assert(encoded(b).len() == group_count(b.len()));
    assert(a.len() == b.len());
    assert forall|at: int| 0 <= at < a.len() implies a[at] == b[at] by {
        let first = (at / 3) * 3;
        let low = (at / 3) * 4;
        assert forall|index: int| low <= index < low + 4 && index < group_count(a.len())
            implies group(a, index) == group(b, index) by {
            lemma_group_is_six_bits(a, index);
            lemma_group_is_six_bits(b, index);
            lemma_symbol(group(a, index));
            lemma_symbol(group(b, index));
            assert(encoded(a)[index] == symbol(group(a, index)));
            assert(encoded(b)[index] == symbol(group(b, index)));
        }
        lemma_bytes_of_groups(
            byte_or_zero(a, first),
            byte_or_zero(a, first + 1),
            byte_or_zero(a, first + 2),
        );
        lemma_bytes_of_groups(
            byte_or_zero(b, first),
            byte_or_zero(b, first + 1),
            byte_or_zero(b, first + 2),
        );
        assert((low / 4) * 3 == first);
        assert(((low + 1) / 4) * 3 == first);
        assert(((low + 2) / 4) * 3 == first);
        assert(((low + 3) / 4) * 3 == first);
        if at % 3 == 0 {
            assert(group(a, low) == group(b, low));
            assert(group(a, low + 1) == group(b, low + 1));
        } else if at % 3 == 1 {
            assert(group(a, low + 1) == group(b, low + 1));
            assert(group(a, low + 2) == group(b, low + 2));
        } else {
            assert(group(a, low + 2) == group(b, low + 2));
            assert(group(a, low + 3) == group(b, low + 3));
        }
    }
    assert(a =~= b);
}

/// A text stands for at most one byte string.
pub proof fn lemma_decodes_unique(text: Seq<char>, a: Seq<u8>, b: Seq<u8>)
    requires
        decodes_to(text, a),
        decodes_to(text, b),
    ensures
        a == b,
{
    let pa = choose|count: nat|
        padding_fits(encoded(a).len(), count) && text == encoded(a) + #[trigger] padding(count);
    let pb = choose|count: nat|
        padding_fits(encoded(b).len(), count) && text == encoded(b) + #[trigger] padding(count);
    lemma_encoded_symbols(a);
    lemma_encoded_symbols(b);
    let la = encoded(a).len() as int;
    let lb = encoded(b).len() as int;
    if la < lb {
        assert(text[la] == padding(pa)[0]);
        assert(text[la] == encoded(b)[la]);
        assert(false);
    }
    if lb < la {
        assert(text[lb] == padding(pb)[0]);
        assert(text[lb] == encoded(a)[lb]);
        assert(false);
    }
    assert(encoded(a) =~= encoded(b)) by {
        assert forall|index: int| 0 <= index < la implies encoded(a)[index] == encoded(b)[index] by {
            assert(text[index] == encoded(a)[index]);
            assert(text[index] == encoded(b)[index]);
        }
    }
    lemma_encoded_injective(a, b);
}

/// What a text stands for is what `decoded` gives.
pub proof fn lemma_decoded_is(text: Seq<char>, bytes: Seq<u8>)
    requires
        decodes_to(text, bytes),
    ensures
        decoded(text) == Some(bytes),
{
    let chosen = choose|other: Seq<u8>| decodes_to(text, other);
    lemma_decodes_unique(text, chosen, bytes);
}

/// Decoding an encoding gives the bytes back.
pub proof fn lemma_decoded_encoded(bytes: Seq<u8>)
    ensures
        decoded(encoded(bytes)) == Some(bytes),
{
    assert(encoded(bytes) =~= encoded(bytes) + padding(0));
    assert(padding_fits(encoded(bytes).len(), 0));
    lemma_decoded_is(encoded(bytes), bytes);
}

/// A text of 22 characters stands for 16 bytes, if for any.
pub proof fn lemma_salt_text_length(text: Seq<char>, bytes: Seq<u8>)
    requires
        decodes_to(text, bytes),
        text.len() == 22,
    ensures
        bytes.len() == 16,
{
    let count = choose|count: nat|
        padding_fits(encoded(bytes).len(), count) && text == encoded(bytes) + #[trigger] padding(
            count,
        );
    assert(encoded(bytes).len() + count == 22);
}

/// The encoding of 16 bytes has 22 symbols and that of 23 bytes has 31.
pub proof fn lemma_encoded_lengths(bytes: Seq<u8>)
    ensures
        bytes.len() == 16 ==> encoded(bytes).len() == 22,
        bytes.len() == 23 ==> encoded(bytes).len() == 31,
{
}

/// A symbol is not the separator of the hash text.
pub proof fn lemma_symbol_is_no_dollar(c: char)
    requires
        is_symbol(c),
    ensures
        c != '$',
        c != '=',
{
}

} // verus!
