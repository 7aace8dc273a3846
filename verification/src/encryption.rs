//! Encryption of the lines of a data file under a key.
//!
//! The cipher is the `magic_crypt` crate's AES-256; what it makes of a
//! text is known here by name only. What this module proves is how a file
//! is put together from its lines and taken apart again.

use crate::text::{
    byte_len, chars_of, joined_lines, push_line, record_lines, same_text, split, split_keeping,
    split_on, string_of, views,
};
use vstd::prelude::*;

verus! {

/// A cipher of the `magic_crypt` crate with a key of 256 bits.
#[verifier::external_type_specification]
#[verifier::external_body]
pub struct ExMagicCrypt256(magic_crypt::MagicCrypt256);

/// What a cipher works with: its key bytes, and behind them its
/// initialisation vector.
pub uninterp spec fn cipher_key(cipher: magic_crypt::MagicCrypt256) -> Seq<u8>;

/// What a cipher made from a key text without an initialisation vector
/// works with: the key bytes that the crate derives from the text, and an
/// initialisation vector of zeros.
pub uninterp spec fn derived_key(key: Seq<char>) -> Seq<u8>;

/// The base-64 text of the encryption of a text under key bytes.
pub uninterp spec fn sealed_text(key: Seq<u8>, data: Seq<char>) -> Seq<char>;

/// The text that a base-64 text decrypts to under key bytes, or the
/// message of the crate's error.
pub uninterp spec fn opened_text(key: Seq<u8>, data: Seq<char>) -> Result<Seq<char>, Seq<char>>;

/// `MagicCrypt256::new` without an initialisation vector: a cipher that
/// works with the key bytes derived from the key text.
#[verifier::external_body]
fn new_cipher(key: &str) -> (cipher: magic_crypt::MagicCrypt256)
    ensures
        cipher_key(cipher) == derived_key(key@),
{
    magic_crypt::MagicCryptTrait::new(key, None::<String>)
}

/// `MagicCryptTrait::encrypt_str_to_base64`: the encryption of the text, as
/// base-64 text.
#[verifier::external_body]
fn seal(cipher: &magic_crypt::MagicCrypt256, data: &str) -> (text: String)
    ensures
        text@ == sealed_text(cipher_key(*cipher), data@),
{
    magic_crypt::MagicCryptTrait::encrypt_str_to_base64(cipher, data)
}

/// `MagicCryptTrait::decrypt_base64_to_string`: the text that was
/// encrypted, or the crate's error as a message.
#[verifier::external_body]
fn open(cipher: &magic_crypt::MagicCrypt256, data: &str) -> (result: Result<String, String>)
    ensures
        match opened_text(cipher_key(*cipher), data@) {
            Ok(text) => result matches Ok(made) && made@ == text,
            Err(message) => result matches Err(made) && made@ == message,
        },
{
    match magic_crypt::MagicCryptTrait::decrypt_base64_to_string(cipher, data) {
        Ok(text) => Ok(text),
        Err(error) => Err(error.to_string()),
    }
}

/// A key for the encryption of data files.
#[derive(Default, Clone, Debug)]
pub struct EncryptionKey(pub String);

/// The encryption of a text under a key text.
pub open spec fn encrypted(data: Seq<char>, key: Seq<char>) -> Seq<char> {
    sealed_text(derived_key(key), data)
}

/// The decryption of a text under a key text.
pub open spec fn decrypted(data: Seq<char>, key: Seq<char>) -> Result<Seq<char>, Seq<char>> {
    opened_text(derived_key(key), data)
}

/// The line that marks a file as encrypted.
pub open spec fn marker() -> Seq<char> {
    ";|encrypted|;"@
}

/// The lines that decrypt, decrypted; the marker and the lines that do not
/// decrypt are left out.
pub open spec fn opened_lines(lines: Seq<Seq<char>>, key: Seq<char>) -> Seq<Seq<char>>
    decreases lines.len(),
{
    if lines.len() == 0 {
        lines
    } else {
        let before = opened_lines(lines.drop_last(), key);
        if lines.last() == marker() {
            before
        } else {
            match decrypted(lines.last(), key) {
                Ok(text) => before.push(text),
                Err(_) => before,
            }
        }
    }
}

/// What the content of a file is once it is opened with a key.
///
/// A key of at most two bytes opens nothing, and a file whose first line
/// of three characters or more is not the marker is not encrypted: both
/// give the content as it is. Else the lines are decrypted and joined.
/// There is no result for a key of more than two bytes and a content
/// without a line of three characters.
pub open spec fn opened(content: Seq<char>, key: Seq<char>) -> Option<Seq<char>> {
    if byte_len(key) <= 2 {
        Some(content)
    } else if record_lines(content).len() == 0 {
        None
    } else if record_lines(content)[0] != marker() {
        Some(content)
    } else {
        Some(joined_lines(opened_lines(record_lines(content), key), '\n'))
    }
}

/// The marker, and behind it each line encrypted on a line of its own.
pub open spec fn sealed_lines(lines: Seq<Seq<char>>, key: Seq<char>) -> Seq<char>
    decreases lines.len(),
{
    if lines.len() == 0 {
        marker()
    } else {
        sealed_lines(lines.drop_last(), key).push('\n') + encrypted(lines.last(), key)
    }
}

/// What is written to a file for given data: the data as they are under a
/// key of at most two bytes, else the marker and the encrypted lines of
/// three characters or more.
pub open spec fn sealed(data: Seq<char>, key: Seq<char>) -> Seq<char> {
    if byte_len(key) <= 2 {
        data
    } else {
        sealed_lines(record_lines(data), key)
    }
}

impl EncryptionKey {
    /// Encrypts a text under a key.
    pub fn encrypt(data: String, key: &str) -> (text: String)
        ensures
            text@ == encrypted(data@, key@),
    {
        let mc = new_cipher(key);
        seal(&mc, data.as_str())
    }

    /// Decrypts a text under a key.
    pub fn decrypt(data: String, key: &str) -> (result: Result<EncryptionKey, String>)
        ensures
            match decrypted(data@, key@) {
                Ok(text) => result matches Ok(made) && made.0@ == text,
                Err(message) => result matches Err(made) && made@ == message,
            },
    {
        let mc = new_cipher(key);
        match open(&mc, data.as_str()) {
            Ok(text) => Ok(EncryptionKey(text)),
            Err(message) => Err(message),
        }
    }
}

/// The content of a file, opened with a key; see `opened`.
pub fn open_content(content: &str, encryption_key: &str) -> (text: String)
    requires
        opened(content@, encryption_key@) is Some,
    ensures
        Some(text@) == opened(content@, encryption_key@),
{
    match read_content(content, encryption_key) {
        Some(text) => text,
        None => String::new(),
    }
}

/// The content of a file, opened with a key, where there is one; see
/// `opened`.
pub fn read_content(content: &str, encryption_key: &str) -> (result: Option<String>)
    ensures
        match opened(content@, encryption_key@) {
            Some(text) => result matches Some(made) && made@ == text,
            None => result is None,
        },
{
    if encryption_key.as_bytes().len() <= 2 {
        return Some(String::from_str(content));
    }
    let broken_content = split_keeping(&chars_of(content), '\n', 3);
    let ghost lines = views(broken_content@);
    assert(lines.len() == broken_content@.len());
    if broken_content.len() == 0 {
        return None;
    }
    assert(lines[0] == broken_content@[0]@);
    let first = string_of(&broken_content[0]);
    if !same_text(first.as_str(), ";|encrypted|;") {
        return Some(String::from_str(content));
    }
    let mut final_content: Vec<char> = Vec::new();
    let ghost mut done: Seq<Seq<char>> = Seq::empty();
    let mut at: usize = 0;
    assert(lines.take(0) =~= Seq::empty());
    while at < broken_content.len()
        invariant
            at <= broken_content.len(),
            lines == views(broken_content@),
            done == opened_lines(lines.take(at as int), encryption_key@),
            final_content@ == joined_lines(done, '\n'),
        decreases broken_content.len() - at,
    {
        assert(lines[at as int] == broken_content@[at as int]@);
        assert(lines.take(at + 1).drop_last() =~= lines.take(at as int));
        assert(lines.take(at + 1).last() == lines[at as int]);
        let bc = string_of(&broken_content[at]);
        if !same_text(bc.as_str(), ";|encrypted|;") {
            if let Ok(d) = EncryptionKey::decrypt(bc, encryption_key) {
                proof {
                    assert(done.push(d.0@).drop_last() =~= done);
                    done = done.push(d.0@);
                }
                push_line(&mut final_content, '\n', d.0.as_str());
            }
        }
        at = at + 1;
    }
    assert(lines.take(lines.len() as int) =~= lines);
    Some(string_of(&final_content))
}

/// What is written to a file for given data; see `sealed`.
pub fn seal_content(data: &str, encryption_key: &str) -> (text: String)
    ensures
        text@ == sealed(data@, encryption_key@),
{
    if encryption_key.as_bytes().len() <= 2 {
        return String::from_str(data);
    }
    let broken_data = split_keeping(&chars_of(data), '\n', 3);
    let ghost lines = views(broken_data@);
    let mut final_data = String::from_str(";|encrypted|;");
    let mut at: usize = 0;
    assert(lines.take(0) =~= Seq::empty());
    proof {
        reveal_strlit("\n");
    }
    assert("\n"@ =~= seq!['\n']);
    while at < broken_data.len()
        invariant
            at <= broken_data.len(),
            lines == views(broken_data@),
            "\n"@ == seq!['\n'],
            final_data@ == sealed_lines(lines.take(at as int), encryption_key@),
        decreases broken_data.len() - at,
    {
        assert(lines[at as int] == broken_data@[at as int]@);
        assert(lines.take(at + 1).drop_last() =~= lines.take(at as int));
        assert(lines.take(at + 1).last() == lines[at as int]);
        let ghost before = final_data@;
        let encrypted_data = EncryptionKey::encrypt(string_of(&broken_data[at]), encryption_key);
        final_data.append("\n");
        final_data.append(encrypted_data.as_str());
        assert(final_data@ =~= before.push('\n') + encrypted_data@);
        at = at + 1;
    }
    assert(lines.take(lines.len() as int) =~= lines);
    final_data
}

/// What the raw text of a key file gives: the key, unless the text still
/// starts with the line that marks it as encrypted.
pub open spec fn key_of_raw(raw: Seq<char>) -> Result<Seq<char>, Seq<char>> {
    if split(raw, '\n')[0] == marker() {
        Err("Error: Decryption failed"@)
    } else {
        Ok(raw)
    }
}

/// Takes the encryption key out of the opened content of its file.
pub fn read_encryption_key(encryption_key_raw: String) -> (result: Result<String, String>)
    ensures
        match key_of_raw(encryption_key_raw@) {
            Ok(key) => result matches Ok(made) && made@ == key,
            Err(message) => result matches Err(made) && made@ == message,
        },
{
    let lines = split_on(&chars_of(encryption_key_raw.as_str()), '\n');
    proof {
        crate::text::lemma_split_nonempty(encryption_key_raw@, '\n');
    }
    assert(views(lines@).len() == lines@.len());
    assert(views(lines@)[0] == lines@[0]@);
    if same_text(string_of(&lines[0]).as_str(), ";|encrypted|;") {
        return Err(String::from_str("Error: Decryption failed"));
    }
    Ok(encryption_key_raw)
}

} // verus!
