//! The Blowfish cipher state and the expensive key schedule that bcrypt
//! drives it through.
//!
//! The cipher itself is the `blowfish` crate's. Its tables are out of the
//! verifier's sight, so every call into it goes through a small function
//! whose contract is taken on trust; the schedule's loop and the digest are
//! proved against those contracts.

use crate::tables::initial_tables;
use blowfish::Blowfish;
use vstd::prelude::*;

verus! {

/// A Blowfish state: 18 subkey words and four boxes of 256 words each.
///
/// A state is made fresh for one digest, changed in place by the key
/// schedule, and dropped when the digest is out.
#[verifier::external_body]
pub struct CipherState {
    inner: Blowfish,
}

/// The words that a state holds: the subkeys first, then the boxes.
pub uninterp spec fn cipher_tables(state: CipherState) -> Seq<u32>;

/// The tables after the plain key expansion of `tables` with `key`.
pub uninterp spec fn key_expansion(tables: Seq<u32>, key: Seq<u8>) -> Seq<u32>;

/// The tables after the salted key expansion of `tables` with `salt` and
/// `key`.
pub uninterp spec fn salted_key_expansion(tables: Seq<u32>, salt: Seq<u8>, key: Seq<u8>) -> Seq<
    u32,
>;

/// The block that one encryption under `tables` makes of the halves `l` and
/// `r`.
pub uninterp spec fn encrypted_block(tables: Seq<u32>, l: u32, r: u32) -> (u32, u32);

/// `Blowfish::bc_init_state`: a state that holds the fixed starting tables,
/// which are the crate's constants `P` and `S`.
#[verifier::external_body]
pub(crate) fn bc_init_state() -> (state: CipherState)
    ensures
        cipher_tables(state) == initial_tables(),
{
    CipherState { inner: Blowfish::bc_init_state() }
}

/// `Blowfish::salted_expand_key`: replaces the tables by their salted key
/// expansion. The crate reads both slices cyclically and indexes out of
/// bounds on an empty one, hence the two bounds.
#[verifier::external_body]
pub(crate) fn salted_expand_key(state: &mut CipherState, salt: &[u8], key: &[u8])
    requires
        salt@.len() > 0,
        key@.len() > 0,
    ensures
        cipher_tables(*final(state)) == salted_key_expansion(
            cipher_tables(*old(state)),
            salt@,
            key@,
        ),
{
    state.inner.salted_expand_key(salt, key)
}

/// `Blowfish::bc_expand_key`: replaces the tables by their key expansion.
/// The crate reads the key cyclically and indexes out of bounds on an empty
/// one.
#[verifier::external_body]
pub(crate) fn bc_expand_key(state: &mut CipherState, key: &[u8])
    requires
        key@.len() > 0,
    ensures
        cipher_tables(*final(state)) == key_expansion(cipher_tables(*old(state)), key@),
{
    state.inner.bc_expand_key(key)
}

/// `Blowfish::bc_encrypt`: one block encryption under the tables that the
/// state holds; the state is left as it was.
#[verifier::external_body]
pub(crate) fn bc_encrypt(state: &CipherState, l: u32, r: u32) -> (block: (u32, u32))
    ensures
        block == encrypted_block(cipher_tables(*state), l, r),
{
    state.inner.bc_encrypt(l, r)
}

/// Two to the power `e`.
pub open spec fn pow2(e: nat) -> nat
    decreases e,
{
    if e == 0 {
        1
    } else {
        2 * pow2((e - 1) as nat)
    }
}

/// The tables after `rounds` rounds of re-keying: each round expands with
/// the key and then with the salt, neither time salted.
pub open spec fn rekeyed(tables: Seq<u32>, salt: Seq<u8>, key: Seq<u8>, rounds: nat) -> Seq<u32>
    decreases rounds,
{
    if rounds == 0 {
        tables
    } else {
        key_expansion(key_expansion(rekeyed(tables, salt, key, (rounds - 1) as nat), key), salt)
    }
}

/// The tables that the whole schedule leaves: the starting tables, one
/// salted expansion, then `2^cost` rounds of re-keying.
pub open spec fn scheduled_tables(cost: nat, salt: Seq<u8>, key: Seq<u8>) -> Seq<u32> {
    rekeyed(
        salted_key_expansion(initial_tables(), salt, key),
        salt,
        key,
        pow2(cost),
    )
}

/// `1 << cost` is `2^cost` and fits 32 bits for every cost below 32.
pub proof fn lemma_shift_is_pow2(cost: u32)
    requires
        cost < 32,
    ensures
        (1u32 << cost) == pow2(cost as nat),
        pow2(cost as nat) <= 0x8000_0000,
    decreases cost,
{
    assert(cost < 32 ==> (1u32 << cost) <= 0x8000_0000u32) by (bit_vector);
    if cost == 0 {
        assert(1u32 << 0u32 == 1u32) by (bit_vector);
    } else {
        let prev: u32 = (cost - 1) as u32;
        lemma_shift_is_pow2(prev);
        assert(0 < cost < 32 && prev == cost - 1 ==> (1u32 << cost) == 2 * (1u32 << prev))
            by (bit_vector);
    }
}

/// Runs the key schedule: a fresh state, one salted expansion, then
/// `2^cost` rounds of expanding with the key and with the salt.
pub fn setup(cost: u32, salt: &[u8], key: &[u8]) -> (state: CipherState)
    requires
        cost < 32,
        salt@.len() > 0,
        key@.len() > 0,
    ensures
        cipher_tables(state) == scheduled_tables(cost as nat, salt@, key@),
{
    let mut state = bc_init_state();
    salted_expand_key(&mut state, salt, key);
    proof {
        lemma_shift_is_pow2(cost);
    }
    let rounds: u32 = 1u32 << cost;
    let ghost start = cipher_tables(state);
    let mut done: u32 = 0;
    while done < rounds
        invariant
            done <= rounds,
            salt@.len() > 0,
            key@.len() > 0,
            cipher_tables(state) == rekeyed(start, salt@, key@, done as nat),
        decreases rounds - done,
    {
        bc_expand_key(&mut state, key);
        bc_expand_key(&mut state, salt);
        done = done + 1;
    }
    state
}

/// The block after `times` encryptions under `tables`, each fed the block
/// before it.
pub open spec fn encrypted_times(tables: Seq<u32>, block: (u32, u32), times: nat) -> (u32, u32)
    decreases times,
{
    if times == 0 {
        block
    } else {
        let before = encrypted_times(tables, block, (times - 1) as nat);
        encrypted_block(tables, before.0, before.1)
    }
}

/// The byte of `word` that starts `shift` bits above its lowest bit.
pub open spec fn byte_of(word: u32, shift: u32) -> u8 {
    ((word >> shift) & 0xff) as u8
}

/// The four bytes of a word, most significant first.
pub open spec fn be_bytes(word: u32) -> Seq<u8> {
    seq![byte_of(word, 24), byte_of(word, 16), byte_of(word, 8), byte_of(word, 0)]
}

/// The text "OrpheanBeholderScryDoubt" as three blocks of two words.
pub open spec fn magic_block(index: int) -> (u32, u32) {
    if index == 0 {
        (0x4f727068u32, 0x65616e42u32)
    } else if index == 1 {
        (0x65686f6cu32, 0x64657253u32)
    } else {
        (0x63727944u32, 0x6f756274u32)
    }
}

/// The eight bytes of a block, left half first.
pub open spec fn block_bytes(block: (u32, u32)) -> Seq<u8> {
    be_bytes(block.0) + be_bytes(block.1)
}

/// The 24-byte raw digest: each block of the magic text encrypted 64 times
/// under the scheduled tables, written out big-endian.
pub open spec fn raw_digest(cost: nat, salt: Seq<u8>, password: Seq<u8>) -> Seq<u8> {
    let tables = scheduled_tables(cost, salt, password);
    block_bytes(encrypted_times(tables, magic_block(0), 64)) + block_bytes(
        encrypted_times(tables, magic_block(1), 64),
    ) + block_bytes(encrypted_times(tables, magic_block(2), 64))
}

/// Encrypts a block 64 times over.
fn encrypt_64(state: &CipherState, l: u32, r: u32) -> (block: (u32, u32))
    ensures
        block == encrypted_times(cipher_tables(*state), (l, r), 64),
{
    let mut block: (u32, u32) = (l, r);
    let mut done: u32 = 0;
    while done < 64
        invariant
            done <= 64,
            block == encrypted_times(cipher_tables(*state), (l, r), done as nat),
        decreases 64 - done,
    {
        block = bc_encrypt(state, block.0, block.1);
        done = done + 1;
    }
    block
}

/// Takes one byte out of a word.
fn byte_at(word: u32, shift: u32) -> (byte: u8)
    requires
        shift < 32,
    ensures
        byte == byte_of(word, shift),
{
    let low: u32 = (word >> shift) & 0xff;
    assert(low < 256) by (bit_vector)
        requires
            low == (word >> shift) & 0xff,
    ;
    low as u8
}

/// Writes the bytes of `word`, most significant first, at `at..at + 4`.
fn put_word(output: &mut [u8], at: usize, word: u32)
    requires
        at + 4 <= old(output)@.len(),
    ensures
        final(output)@.len() == old(output)@.len(),
        final(output)@.subrange(at as int, at + 4) == be_bytes(word),
        forall|i: int|
            0 <= i < old(output)@.len() && !(at <= i < at + 4) ==> final(output)@[i] == old(
                output,
            )@[i],
{
    let len = output.len();
    output[at] = byte_at(word, 24);
    output[at + 1] = byte_at(word, 16);
    output[at + 2] = byte_at(word, 8);
    output[at + 3] = byte_at(word, 0);
    assert(output@.subrange(at as int, at + 4) =~= be_bytes(word));
}

/// The bcrypt digest of `password` under `cost` and `salt`, written into
/// the 24 bytes of `output`.
///
/// The password is taken as given: the caller has already ended it with a
/// zero byte and cut it to 72 bytes. The digest depends on nothing but the
/// three inputs.
pub fn bcrypt(cost: u32, salt: &[u8], password: &[u8], output: &mut [u8])
    requires
        cost < 32,
        salt@.len() == 16,
        1 <= password@.len() <= 72,
        old(output)@.len() == 24,
    ensures
        final(output)@ == raw_digest(cost as nat, salt@, password@),
{
    let state = setup(cost, salt, password);
    let first = encrypt_64(&state, 0x4f727068, 0x65616e42);
    let second = encrypt_64(&state, 0x65686f6c, 0x64657253);
    let third = encrypt_64(&state, 0x63727944, 0x6f756274);
    put_word(output, 0, first.0);
    put_word(output, 4, first.1);
    put_word(output, 8, second.0);
    put_word(output, 12, second.1);
    put_word(output, 16, third.0);
    put_word(output, 20, third.1);
    assert(output@ =~= raw_digest(cost as nat, salt@, password@)) by {
        let d = raw_digest(cost as nat, salt@, password@);
        assert(output@.subrange(0, 4) == be_bytes(first.0));
        assert(output@.subrange(4, 8) == be_bytes(first.1));
        assert(output@.subrange(8, 12) == be_bytes(second.0));
        assert(output@.subrange(12, 16) == be_bytes(second.1));
        assert(output@.subrange(16, 20) == be_bytes(third.0));
        assert(output@.subrange(20, 24) == be_bytes(third.1));
        assert forall|i: int| 0 <= i < 24 implies output@[i] == d[i] by {
            if i < 4 {
                assert(output@[i] == output@.subrange(0, 4)[i]);
            } else if i < 8 {
                assert(output@[i] == output@.subrange(4, 8)[i - 4]);
            } else if i < 12 {
                assert(output@[i] == output@.subrange(8, 12)[i - 8]);
            } else if i < 16 {
                assert(output@[i] == output@.subrange(12, 16)[i - 12]);
            } else if i < 20 {
                assert(output@[i] == output@.subrange(16, 20)[i - 16]);
            } else {
                assert(output@[i] == output@.subrange(20, 24)[i - 20]);
            }
        }
    }
}

} // verus!
