//! Random seed phrases.

use vstd::prelude::*;

verus! {

#[verifier::external_type_specification]
#[verifier::external_body]
pub struct ExMnemonic(bip39::Mnemonic);

/// Entropy lengths, in bytes, that a seed phrase can encode: 128 to 256
/// bits in steps of 32.
pub open spec fn is_entropy_len(n: nat) -> bool {
    16 <= n <= 32 && n % 4 == 0
}

/// A seed phrase together with the entropy it encodes and its number of
/// words.
pub struct SeedPhrase {
    mnemonic: bip39::Mnemonic,
    entropy: Vec<u8>,
    words: usize,
}

impl SeedPhrase {
    /// The number of words of the phrase.
    pub closed spec fn word_total(&self) -> nat {
        self.words as nat
    }

    /// The entropy that the phrase encodes.
    pub closed spec fn entropy(&self) -> Seq<u8> {
        self.entropy@
    }

    pub fn entropy_bytes(&self) -> (r: &Vec<u8>)
        ensures
            r@ == self.entropy(),
    {
        &self.entropy
    }

    pub fn word_count(&self) -> (r: usize)
        ensures
            r == self.word_total(),
    {
        self.words
    }

    pub fn mnemonic(&self) -> &bip39::Mnemonic {
        &self.mnemonic
    }

    /// The phrase that encodes `entropy`: three words for every four bytes,
    /// and `None` unless there are 16 to 32 bytes in steps of 4.
    pub fn from_entropy(entropy: &Vec<u8>) -> (r: Option<SeedPhrase>)
        ensures
            r is Some <==> is_entropy_len(entropy@.len()),
            r matches Some(p) ==> p.word_total() == entropy@.len() * 3 / 4 && p.entropy()
                == entropy@,
    {
        phrase_from_entropy(entropy)
    }
}

/// Relies on `bip39::Mnemonic::from_entropy`, which accepts 16 to 32 bytes in
/// steps of 4 and then encodes three words for every four bytes, and on
/// `Mnemonic::word_count`, which counts those words. The phrase keeps a copy
/// of the bytes it encodes.
#[verifier::external_body]
fn phrase_from_entropy(entropy: &Vec<u8>) -> (r: Option<SeedPhrase>)
    ensures
        r is Some <==> is_entropy_len(entropy@.len()),
        r matches Some(p) ==> p.word_total() == entropy@.len() * 3 / 4 && p.entropy() == entropy@,
{
    match bip39::Mnemonic::from_entropy(entropy.as_slice()) {
        Ok(m) => {
            let words = m.word_count();
            Some(SeedPhrase { mnemonic: m, entropy: entropy.clone(), words })
        },
        Err(_) => None,
    }
}

/// Relies on `rand::rng` and `RngCore::fill_bytes`: the buffer is overwritten
/// with random bytes and keeps its length.
#[verifier::external_body]
fn fill_random(buf: &mut Vec<u8>)
    ensures
        final(buf)@.len() == old(buf)@.len(),
{
    rand::RngCore::fill_bytes(&mut rand::rng(), buf.as_mut_slice())
}

/// Bytes of entropy for a phrase of `word_count` words: 16 for 12 words, and
/// 32 (24 words) for any other request.
pub fn entropy_len(word_count: usize) -> (r: usize)
    ensures
        r == (if word_count == 12 {
            16usize
        } else {
            32usize
        }),
{
    match word_count {
        12 => 16,
        24 => 32,
        _ => 32,
    }
}

/// The number of words of a phrase generated for `word_count`.
pub open spec fn generated_words(word_count: usize) -> nat {
    if word_count == 12 {
        12
    } else {
        24
    }
}

/// A fresh seed phrase from random entropy: 12 words when asked for 12, and
/// 24 words otherwise.
pub fn generate_random_mnemonic(word_count: usize) -> (r: SeedPhrase)
    ensures
        r.word_total() == generated_words(word_count),
        r.entropy().len() == (if word_count == 12 {
            16nat
        } else {
            32nat
        }),
{
    let n = entropy_len(word_count);
    let mut entropy: Vec<u8> = Vec::new();
    let mut i: usize = 0;
    while i < n
        invariant
            i <= n,
            n <= 32,
            entropy@.len() == i,
        decreases n - i,
    {
        entropy.push(0u8);
        i = i + 1;
    }
    fill_random(&mut entropy);
    match SeedPhrase::from_entropy(&entropy) {
        Some(p) => p,
        None => vstd::pervasive::unreached(),
    }
}

} // verus!
