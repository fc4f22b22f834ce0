//! Batched derivation of addresses from one seed phrase.

use vstd::prelude::*;
use crate::pattern::{ascii_lowered, is_ascii_text};
use crate::seed::SeedPhrase;

verus! {

/// The 64-byte seed of the phrase that encodes `entropy`, with an empty
/// passphrase.
pub uninterp spec fn seed_of(entropy: Seq<u8>) -> Seq<u8>;

/// The master extended private key of a seed, in its `xprv` text form.
pub uninterp spec fn master_of(seed: Seq<u8>) -> Option<Seq<char>>;

/// The child `child` of an extended private key given in `xprv` text form,
/// in the same form.
pub uninterp spec fn child_of(key: Seq<char>, child: u32) -> Option<Seq<char>>;

/// The SEC1 compressed public key of an extended private key given in
/// `xprv` text form.
pub uninterp spec fn pubkey_of(key: Seq<char>) -> Option<Seq<u8>>;

/// The child numbers that `bip32::DerivationPath` reads from a path text.
pub uninterp spec fn path_children(path: Seq<char>) -> Option<Seq<u32>>;

/// The mainnet pay-to-public-key address text of a 32-byte x-only key.
pub uninterp spec fn mainnet_address(key: Seq<u8>) -> Seq<char>;

pub open spec fn text_view(s: Option<String>) -> Option<Seq<char>> {
    match s {
        Some(t) => Some(t@),
        None => None,
    }
}

pub open spec fn bytes_view(v: Option<Vec<u8>>) -> Option<Seq<u8>> {
    match v {
        Some(b) => Some(b@),
        None => None,
    }
}

/// The key reached from `key` through the first `n` children of `path`.
pub open spec fn derive_path(key: Seq<char>, path: Seq<u32>, n: nat) -> Option<Seq<char>>
    decreases n,
{
    if n == 0 {
        Some(key)
    } else {
        match derive_path(key, path, (n - 1) as nat) {
            Some(k) => child_of(k, path[n - 1]),
            None => None,
        }
    }
}

/// The account/chain key of the phrase that encodes `entropy`: the master
/// key of its seed, taken down `ACCOUNT_PATH`.
pub open spec fn account_key(entropy: Seq<u8>) -> Option<Seq<char>> {
    match master_of(seed_of(entropy)) {
        Some(m) => match path_children(ACCOUNT_PATH@) {
            Some(path) => derive_path(m, path, path.len()),
            None => None,
        },
        None => None,
    }
}

/// The address of the non-hardened child `index` of an account key.
pub open spec fn address_under(account: Seq<char>, index: u32) -> Option<Seq<char>> {
    if index >= 0x8000_0000 {
        None
    } else {
        match child_of(account, index) {
            Some(c) => match pubkey_of(c) {
                Some(pk) => Some(mainnet_address(pk.subrange(1, 33))),
                None => None,
            },
            None => None,
        }
    }
}

/// The address at `index` under the account key of the phrase that encodes
/// `entropy`, or `None` where a derivation step fails.
pub open spec fn indexed_address(entropy: Seq<u8>, index: u32) -> Option<Seq<char>> {
    match account_key(entropy) {
        Some(a) => address_under(a, index),
        None => None,
    }
}

/// Whether `s` begins with the mainnet tag `kaspa:`.
pub open spec fn has_network_tag(s: Seq<char>) -> bool {
    s.len() >= 6 && s.subrange(0, 6) == seq!['k', 'a', 's', 'p', 'a', ':']
}

/// Whether `s` has the shape of a mainnet address text: the `kaspa:` tag,
/// then ASCII characters none of which is an uppercase letter.
pub open spec fn is_address_text(s: Seq<char>) -> bool {
    &&& has_network_tag(s)
    &&& is_ascii_text(s)
    &&& ascii_lowered(s) == s
}

/// The fixed account/chain path under which each candidate index is derived.
pub const ACCOUNT_PATH: &'static str = "m/44'/111111'/0'/0";

/// Relies on `Mnemonic::to_seed` with an empty passphrase; the phrase
/// encodes its entropy, so the seed depends on that alone.
#[verifier::external_body]
fn seed_bytes(phrase: &SeedPhrase) -> (r: [u8; 64])
    ensures
        r@ == seed_of(phrase.entropy()),
{
    phrase.mnemonic().to_seed("")
}

/// Relies on `XPrv::new`: the master extended private key of a seed, in its
/// `xprv` text form (`ExtendedPrivateKey::to_string`).
#[verifier::external_body]
fn master_key(seed: &[u8; 64]) -> (r: Option<String>)
    ensures
        text_view(r) == master_of(seed@),
{
    match bip32::XPrv::new(seed) {
        Ok(k) => Some((*k.to_string(bip32::Prefix::XPRV)).clone()),
        Err(_) => None,
    }
}

/// Relies on `DerivationPath::from_str`, read as its child numbers.
#[verifier::external_body]
fn parse_path(path: &str) -> (r: Option<Vec<u32>>)
    ensures
        match r {
            Some(v) => path_children(path@) == Some(v@),
            None => path_children(path@) is None,
        },
{
    match <bip32::DerivationPath as std::str::FromStr>::from_str(path) {
        Ok(p) => Some(p.iter().map(|c| c.0).collect()),
        Err(_) => None,
    }
}

/// Relies on `XPrv::from_str` and `XPrv::derive_child`: the child key in
/// `xprv` text form, `None` where the text does not parse or the derivation
/// fails.
#[verifier::external_body]
fn derive_child_key(parent: &str, child: u32) -> (r: Option<String>)
    ensures
        text_view(r) == child_of(parent@, child),
{
    match <bip32::XPrv as std::str::FromStr>::from_str(parent) {
        Ok(k) => match k.derive_child(bip32::ChildNumber(child)) {
            Ok(c) => Some((*c.to_string(bip32::Prefix::XPRV)).clone()),
            Err(_) => None,
        },
        Err(_) => None,
    }
}

/// Relies on `XPrv::from_str`, `XPrv::public_key` and
/// `VerifyingKey::to_encoded_point(true)`: the SEC1 compressed public key, a
/// tag byte and 32 bytes of x coordinate.
#[verifier::external_body]
fn compressed_public_key(key: &str) -> (r: Option<Vec<u8>>)
    ensures
        bytes_view(r) == pubkey_of(key@),
        r matches Some(v) ==> v@.len() == 33,
{
    match <bip32::XPrv as std::str::FromStr>::from_str(key) {
        Ok(k) => Some(k.public_key().public_key().to_encoded_point(true).as_bytes().to_vec()),
        Err(_) => None,
    }
}

/// Relies on `kaspa_addresses::Address::new` (mainnet, `Version::PubKey`,
/// which asserts a 32-byte payload) and its `String` form `kaspa:<payload>`,
/// whose payload is drawn from the lowercase bech32 alphabet.
#[verifier::external_body]
fn address_text(x_only: &Vec<u8>) -> (r: String)
    requires
        x_only@.len() == 32,
    ensures
        r@ == mainnet_address(x_only@),
        is_address_text(r@),
{
    let a = kaspa_addresses::Address::new(
        kaspa_addresses::Prefix::Mainnet,
        kaspa_addresses::Version::PubKey,
        x_only.as_slice(),
    );
    String::from(a)
}

/// The child number of a non-hardened index: indices from 2^31 up have none.
pub fn normal_child_number(index: u32) -> (r: Option<u32>)
    ensures
        r == (if index < 0x8000_0000 {
            Some(index)
        } else {
            None::<u32>
        }),
{
    if index < 0x8000_0000 {
        Some(index)
    } else {
        None
    }
}

/// The bytes of `v` from position `from` on.
fn bytes_from(v: &Vec<u8>, from: usize) -> (r: Vec<u8>)
    requires
        from <= v.len(),
    ensures
        r@ == v@.subrange(from as int, v@.len() as int),
{
    let mut out: Vec<u8> = Vec::new();
    let mut i = from;
    while i < v.len()
        invariant
            from <= i <= v.len(),
            out@ == v@.subrange(from as int, i as int),
        decreases v.len() - i,
    {
        out.push(v[i]);
        i = i + 1;
    }
    out
}

/// The address of the non-hardened child `index` of `account`, or `None`
/// where a derivation step fails.
fn child_address(account: &String, index: u32) -> (r: Option<String>)
    ensures
        text_view(r) == address_under(account@, index),
        r matches Some(a) ==> is_address_text(a@),
{
    let child = normal_child_number(index)?;
    let key = derive_child_key(account.as_str(), child)?;
    let compressed = compressed_public_key(key.as_str())?;
    let x_only = bytes_from(&compressed, 1);
    let a = address_text(&x_only);
    Some(a)
}

/// Once a step along a path fails, every longer walk fails too.
proof fn lemma_derive_path_fails(key: Seq<char>, path: Seq<u32>, j: nat, n: nat)
    requires
        j <= n,
        derive_path(key, path, j) is None,
    ensures
        derive_path(key, path, n) is None,
    decreases n,
{
    if n > j {
        lemma_derive_path_fails(key, path, j, (n - 1) as nat);
    }
}

/// Derives up to `limit` addresses of a seed phrase. The account key on
/// `ACCOUNT_PATH` is derived once, then one child per index `0, 1, ...`.
/// A failed step ends the batch with what was derived so far: entry `i` is
/// the address at index `i`, and a short batch stops at the first index
/// whose derivation fails.
pub fn derive_batch(phrase: &SeedPhrase, limit: u32) -> (r: Vec<(u32, String)>)
    ensures
        r.len() <= limit,
        forall|i: int| 0 <= i < r.len() ==> (#[trigger] r[i]).0 == i,
        forall|i: int|
            0 <= i < r.len() ==> indexed_address(phrase.entropy(), i as u32) == Some(
                (#[trigger] r[i]).1@,
            ),
        forall|i: int| 0 <= i < r.len() ==> is_address_text((#[trigger] r[i]).1@),
        r.len() < limit ==> indexed_address(phrase.entropy(), r.len() as u32) is None,
{
    let ghost e = phrase.entropy();
    let mut results: Vec<(u32, String)> = Vec::new();
    let seed = seed_bytes(phrase);
    let master = match master_key(&seed) {
        Some(k) => k,
        None => return results,
    };
    let path = match parse_path(ACCOUNT_PATH) {
        Some(p) => p,
        None => return results,
    };
    let mut account = master.clone();
    let mut j: usize = 0;
    while j < path.len()
        invariant
            j <= path.len(),
            e == phrase.entropy(),
            results.len() == 0,
            master_of(seed_of(e)) == Some(master@),
            path_children(ACCOUNT_PATH@) == Some(path@),
            derive_path(master@, path@, j as nat) == Some(account@),
        decreases path.len() - j,
    {
        account = match derive_child_key(account.as_str(), path[j]) {
            Some(k) => k,
            None => {
                proof {
                    assert(derive_path(master@, path@, (j + 1) as nat) is None);
                    lemma_derive_path_fails(master@, path@, (j + 1) as nat, path@.len());
                }
                return results;
            },
        };
        j = j + 1;
    }
    assert(account_key(e) == Some(account@));
    let mut index: u32 = 0;
    while index < limit
        invariant
            index <= limit,
            e == phrase.entropy(),
            account_key(e) == Some(account@),
            results.len() == index,
            forall|i: int| 0 <= i < results.len() ==> (#[trigger] results[i]).0 == i,
            forall|i: int|
                0 <= i < results.len() ==> indexed_address(e, i as u32) == Some(
                    (#[trigger] results[i]).1@,
                ),
            forall|i: int| 0 <= i < results.len() ==> is_address_text((#[trigger] results[i]).1@),
        decreases limit - index,
    {
        match child_address(&account, index) {
            Some(a) => results.push((index, a)),
            None => {
                return results;
            },
        }
        index = index + 1;
    }
    results
}

} // verus!
