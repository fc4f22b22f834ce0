//! The shared search state and one step of a search worker.

use vstd::prelude::*;
use std::sync::atomic::{AtomicBool, AtomicU64, Ordering};
use crate::derive::{derive_batch, indexed_address, is_address_text};
use crate::pattern::{spec_matches, SearchPattern};
use crate::seed::{generate_random_mnemonic, generated_words, SeedPhrase};

verus! {

/// Progress is reported each time the running count of checked addresses,
/// read before a batch is added, is a multiple of this.
pub const REPORT_EVERY: u64 = 1000;

/// Whether a batch that found `count` addresses already checked reports
/// progress.
pub fn is_report_point(count: u64) -> (r: bool)
    ensures
        r == (count % REPORT_EVERY == 0),
{
    count % REPORT_EVERY == 0
}

/// Whether `addr` matches `pattern`.
pub open spec fn pattern_matches(pattern: &SearchPattern, addr: Seq<char>) -> bool {
    spec_matches(addr, pattern.prefix_view(), pattern.suffix_view(), pattern.case_sensitive)
}

/// Position of the first entry of `batch` whose address matches `pattern`.
pub fn first_match(batch: &Vec<(u32, String)>, pattern: &SearchPattern) -> (r: Option<usize>)
    ensures
        match r {
            Some(k) => k < batch.len() && pattern_matches(pattern, batch[k as int].1@) && forall|
                j: int,
            |
                0 <= j < k ==> !pattern_matches(pattern, (#[trigger] batch[j]).1@),
            None => forall|j: int|
                0 <= j < batch.len() ==> !pattern_matches(pattern, (#[trigger] batch[j]).1@),
        },
{
    let mut k: usize = 0;
    while k < batch.len()
        invariant
            k <= batch.len(),
            forall|j: int| 0 <= j < k ==> !pattern_matches(pattern, (#[trigger] batch[j]).1@),
        decreases batch.len() - k,
    {
        if pattern.matches(batch[k].1.as_str()) {
            return Some(k);
        }
        k = k + 1;
    }
    None
}

/// State shared by all workers of one search: whether a match was found,
/// and how many addresses were checked (a relaxed, wrapping count).
pub struct SearchState {
    found: AtomicBool,
    processed: AtomicU64,
}

impl SearchState {
    /// A fresh state: nothing found, nothing checked.
    pub fn new() -> Self {
        SearchState { found: AtomicBool::new(false), processed: AtomicU64::new(0) }
    }

    /// Whether some worker has found a match.
    pub fn is_found(&self) -> bool {
        self.found.load(Ordering::Relaxed)
    }

    /// Records that a match was found. The flag is only ever set, never
    /// cleared.
    pub fn signal_found(&self) {
        self.found.store(true, Ordering::Relaxed)
    }

    /// Adds `n` checked addresses and returns the count before the addition.
    pub fn add_processed(&self, n: u64) -> u64 {
        self.processed.fetch_add(n, Ordering::Relaxed)
    }

    /// The number of addresses checked so far.
    pub fn processed(&self) -> u64 {
        self.processed.load(Ordering::Relaxed)
    }
}

/// A matching address, with the phrase and index it was derived from.
pub struct Hit {
    pub phrase: SeedPhrase,
    pub index: u32,
    pub address: String,
}

/// What one step of a worker came to.
pub enum SearchStep {
    /// Another worker had already found a match; nothing was done.
    Halted,
    /// The candidate gave no address; a new one should be drawn.
    NoAddresses,
    /// A batch was checked. `checked_before` is the shared count before the
    /// batch was added; `hit` is the first match in the batch, if any.
    Checked { checked_before: u64, hit: Option<Hit> },
}

/// Whether index `j` falls in the batch of `limit` addresses derived from
/// `entropy`: below the limit, with no failed derivation up to it.
pub open spec fn in_batch(entropy: Seq<u8>, limit: u32, j: int) -> bool {
    &&& 0 <= j < limit
    &&& forall|m: int| 0 <= m <= j ==> (#[trigger] indexed_address(entropy, m as u32)) is Some
}

/// Whether the address at index `j` of the batch matches `pattern`.
pub open spec fn batch_entry_matches(
    entropy: Seq<u8>,
    j: int,
    pattern: &SearchPattern,
) -> bool {
    pattern_matches(pattern, indexed_address(entropy, j as u32)->0)
}

/// What checking the batch of `scan_limit` addresses of a phrase with
/// entropy `e` comes to.
pub open spec fn checked_outcome(
    r: &SearchStep,
    e: Seq<u8>,
    scan_limit: u32,
    pattern: &SearchPattern,
) -> bool {
    match r {
        SearchStep::Halted => false,
        SearchStep::NoAddresses => !in_batch(e, scan_limit, 0),
        SearchStep::Checked { hit: Some(h), .. } => {
            &&& in_batch(e, scan_limit, 0)
            &&& h.phrase.entropy() == e
            &&& in_batch(e, scan_limit, h.index as int)
            &&& indexed_address(e, h.index) == Some(h.address@)
            &&& is_address_text(h.address@)
            &&& pattern_matches(pattern, h.address@)
            &&& forall|j: int| 0 <= j < h.index ==> !#[trigger] batch_entry_matches(e, j, pattern)
        },
        SearchStep::Checked { hit: None, .. } => {
            &&& in_batch(e, scan_limit, 0)
            &&& forall|j: int| #[trigger]
                in_batch(e, scan_limit, j) ==> !batch_entry_matches(e, j, pattern)
        },
    }
}

/// Checks the batch of `phrase`: derive up to `scan_limit` addresses, add
/// them to the shared count, and look for the first that matches. On a
/// match the shared flag is set before the step returns.
pub fn check_phrase(state: &SearchState, phrase: SeedPhrase, scan_limit: u32, pattern: &SearchPattern) -> (r:
    SearchStep)
    ensures
        checked_outcome(&r, phrase.entropy(), scan_limit, pattern),
        r matches SearchStep::Checked { hit: Some(h), .. } ==> h.phrase == phrase,
{
    let ghost e = phrase.entropy();
    let mut batch = derive_batch(&phrase, scan_limit);
    assert forall|j: int| #[trigger] in_batch(e, scan_limit, j) implies j < batch.len() by {
        if j >= batch.len() {
            assert(indexed_address(e, batch.len() as u32) is None);
        }
    }
    assert forall|j: int| 0 <= j < batch.len() implies #[trigger] in_batch(e, scan_limit, j) by {
        assert forall|m: int| 0 <= m <= j implies (#[trigger] indexed_address(e, m as u32)) is Some by {
            assert(indexed_address(e, m as u32) == Some(batch[m].1@));
        }
    }
    if batch.len() == 0 {
        return SearchStep::NoAddresses;
    }
    let checked_before = state.add_processed(batch.len() as u64);
    match first_match(&batch, pattern) {
        Some(k) => {
            state.signal_found();
            assert forall|j: int| 0 <= j < k implies !#[trigger] batch_entry_matches(e, j, pattern) by {
                assert(indexed_address(e, j as u32) == Some(batch[j].1@));
            }
            let ghost b = batch@;
            let (index, address) = batch.remove(k);
            assert(index == k && address@ == b[k as int].1@);
            SearchStep::Checked { checked_before, hit: Some(Hit { phrase, index, address }) }
        },
        None => {
            assert forall|j: int| #[trigger] in_batch(e, scan_limit, j) implies !batch_entry_matches(e, j, pattern) by {
                assert(indexed_address(e, j as u32) == Some(batch[j].1@));
            }
            SearchStep::Checked { checked_before, hit: None }
        },
    }
}

/// One step of a search worker: unless a match was already found, draw a
/// seed phrase of `word_count` words and check its batch of `scan_limit`
/// addresses (see `check_phrase`).
pub fn search_once(state: &SearchState, word_count: usize, scan_limit: u32, pattern: &SearchPattern) -> (r:
    SearchStep)
    ensures
        r matches SearchStep::Checked { hit: Some(h), .. } ==> {
            &&& checked_outcome(&r, h.phrase.entropy(), scan_limit, pattern)
            &&& h.phrase.word_total() == generated_words(word_count)
        },
{
    if state.is_found() {
        return SearchStep::Halted;
    }
    let phrase = generate_random_mnemonic(word_count);
    check_phrase(state, phrase, scan_limit, pattern)
}

} // verus!
