use kas_vanity::derive::normal_child_number;
use kas_vanity::pattern::searchable_tail;
use kas_vanity::search::REPORT_EVERY;
use kas_vanity::seed::entropy_len;
use kas_vanity::SeedPhrase;
use kas_vanity::{
    check_phrase, derive_batch, first_match, generate_random_mnemonic, is_report_point, search_once,
    validate_pattern, PatternError, SearchPattern, SearchState, SearchStep,
};

fn pattern(prefix: Option<&str>, suffix: Option<&str>, case_sensitive: bool) -> SearchPattern {
    SearchPattern::new(prefix.map(String::from), suffix.map(String::from), case_sensitive).unwrap()
}

#[test]
fn test_mnemonic_generation() {
    let mnemonic = generate_random_mnemonic(12);
    assert_eq!(mnemonic.word_count(), 12);

    let mnemonic = generate_random_mnemonic(24);
    assert_eq!(mnemonic.word_count(), 24);
}

#[test]
fn test_derive_batch() {
    let mnemonic = generate_random_mnemonic(12);
    let results = derive_batch(&mnemonic, 10);

    assert_eq!(results.len(), 10);
    for (i, (index, address)) in results.iter().enumerate() {
        assert_eq!(*index, i as u32);
        assert!(address.to_string().starts_with("kaspa:"));
    }
}

#[test]
fn other_word_counts_give_24_words() {
    assert_eq!(generate_random_mnemonic(18).word_count(), 24);
    assert_eq!(generate_random_mnemonic(0).word_count(), 24);
    assert_eq!(entropy_len(12), 16);
    assert_eq!(entropy_len(24), 32);
    assert_eq!(entropy_len(15), 32);
}

#[test]
fn phrase_text_has_its_word_count() {
    let m = generate_random_mnemonic(12);
    assert_eq!(m.mnemonic().to_string().split(' ').count(), 12);
}

#[test]
fn derive_batch_is_deterministic_per_phrase() {
    let m = generate_random_mnemonic(24);
    let a = derive_batch(&m, 3);
    let b = derive_batch(&m, 3);
    assert_eq!(a, b);
    assert_eq!(a.len(), 3);
    assert_ne!(a[0].1, a[1].1);
    // the x-only key is 32 bytes: "kaspa:" and 61 payload characters
    assert_eq!(a[0].1.len(), 6 + 61);
}

#[test]
fn derive_batch_limit_one_and_zero() {
    let m = generate_random_mnemonic(12);
    let one = derive_batch(&m, 1);
    assert_eq!(one.len(), 1);
    assert_eq!(one[0].0, 0);
    assert!(derive_batch(&m, 0).is_empty());
}

#[test]
fn hardened_indices_have_no_normal_child() {
    assert_eq!(normal_child_number(0), Some(0));
    assert_eq!(normal_child_number(0x7fff_ffff), Some(0x7fff_ffff));
    assert_eq!(normal_child_number(0x8000_0000), None);
}

#[test]
fn tail_skips_tag_and_two_header_characters() {
    assert_eq!(searchable_tail("kaspa:qpabcdef"), "abcdef");
    assert_eq!(searchable_tail("kaspa:qp"), "");
    assert_eq!(searchable_tail("kaspa:qpx"), "x");
    assert_eq!(searchable_tail("no colon here"), "");
    assert_eq!(searchable_tail("a:qqxyz:more"), "xyz");
}

#[test]
fn validate_pattern_names_first_excluded_char() {
    assert_eq!(validate_pattern("test"), Ok(()));
    assert_eq!(validate_pattern("2025"), Ok(()));
    assert_eq!(validate_pattern(""), Ok(()));
    assert_eq!(validate_pattern("abc"), Err('b'));
    assert_eq!(validate_pattern("x1o"), Err('1'));
    assert_eq!(validate_pattern("pi"), Err('i'));
    assert_eq!(validate_pattern("zoo"), Err('o'));
}

#[test]
fn pattern_needs_a_part() {
    assert_eq!(SearchPattern::new(None, None, false).err(), Some(PatternError::Missing));
    assert_eq!(SearchPattern::new(None, None, true).err(), Some(PatternError::Missing));
}

#[test]
fn pattern_rejects_excluded_chars_in_either_part() {
    for c in ["1", "b", "i", "o"] {
        let p = SearchPattern::new(Some(format!("q{c}")), None, true);
        assert_eq!(p.err(), Some(PatternError::InvalidPrefixChar(c.chars().next().unwrap())));
        let s = SearchPattern::new(Some("q".to_string()), Some(format!("{c}q")), true);
        assert_eq!(s.err(), Some(PatternError::InvalidSuffixChar(c.chars().next().unwrap())));
    }
    // the prefix is checked first
    let both = SearchPattern::new(Some("b".to_string()), Some("i".to_string()), true);
    assert_eq!(both.err(), Some(PatternError::InvalidPrefixChar('b')));
}

#[test]
fn pattern_is_checked_after_lowering() {
    // 'B' lowers to the excluded 'b' when the case does not matter
    let p = SearchPattern::new(Some("B".to_string()), None, false);
    assert_eq!(p.err(), Some(PatternError::InvalidPrefixChar('b')));
    // and is kept as it is when it does
    let q = SearchPattern::new(Some("B".to_string()), None, true).unwrap();
    assert_eq!(q.prefix.as_deref(), Some("B"));
}

#[test]
fn pattern_is_lowered_once() {
    let p = pattern(Some("AC"), Some("XyZ"), false);
    assert_eq!(p.prefix.as_deref(), Some("ac"));
    assert_eq!(p.suffix.as_deref(), Some("xyz"));
    assert_eq!(p.fixed_len(), 5);
    assert_eq!(pattern(None, Some("2025"), true).fixed_len(), 4);
}

#[test]
fn matches_prefix_and_suffix() {
    let addr = "kaspa:qpacdef9xz";
    assert!(pattern(Some("ac"), None, true).matches(addr));
    assert!(pattern(None, Some("9xz"), true).matches(addr));
    assert!(pattern(Some("ac"), Some("xz"), true).matches(addr));
    assert!(!pattern(Some("qp"), None, true).matches(addr));
    assert!(!pattern(Some("ac"), Some("xy"), true).matches(addr));
    assert!(!pattern(Some("acdef9xzz"), None, true).matches(addr));
}

#[test]
fn short_payload_matches_nothing() {
    assert!(!pattern(Some("q"), None, true).matches("kaspa:qp"));
    assert!(!pattern(None, Some("p"), true).matches("kaspa:qp"));
    assert!(!pattern(Some("a"), None, true).matches("kaspa"));
}

#[test]
fn matches_is_deterministic() {
    let p = pattern(Some("ac"), None, false);
    let addr = "kaspa:qpacxyz";
    let first = p.matches(addr);
    for _ in 0..5 {
        assert_eq!(p.matches(addr), first);
    }
    assert!(first);
}

#[test]
fn case_insensitive_equivalence() {
    let upper = pattern(Some("AC"), None, false);
    let lower = pattern(Some("ac"), None, false);
    for addr in ["kaspa:QPACxyz", "kaspa:qpacxyz", "kaspa:qpAcXYZ", "kaspa:qpxyac"] {
        let lowered = addr.to_lowercase();
        assert_eq!(upper.matches(addr), lower.matches(&lowered));
    }
    assert!(upper.matches("kaspa:qpACxyz"));
    assert!(!upper.matches("kaspa:qpxyAC"));
}

#[test]
fn case_sensitive_differs_in_case_only() {
    let p = pattern(Some("AC"), Some("XZ"), true);
    assert!(!p.matches("kaspa:qpac99xz"));
    assert!(!p.matches("kaspa:qpAC99xz"));
    assert!(!p.matches("kaspa:qpac99XZ"));
    assert!(p.matches("kaspa:qpAC99XZ"));
}

#[test]
fn scan_reports_first_match_in_batch() {
    let m = generate_random_mnemonic(12);
    let batch = derive_batch(&m, 5);
    assert_eq!(batch.len(), 5);
    let p = pattern(Some("ac"), None, false);
    let expected = batch.iter().position(|(_, a)| a[8..].to_lowercase().starts_with("ac"));
    let got = first_match(&batch, &p);
    assert_eq!(got, expected);
    if let Some(k) = got {
        assert!(batch[k].0 < 5);
        assert_eq!(batch[k].0 as usize, k);
    }
}

#[test]
fn first_match_picks_earliest() {
    let batch = vec![
        (0u32, "kaspa:qpzzzz".to_string()),
        (1u32, "kaspa:qpaczz".to_string()),
        (2u32, "kaspa:qpacqq".to_string()),
    ];
    assert_eq!(first_match(&batch, &pattern(Some("ac"), None, true)), Some(1));
    assert_eq!(first_match(&batch, &pattern(Some("ac"), Some("qq"), true)), Some(2));
    assert_eq!(first_match(&batch, &pattern(Some("x"), None, true)), None);
    assert_eq!(first_match(&Vec::new(), &pattern(Some("x"), None, true)), None);
}

#[test]
fn report_points_are_multiples_of_the_period() {
    assert_eq!(REPORT_EVERY, 1000);
    assert!(is_report_point(0));
    assert!(is_report_point(1000));
    assert!(is_report_point(5000));
    assert!(!is_report_point(999));
    assert!(!is_report_point(1001));
}

#[test]
fn search_state_counts_and_latches() {
    let s = SearchState::new();
    assert!(!s.is_found());
    assert_eq!(s.add_processed(5), 0);
    assert_eq!(s.add_processed(3), 5);
    assert_eq!(s.processed(), 8);
    s.signal_found();
    assert!(s.is_found());
    s.signal_found();
    assert!(s.is_found());
}

#[test]
fn search_stops_once_found() {
    let s = SearchState::new();
    s.signal_found();
    let p = pattern(Some("q"), None, false);
    assert!(matches!(search_once(&s, 12, 5, &p), SearchStep::Halted));
    assert_eq!(s.processed(), 0);
}

#[test]
fn search_step_counts_and_finds() {
    let s = SearchState::new();
    // one tail character out of 32: a batch of five matches about one time in seven
    let p = pattern(Some("q"), None, false);
    let mut steps = 0;
    loop {
        steps += 1;
        assert!(steps < 2000);
        match search_once(&s, 12, 5, &p) {
            SearchStep::Checked { checked_before, hit: Some(h) } => {
                assert_eq!(checked_before % 5, 0);
                assert!(h.index < 5);
                assert_eq!(h.phrase.word_count(), 12);
                assert!(h.address.starts_with("kaspa:q"));
                assert!(p.matches(&h.address));
                assert!(s.is_found());
                break;
            }
            SearchStep::Checked { hit: None, .. } => assert!(!s.is_found()),
            SearchStep::NoAddresses => {}
            SearchStep::Halted => panic!("no match was signalled"),
        }
    }
}

#[test]
fn phrase_from_known_entropy() {
    let zero = SeedPhrase::from_entropy(&vec![0u8; 16]).unwrap();
    assert_eq!(zero.word_count(), 12);
    assert_eq!(
        zero.mnemonic().to_string(),
        "abandon abandon abandon abandon abandon abandon abandon abandon abandon abandon abandon about"
    );
    assert_eq!(SeedPhrase::from_entropy(&vec![0u8; 32]).unwrap().word_count(), 24);
    assert_eq!(SeedPhrase::from_entropy(&vec![7u8; 20]).unwrap().word_count(), 15);
    assert!(SeedPhrase::from_entropy(&vec![0u8; 15]).is_none());
    assert!(SeedPhrase::from_entropy(&vec![0u8; 12]).is_none());
    assert!(SeedPhrase::from_entropy(&vec![0u8; 36]).is_none());
}

#[test]
fn known_phrase_derives_same_batch_each_time() {
    let phrase = SeedPhrase::from_entropy(&vec![0u8; 16]).unwrap();
    let a = derive_batch(&phrase, 4);
    let b = derive_batch(&phrase, 2);
    assert_eq!(a.len(), 4);
    assert_eq!(&a[..2], &b[..]);
    for (i, (index, address)) in a.iter().enumerate() {
        assert_eq!(*index as usize, i);
        assert!(address.starts_with("kaspa:q"));
    }
}

#[test]
fn scan_with_prefix_ab_reports_first_match_in_range() {
    let m = generate_random_mnemonic(12);
    let batch = derive_batch(&m, 5);
    assert_eq!(batch.len(), 5);
    // built directly: the checked constructor refuses the excluded 'b'
    let p = SearchPattern { prefix: Some("ab".to_string()), suffix: None, case_sensitive: false };
    let expected = batch.iter().position(|(_, a)| a[8..].to_lowercase().starts_with("ab"));
    let got = first_match(&batch, &p);
    assert_eq!(got, expected);
    if let Some(k) = got {
        assert!(batch[k].0 < 5);
    }
    assert!(SearchPattern::new(Some("ab".to_string()), None, false).is_err());
}

#[test]
fn phrase_keeps_its_entropy() {
    let bytes: Vec<u8> = (0u8..16).collect();
    let p = SeedPhrase::from_entropy(&bytes).unwrap();
    assert_eq!(p.entropy_bytes(), &bytes);
    assert_eq!(p.mnemonic().to_entropy(), bytes);
    assert_eq!(generate_random_mnemonic(12).entropy_bytes().len(), 16);
    assert_eq!(generate_random_mnemonic(24).entropy_bytes().len(), 32);
    assert_eq!(generate_random_mnemonic(7).entropy_bytes().len(), 32);
}

#[test]
fn check_phrase_reports_first_match_of_its_batch() {
    let bytes = vec![0u8; 16];
    let batch = derive_batch(&SeedPhrase::from_entropy(&bytes).unwrap(), 6);
    assert_eq!(batch.len(), 6);
    // a suffix equal to the whole tail of entry 3 matches entry 3 at least
    let tail3 = batch[3].1[8..].to_string();
    let p = pattern(None, Some(&tail3), true);
    let expected = batch.iter().position(|(_, a)| p.matches(a)).unwrap();
    assert!(expected <= 3);
    let s = SearchState::new();
    match check_phrase(&s, SeedPhrase::from_entropy(&bytes).unwrap(), 6, &p) {
        SearchStep::Checked { checked_before, hit: Some(h) } => {
            assert_eq!(checked_before, 0);
            assert_eq!(h.index as usize, expected);
            assert_eq!(h.address, batch[expected].1);
            assert_eq!(h.phrase.entropy_bytes(), &bytes);
        }
        _ => panic!("expected a hit"),
    }
    assert!(s.is_found());
    assert_eq!(s.processed(), 6);
}

#[test]
fn check_phrase_without_match_or_addresses() {
    let bytes = vec![1u8; 32];
    let s = SearchState::new();
    let p = pattern(Some("zzzzzzzzzzzz"), None, true);
    match check_phrase(&s, SeedPhrase::from_entropy(&bytes).unwrap(), 3, &p) {
        SearchStep::Checked { checked_before: 0, hit: None } => {}
        _ => panic!("expected a checked batch without a hit"),
    }
    assert!(!s.is_found());
    assert_eq!(s.processed(), 3);
    match check_phrase(&s, SeedPhrase::from_entropy(&bytes).unwrap(), 0, &p) {
        SearchStep::NoAddresses => {}
        _ => panic!("an empty batch gives no addresses"),
    }
    assert_eq!(s.processed(), 3);
}

#[test]
fn addresses_hold_no_uppercase() {
    let batch = derive_batch(&generate_random_mnemonic(12), 3);
    for (_, a) in &batch {
        assert_eq!(a, &a.to_lowercase());
        let upper = a[8..11].to_uppercase();
        if upper != a[8..11] {
            assert!(!pattern(Some(&upper), None, true).matches(a));
        }
        assert!(pattern(Some(&upper), None, false).matches(a));
    }
}
