use phrase_recovery::{
    derive_address, first_orders, is_mainnet_legacy, join_order, language_of_name, parse_language,
    parse_target, progress_due, receive_path, recover, search_permutations, Language, Network,
    PathStep, Search, SearchError, SearchOutcome,
};

const VECTOR_ADDRESS: &str = "1LqBGSKuX5yYUonjxT5qGfpUsXKYYWeabA";
const OTHER_ADDRESS: &str = "1A1zP1eP5QGefi2DMPTfTL5SLmv7DivfNa";

fn words_of(text: &str) -> Vec<String> {
    text.split(' ').map(|w| w.to_string()).collect()
}

fn vector_words() -> Vec<String> {
    words_of("abandon abandon abandon abandon abandon abandon abandon abandon abandon abandon abandon about")
}

fn vector_phrase() -> String {
    vector_words().join(" ")
}

#[test]
fn canonical_vector_is_found_at_index_zero() {
    let outcome = recover(VECTOR_ADDRESS, &vector_words(), 1, "english");
    match outcome {
        Ok(SearchOutcome::Found { phrase, index, address }) => {
            assert_eq!(phrase, vector_phrase());
            assert_eq!(index, 0);
            assert_eq!(address, VECTOR_ADDRESS);
        }
        other => panic!("expected a match, got {:?}", other),
    }
}

#[test]
fn swapped_last_words_are_found_at_index_one() {
    let words = words_of(
        "abandon abandon abandon abandon abandon abandon abandon abandon abandon abandon about abandon",
    );
    let outcome = recover(VECTOR_ADDRESS, &words, 10, "english");
    match outcome {
        Ok(SearchOutcome::Found { phrase, index, address }) => {
            assert_eq!(phrase, vector_phrase());
            assert_eq!(index, 1);
            assert_eq!(address, VECTOR_ADDRESS);
        }
        other => panic!("expected a match, got {:?}", other),
    }
}

#[test]
fn match_beyond_budget_is_exhausted() {
    let words = words_of(
        "abandon abandon abandon abandon abandon abandon abandon abandon abandon abandon about abandon",
    );
    let outcome = recover(VECTOR_ADDRESS, &words, 1, "english");
    assert!(matches!(outcome, Ok(SearchOutcome::Exhausted { examined: 1 })));
}

#[test]
fn zero_budget_examines_nothing() {
    let outcome = recover(VECTOR_ADDRESS, &vector_words(), 0, "english");
    assert!(matches!(outcome, Ok(SearchOutcome::Exhausted { examined: 0 })));
}

#[test]
fn other_target_is_exhausted_after_budget() {
    let outcome = recover(OTHER_ADDRESS, &vector_words(), 40, "english");
    assert!(matches!(outcome, Ok(SearchOutcome::Exhausted { examined: 40 })));
}

#[test]
fn words_outside_wordlist_exhaust_exact_budget() {
    let words = words_of("qq1 qq2 qq3 qq4 qq5 qq6 qq7 qq8 qq9 qq10 qq11 qq12");
    let outcome = recover(VECTOR_ADDRESS, &words, 2500, "english");
    assert!(matches!(outcome, Ok(SearchOutcome::Exhausted { examined: 2500 })));
}

#[test]
fn words_of_another_language_do_not_match() {
    let outcome = recover(VECTOR_ADDRESS, &vector_words(), 3, "spanish");
    assert!(matches!(outcome, Ok(SearchOutcome::Exhausted { examined: 3 })));
}

#[test]
fn language_name_case_is_ignored_by_recover() {
    let outcome = recover(VECTOR_ADDRESS, &vector_words(), 1, "English");
    assert!(matches!(outcome, Ok(SearchOutcome::Found { index: 0, .. })));
}

#[test]
fn wrong_word_count_is_refused() {
    let mut words = vector_words();
    words.pop();
    assert_eq!(
        recover(VECTOR_ADDRESS, &words, 10, "english").err(),
        Some(SearchError::WordCount { got: 11 })
    );
    words.push("about".to_string());
    words.push("about".to_string());
    assert_eq!(
        recover(VECTOR_ADDRESS, &words, 10, "english").err(),
        Some(SearchError::WordCount { got: 13 })
    );
    assert_eq!(
        recover(VECTOR_ADDRESS, &Vec::new(), 10, "english").err(),
        Some(SearchError::WordCount { got: 0 })
    );
}

#[test]
fn word_count_is_checked_before_address_and_language() {
    let words = words_of("abandon about");
    assert_eq!(
        recover("not an address", &words, 10, "klingon").err(),
        Some(SearchError::WordCount { got: 2 })
    );
}

#[test]
fn malformed_target_is_refused() {
    let words = vector_words();
    assert_eq!(
        recover("1LqBGSKuX5yYUonjxT5qGfpUsXKYYWeabB", &words, 10, "english").err(),
        Some(SearchError::InvalidAddress)
    );
    assert_eq!(recover("", &words, 10, "english").err(), Some(SearchError::InvalidAddress));
    assert_eq!(
        recover("bc1qar0srrr7xfkvy5l643lydnw9re59gtzzwf5mdq", &words, 10, "english").err(),
        Some(SearchError::InvalidAddress)
    );
}

#[test]
fn address_is_checked_before_language() {
    assert_eq!(
        recover("0OIl", &vector_words(), 10, "klingon").err(),
        Some(SearchError::InvalidAddress)
    );
}

#[test]
fn testnet_and_script_targets_are_refused() {
    let words = vector_words();
    assert_eq!(
        recover("mipcBbFg9gMiCh81Kj8tqqdgoZub1ZJRfn", &words, 10, "english").err(),
        Some(SearchError::UnsupportedAddress)
    );
    assert_eq!(
        recover("3J98t1WpEZ73CNmQviecrnyiWrnqRhWNLy", &words, 10, "english").err(),
        Some(SearchError::UnsupportedAddress)
    );
}

#[test]
fn unknown_language_is_refused() {
    assert_eq!(
        recover(VECTOR_ADDRESS, &vector_words(), 10, "klingon").err(),
        Some(SearchError::UnknownLanguage)
    );
}

#[test]
fn parse_target_keeps_the_text() {
    let target = parse_target(VECTOR_ADDRESS).unwrap();
    assert_eq!(target.as_str(), VECTOR_ADDRESS);
    assert!(target.matches(&VECTOR_ADDRESS.to_string()));
    assert!(!target.matches(&OTHER_ADDRESS.to_string()));
    assert_eq!(parse_target("xyz").err(), Some(SearchError::InvalidAddress));
}

#[test]
fn legacy_payload_is_version_zero_and_twenty_bytes() {
    let mut payload = vec![0u8; 21];
    assert!(is_mainnet_legacy(&payload));
    payload[0] = 5;
    assert!(!is_mainnet_legacy(&payload));
    payload[0] = 111;
    assert!(!is_mainnet_legacy(&payload));
    assert!(!is_mainnet_legacy(&vec![0u8; 20]));
    assert!(!is_mainnet_legacy(&vec![0u8; 22]));
    assert!(!is_mainnet_legacy(&Vec::new()));
}

#[test]
fn language_names() {
    assert_eq!(parse_language("english"), Ok(Language::English));
    assert_eq!(parse_language("portuguese"), Ok(Language::Portuguese));
    assert_eq!(parse_language("spanish"), Ok(Language::Spanish));
    assert_eq!(parse_language("french"), Ok(Language::French));
    assert_eq!(parse_language("italian"), Ok(Language::Italian));
    assert_eq!(parse_language("czech"), Ok(Language::Czech));
    assert_eq!(parse_language("korean"), Ok(Language::Korean));
    assert_eq!(parse_language("japanese"), Ok(Language::Japanese));
    assert_eq!(parse_language("chinese-simplified"), Ok(Language::SimplifiedChinese));
    assert_eq!(parse_language("chinese-traditional"), Ok(Language::TraditionalChinese));
}

#[test]
fn language_names_in_any_case() {
    assert_eq!(parse_language("ENGLISH"), Ok(Language::English));
    assert_eq!(parse_language("Chinese-Traditional"), Ok(Language::TraditionalChinese));
    assert_eq!(parse_language("german"), Err(SearchError::UnknownLanguage));
    assert_eq!(parse_language(""), Err(SearchError::UnknownLanguage));
    assert_eq!(parse_language("english "), Err(SearchError::UnknownLanguage));
}

#[test]
fn exact_language_names_only() {
    assert_eq!(language_of_name("french"), Some(Language::French));
    assert_eq!(language_of_name("French"), None);
    assert_eq!(language_of_name("chinese"), None);
}

#[test]
fn fixed_path() {
    assert_eq!(
        receive_path(),
        vec![
            PathStep::Hardened(44),
            PathStep::Hardened(0),
            PathStep::Hardened(0),
            PathStep::Normal(0),
            PathStep::Normal(0),
        ]
    );
}

#[test]
fn vector_phrase_derives_known_address() {
    assert_eq!(
        derive_address(Network::Mainnet, Language::English, &vector_phrase()),
        Ok(Some(VECTOR_ADDRESS.to_string()))
    );
}

#[test]
fn derivation_is_repeatable() {
    let phrase = "legal winner thank year wave sausage worth useful legal winner thank yellow";
    let first = derive_address(Network::Mainnet, Language::English, phrase);
    let second = derive_address(Network::Mainnet, Language::English, phrase);
    assert!(matches!(first, Ok(Some(_))));
    assert_eq!(first, second);
    assert_ne!(first, Ok(Some(VECTOR_ADDRESS.to_string())));
}

#[test]
fn bad_checksum_is_passed_over() {
    let phrase = "abandon abandon abandon abandon abandon abandon abandon abandon abandon abandon abandon abandon";
    assert_eq!(derive_address(Network::Mainnet, Language::English, phrase), Ok(None));
    assert_eq!(derive_address(Network::Mainnet, Language::English, "abandon about"), Ok(None));
    assert_eq!(derive_address(Network::Mainnet, Language::English, ""), Ok(None));
    assert_eq!(derive_address(Network::Mainnet, Language::French, &vector_phrase()), Ok(None));
}

#[test]
fn join_puts_single_spaces_between_words() {
    let words = words_of("a b c");
    assert_eq!(join_order(&words, &vec![2, 0, 1]), "c a b");
    assert_eq!(join_order(&words, &vec![1]), "b");
    assert_eq!(join_order(&words, &Vec::new()), "");
    assert_eq!(join_order(&words, &vec![0, 0]), "a a");
}

#[test]
fn orders_come_lexicographically() {
    assert_eq!(
        first_orders(3, 100),
        vec![
            vec![0, 1, 2],
            vec![0, 2, 1],
            vec![1, 0, 2],
            vec![1, 2, 0],
            vec![2, 0, 1],
            vec![2, 1, 0],
        ]
    );
}

#[test]
fn orders_stop_at_budget() {
    assert_eq!(first_orders(3, 2), vec![vec![0, 1, 2], vec![0, 2, 1]]);
    assert_eq!(first_orders(3, 6).len(), 6);
    assert_eq!(first_orders(3, 0).len(), 0);
    assert_eq!(first_orders(12, 1000).len(), 1000);
    assert_eq!(first_orders(12, 1)[0], (0..12).collect::<Vec<usize>>());
}

#[test]
fn small_position_counts_give_factorial_many_orders() {
    assert_eq!(first_orders(0, 10), vec![Vec::<usize>::new()]);
    assert_eq!(first_orders(1, 10), vec![vec![0]]);
    assert_eq!(first_orders(4, 1000).len(), 24);
    assert_eq!(first_orders(5, 1000).len(), 120);
    assert_eq!(first_orders(7, 10000).len(), 5040);
}

#[test]
fn orders_are_distinct_and_repeatable() {
    let first = first_orders(5, 1000);
    let second = first_orders(5, 1000);
    assert_eq!(first, second);
    for i in 0..first.len() {
        for j in (i + 1)..first.len() {
            assert!(first[i] < first[j]);
        }
    }
}

#[test]
fn search_over_few_words_visits_every_order() {
    let target = parse_target(VECTOR_ADDRESS).unwrap();
    let words = words_of("abandon about ability");
    let outcome = search_permutations(&words, &target, 100, Language::English);
    assert!(matches!(outcome, Ok(SearchOutcome::Exhausted { examined: 6 })));
    let outcome = search_permutations(&words, &target, 4, Language::English);
    assert!(matches!(outcome, Ok(SearchOutcome::Exhausted { examined: 4 })));
}

#[test]
fn progress_every_thousand() {
    assert!(!progress_due(0));
    assert!(!progress_due(1));
    assert!(!progress_due(999));
    assert!(progress_due(1000));
    assert!(!progress_due(1001));
    assert!(progress_due(2000));
    assert!(progress_due(1_000_000));
}

#[test]
fn other_networks_give_other_addresses() {
    let mainnet = derive_address(Network::Mainnet, Language::English, &vector_phrase());
    let testnet = derive_address(Network::Testnet, Language::English, &vector_phrase());
    assert!(matches!(testnet, Ok(Some(_))));
    assert_ne!(mainnet, testnet);
    assert_eq!(
        testnet,
        derive_address(Network::Regtest, Language::English, &vector_phrase())
    );
}

#[test]
fn steps_count_the_candidates() {
    let target = parse_target(VECTOR_ADDRESS).unwrap();
    let words = words_of("abandon about ability");
    let mut search = Search::new(3, 4);
    assert_eq!(search.examined(), 0);
    for done in 0..4 {
        assert_eq!(search.examined(), done);
        assert_eq!(search.step(&words, &target, Language::English), Ok(None));
    }
    assert_eq!(search.examined(), 4);
    assert_eq!(
        search.step(&words, &target, Language::English),
        Ok(Some(SearchOutcome::Exhausted { examined: 4 }))
    );
    assert_eq!(
        search.step(&words, &target, Language::English),
        Ok(Some(SearchOutcome::Exhausted { examined: 4 }))
    );
    assert_eq!(search.examined(), 4);
}

#[test]
fn steps_end_when_no_order_is_left() {
    let target = parse_target(VECTOR_ADDRESS).unwrap();
    let words = words_of("abandon about");
    let mut search = Search::new(2, 1000);
    assert_eq!(search.step(&words, &target, Language::English), Ok(None));
    assert_eq!(search.step(&words, &target, Language::English), Ok(None));
    assert_eq!(
        search.step(&words, &target, Language::English),
        Ok(Some(SearchOutcome::Exhausted { examined: 2 }))
    );
}

#[test]
fn step_reports_the_match() {
    let target = parse_target(VECTOR_ADDRESS).unwrap();
    let mut search = Search::new(12, 1000);
    assert_eq!(
        search.step(&vector_words(), &target, Language::English),
        Ok(Some(SearchOutcome::Found {
            phrase: vector_phrase(),
            index: 0,
            address: VECTOR_ADDRESS.to_string(),
        }))
    );
    assert_eq!(search.examined(), 1);
}
