use lumio_executor::features::{
    flag_list, generate_features_blob, is_listed, proposal_body, proposal_header, FeatureFlag,
    Features, LumioFeatureFlag, LumioFeatures, FEATURE_FLAG_COUNT,
};
use lumio_executor::file_store::{
    contains, get_path, is_initialized, is_missing_object, MAX_UPDATE_FREQUENCY_MILLIS, TAG,
};
use lumio_executor::storage_error::{LumioDbError, StateViewError};
use lumio_executor::text::{decimal, digit, lower_hex};
use std::collections::HashSet;

fn set(flags: &[FeatureFlag]) -> HashSet<FeatureFlag> {
    flags.iter().copied().collect()
}

#[test]
fn empty_features_are_empty() {
    let features = Features::empty();
    assert!(features.enabled.is_empty());
    assert!(features.disabled.is_empty());
    assert!(features.is_empty());
    assert!(!Features { enabled: vec![FeatureFlag::ModuleEvent], disabled: vec![] }.is_empty());
    assert!(!Features { enabled: vec![], disabled: vec![FeatureFlag::ModuleEvent] }.is_empty());
}

#[test]
fn squash_lays_the_later_features_over_the_earlier() {
    let mut features = Features {
        enabled: vec![FeatureFlag::ModuleEvent, FeatureFlag::KeylessAccounts, FeatureFlag::ModuleEvent],
        disabled: vec![FeatureFlag::JwkConsensus, FeatureFlag::Bn254Structures],
    };
    features.squash(Features {
        enabled: vec![FeatureFlag::JwkConsensus, FeatureFlag::ResourceGroups],
        disabled: vec![FeatureFlag::KeylessAccounts, FeatureFlag::WebAuthnSignature],
    });
    assert_eq!(
        set(&features.enabled),
        set(&[FeatureFlag::ModuleEvent, FeatureFlag::JwkConsensus, FeatureFlag::ResourceGroups])
    );
    assert_eq!(
        set(&features.disabled),
        set(&[FeatureFlag::Bn254Structures, FeatureFlag::KeylessAccounts, FeatureFlag::WebAuthnSignature])
    );
    assert_eq!(features.enabled.len(), 3);
    assert_eq!(features.disabled.len(), 3);
}

#[test]
fn a_flag_that_is_switched_on_and_off_at_once_ends_up_switched_off() {
    let mut features = Features::empty();
    features.squash(Features {
        enabled: vec![FeatureFlag::ModuleEvent],
        disabled: vec![FeatureFlag::ModuleEvent],
    });
    assert!(features.enabled.is_empty());
    assert_eq!(features.disabled, vec![FeatureFlag::ModuleEvent]);
}

#[test]
fn squashing_nothing_removes_repetitions_only() {
    let mut features = Features {
        enabled: vec![FeatureFlag::ModuleEvent, FeatureFlag::ModuleEvent],
        disabled: vec![FeatureFlag::JwkConsensus],
    };
    features.squash(Features::empty());
    assert_eq!(features.enabled, vec![FeatureFlag::ModuleEvent]);
    assert_eq!(features.disabled, vec![FeatureFlag::JwkConsensus]);
}

#[test]
fn features_differ_from_the_chain_where_a_flag_stands_otherwise() {
    let chain = LumioFeatures {
        enabled: vec![LumioFeatureFlag::MODULE_EVENT, LumioFeatureFlag::JWK_CONSENSUS],
    };
    assert!(chain.is_enabled(LumioFeatureFlag::MODULE_EVENT));
    assert!(!chain.is_enabled(LumioFeatureFlag::RESOURCE_GROUPS));
    assert!(!Features::empty().has_modified(&chain));
    assert!(!Features {
        enabled: vec![FeatureFlag::ModuleEvent],
        disabled: vec![FeatureFlag::ResourceGroups]
    }
    .has_modified(&chain));
    assert!(Features { enabled: vec![FeatureFlag::ResourceGroups], disabled: vec![] }.has_modified(&chain));
    assert!(Features { enabled: vec![], disabled: vec![FeatureFlag::JwkConsensus] }.has_modified(&chain));
    assert!(Features {
        enabled: vec![FeatureFlag::ModuleEvent],
        disabled: vec![FeatureFlag::ResourceGroups, FeatureFlag::ModuleEvent]
    }
    .has_modified(&chain));
}

#[test]
fn the_features_of_the_chain_list_every_flag_once() {
    let chain = LumioFeatures {
        enabled: vec![LumioFeatureFlag::ENABLE_CAPTURE_OPTION, LumioFeatureFlag::CODE_DEPENDENCY_CHECK],
    };
    let features = Features::from_on_chain(&chain);
    assert_eq!(features.enabled, vec![FeatureFlag::CodeDependencyCheck, FeatureFlag::EnableCaptureOption]);
    assert_eq!(features.disabled.len(), FEATURE_FLAG_COUNT - 2);
    assert!(!features.has_modified(&chain));
    let all = FeatureFlag::all();
    assert_eq!(all.len(), FEATURE_FLAG_COUNT);
    assert_eq!(set(&all).len(), FEATURE_FLAG_COUNT);
    assert_eq!(all[0], FeatureFlag::CodeDependencyCheck);
    assert_eq!(all[1], FeatureFlag::CollectAndDistributeGasFees);
    assert_eq!(all[FEATURE_FLAG_COUNT - 1], FeatureFlag::EnableCaptureOption);
    for (i, flag) in all.iter().enumerate() {
        assert_eq!(FeatureFlag::at(i), *flag);
    }
    assert!(is_listed(&all, FeatureFlag::VMBinaryFormatV8));
    assert!(!is_listed(&features.enabled, FeatureFlag::VMBinaryFormatV8));
}

#[test]
fn a_blob_has_twenty_numbers_a_line() {
    assert_eq!(generate_features_blob(&[]), vec!["vector[", "", "]"]);
    assert_eq!(generate_features_blob(&[7]), vec!["vector[", "    7,", "]"]);
    assert_eq!(generate_features_blob(&[1, 20, 300]), vec!["vector[", "    1, 20, 300,", "]"]);
    let numbers: Vec<u64> = (0..45).collect();
    let lines = generate_features_blob(&numbers);
    assert_eq!(
        lines,
        vec![
            "vector[",
            "    0, 1, 2, 3, 4, 5, 6, 7, 8, 9, 10, 11, 12, 13, 14, 15, 16, 17, 18, 19,",
            "    20, 21, 22, 23, 24, 25, 26, 27, 28, 29, 30, 31, 32, 33, 34, 35, 36, 37, 38, 39,",
            "    40, 41, 42, 43, 44,",
            "]",
        ]
    );
    let exact: Vec<u64> = (0..20).collect();
    assert_eq!(generate_features_blob(&exact).len(), 3);
    let one_more: Vec<u64> = (0..21).collect();
    assert_eq!(generate_features_blob(&one_more).len(), 4);
    assert_eq!(generate_features_blob(&[u64::MAX]), vec!["vector[", "    18446744073709551615,", "]"]);
}

#[test]
fn the_flags_of_a_release_and_of_the_chain_correspond_one_to_one() {
    assert_eq!(LumioFeatureFlag::from(FeatureFlag::CodeDependencyCheck), LumioFeatureFlag::CODE_DEPENDENCY_CHECK);
    assert_eq!(
        LumioFeatureFlag::from(FeatureFlag::CollectAndDistributeGasFees),
        LumioFeatureFlag::_DEPRECATED_COLLECT_AND_DISTRIBUTE_GAS_FEES
    );
    assert_eq!(
        LumioFeatureFlag::from(FeatureFlag::PeriodicalRewardRateReduction),
        LumioFeatureFlag::PERIODICAL_REWARD_RATE_DECREASE
    );
    assert_eq!(
        LumioFeatureFlag::from(FeatureFlag::PrimaryAPTFungibleStoreAtUserAddress),
        LumioFeatureFlag::PRIMARY_LUM_FUNGIBLE_STORE_AT_USER_ADDRESS
    );
    assert_eq!(
        LumioFeatureFlag::from(FeatureFlag::RemoveDetailedError),
        LumioFeatureFlag::_DEPRECATED_REMOVE_DETAILED_ERROR_FROM_HASH
    );
    assert_eq!(FeatureFlag::from(LumioFeatureFlag::VM_BINARY_FORMAT_V8), FeatureFlag::VMBinaryFormatV8);
    assert_eq!(FeatureFlag::from(LumioFeatureFlag::_LIMIT_VM_TYPE_SIZE), FeatureFlag::LimitVMTypeSize);
    let mut on_chain = HashSet::new();
    for flag in FeatureFlag::all() {
        let there = LumioFeatureFlag::from(flag);
        assert_eq!(FeatureFlag::from(there), flag);
        assert!(on_chain.insert(there));
    }
    assert_eq!(on_chain.len(), FEATURE_FLAG_COUNT);
}

#[test]
fn a_flag_is_named_as_it_is_written() {
    for flag in FeatureFlag::all() {
        assert_eq!(flag.name(), format!("{:?}", flag));
    }
    assert_eq!(flag_list(&vec![]), "[]");
    assert_eq!(flag_list(&vec![FeatureFlag::ModuleEvent]), "[ModuleEvent]");
    let some = vec![FeatureFlag::ModuleEvent, FeatureFlag::VMBinaryFormatV7, FeatureFlag::JwkConsensus];
    assert_eq!(flag_list(&some), format!("{:?}", some));
}

#[test]
fn a_proposal_says_what_it_changes() {
    let features = Features {
        enabled: vec![FeatureFlag::ModuleEvent, FeatureFlag::JwkConsensus],
        disabled: vec![],
    };
    assert_eq!(
        proposal_header(&features),
        vec![
            "// Modifying on-chain feature flags: ",
            "// Enabled Features: [ModuleEvent, JwkConsensus]",
            "// Disabled Features: []",
            "//",
        ]
    );
    assert_eq!(
        proposal_body(&[26, 49], &[], "&framework_signer"),
        vec![
            "let enabled_blob: vector<u64> = vector[",
            "    26, 49,",
            "];",
            "",
            "let disabled_blob: vector<u64> = vector[",
            "",
            "];",
            "",
            "features::change_feature_flags_for_next_epoch(&framework_signer, enabled_blob, disabled_blob);",
            "lumio_governance::reconfigure(&framework_signer);",
        ]
    );
    let many: Vec<u64> = (1..=41).collect();
    let body = proposal_body(&many, &[7], "framework_signer");
    assert_eq!(body.len(), 12);
    assert_eq!(body[0], "let enabled_blob: vector<u64> = vector[");
    assert_eq!(body[3], "    41,");
    assert_eq!(body[4], "];");
    assert_eq!(body[5], "");
    assert_eq!(body[7], "    7,");
    assert_eq!(body[11], "lumio_governance::reconfigure(framework_signer);");
}

#[test]
fn numbers_are_written_without_leading_zeros() {
    for n in [0u64, 1, 9, 10, 11, 99, 100, 255, 256, 4095, 4096, 65535, 1 << 32, u64::MAX] {
        assert_eq!(decimal(n), format!("{}", n));
        assert_eq!(lower_hex(n), format!("{:x}", n));
    }
    assert_eq!(digit(0), "0");
    assert_eq!(digit(9), "9");
    assert_eq!(digit(10), "a");
    assert_eq!(digit(15), "f");
}

#[test]
fn storage_errors_are_shown_as_text() {
    assert_eq!(LumioDbError::NotFound("Block 7".to_string()).to_text(), "Block 7 not found.");
    assert_eq!(
        LumioDbError::TooManyRequested(1001, 1000).to_text(),
        "Too many items requested: at least 1001 requested, max is 1000"
    );
    assert_eq!(
        LumioDbError::MissingRootError(42).to_text(),
        "Missing state root node at version 42, probably pruned."
    );
    assert_eq!(LumioDbError::Other("x".to_string()).to_text(), "LumioDB Other Error: x");
    assert_eq!(LumioDbError::RocksDbIncompleteResult("x".to_string()).to_text(), "LumioDB RocksDb Error: x");
    assert_eq!(LumioDbError::OtherRocksDbError("x".to_string()).to_text(), "LumioDB RocksDB Error: x");
    assert_eq!(LumioDbError::BcsError("x".to_string()).to_text(), "LumioDB bcs Error: x");
    assert_eq!(LumioDbError::IoError("x".to_string()).to_text(), "LumioDB IO Error: x");
    assert_eq!(LumioDbError::RecvError("x".to_string()).to_text(), "LumioDB Recv Error: x");
    assert_eq!(LumioDbError::ParseIntError("".to_string()).to_text(), "LumioDB ParseInt Error: ");
}

#[test]
fn errors_of_other_layers_become_storage_errors() {
    match LumioDbError::from_anyhow(anyhow::Error::msg("disk on fire")) {
        LumioDbError::Other(message) => assert_eq!(message, "disk on fire"),
        other => panic!("unexpected error {:?}", other),
    }
    match LumioDbError::from_bcs(bcs::from_bytes::<u8>(&[]).unwrap_err()) {
        LumioDbError::BcsError(message) => assert_eq!(message, "unexpected end of input"),
        other => panic!("unexpected error {:?}", other),
    }
    match LumioDbError::from_bcs(bcs::Error::Custom("made up".to_string())) {
        LumioDbError::BcsError(message) => assert_eq!(message, "made up"),
        other => panic!("unexpected error {:?}", other),
    }
    let (sender, receiver) = std::sync::mpsc::channel::<u8>();
    drop(sender);
    match LumioDbError::from_recv(receiver.recv().unwrap_err()) {
        LumioDbError::RecvError(message) => assert_eq!(message, "receiving on a closed channel"),
        other => panic!("unexpected error {:?}", other),
    }
    match LumioDbError::from_io(std::io::Error::new(std::io::ErrorKind::Other, "no space")) {
        LumioDbError::IoError(message) => assert_eq!(message, "no space"),
        other => panic!("unexpected error {:?}", other),
    }
    match LumioDbError::from_parse_int("x1".parse::<u32>().unwrap_err()) {
        LumioDbError::Other(message) => assert_eq!(message, "invalid digit found in string"),
        other => panic!("unexpected error {:?}", other),
    }
}

#[test]
fn storage_errors_and_state_view_errors_turn_into_each_other() {
    assert!(matches!(
        StateViewError::from_db_error(LumioDbError::NotFound("k".to_string())),
        StateViewError::NotFound(m) if m == "k"
    ));
    assert!(matches!(
        StateViewError::from_db_error(LumioDbError::Other("o".to_string())),
        StateViewError::Other(m) if m == "o"
    ));
    assert!(matches!(
        StateViewError::from_db_error(LumioDbError::TooManyRequested(2, 1)),
        StateViewError::Other(m) if m == "Too many items requested: at least 2 requested, max is 1"
    ));
    assert!(matches!(
        StateViewError::from_db_error(LumioDbError::IoError("gone".to_string())),
        StateViewError::Other(m) if m == "LumioDB IO Error: gone"
    ));
    assert!(matches!(
        StateViewError::NotFound("k".to_string()).into_db_error(),
        LumioDbError::NotFound(m) if m == "k"
    ));
    assert!(matches!(
        StateViewError::Other("o".to_string()).into_db_error(),
        LumioDbError::Other(m) if m == "o"
    ));
    assert!(matches!(
        StateViewError::BcsError(bcs::Error::RemainingInput).into_db_error(),
        LumioDbError::BcsError(m) if m == "remaining input"
    ));
}

#[test]
fn an_error_that_names_a_missing_object_means_that_there_is_no_file() {
    assert!(is_missing_object("ServiceError { source: NoSuchKey(NoSuchKey { .. }) }"));
    assert!(is_missing_object("NotFound"));
    assert!(is_missing_object("xxNotFoundxx"));
    assert!(is_missing_object("NoSuchKe NoSuchKey"));
    assert!(!is_missing_object(""));
    assert!(!is_missing_object("AccessDenied"));
    assert!(!is_missing_object("notfound"));
    assert!(!is_missing_object("NoSuchKe"));
    assert!(!is_missing_object("Not Found"));
    assert!(contains(b"abc", b""));
    assert!(contains(b"", b""));
    assert!(contains(b"abc", b"c"));
    assert!(!contains(b"abc", b"abcd"));
    assert!(!contains(b"", b"a"));
}

#[test]
fn the_key_of_a_file_lies_below_the_directory_of_the_store() {
    assert_eq!(get_path(None, "files/7.json"), "files/7.json");
    assert_eq!(get_path(Some("mainnet"), "files/7.json"), "mainnet/files/7.json");
    assert_eq!(get_path(Some("mainnet/"), "7.json"), "mainnet/7.json");
    assert_eq!(get_path(Some("mainnet"), "/rooted.json"), "/rooted.json");
    assert!(is_initialized(1, 0));
    assert!(is_initialized(0, 3));
    assert!(!is_initialized(0, 0));
    assert_eq!(TAG, "S3");
    assert_eq!(MAX_UPDATE_FREQUENCY_MILLIS, 100);
}

#[test]
fn the_headers_are_named() {
    assert_eq!(lumio_executor::headers::X_LUMIO_CHAIN_ID, "X-Lumio-Chain-Id");
    assert_eq!(lumio_executor::headers::X_LUMIO_LEDGER_TIMESTAMP, "X-Lumio-Ledger-TimestampUsec");
    assert_eq!(lumio_executor::headers::X_LUMIO_CLIENT, "x-lumio-client");
    assert_eq!(lumio_executor::ledger::path::DERIVATION_PATH, "m/44'/637'/{index}'/0'/0'");
}
