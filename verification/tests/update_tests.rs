use sshm::update::{
    cached_result, cached_update_version, check_latest_version, force_check_for_update,
    get_platform_asset_name, is_newer, note_from, parse_version, should_check_update, CacheData,
    UpdateInfo, UpdateResult, CACHE_DURATION_SECS, CURRENT_VERSION,
};

#[test]
fn test_should_check_update_no_cache() {
    let result = should_check_update(false, &None, 0);
    assert!(result);
}

#[test]
fn test_cache_data_struct() {
    let cache = CacheData {
        last_check: 1234567890,
        new_version: Some("0.2.0".to_string()),
    };
    assert_eq!(cache.last_check, 1234567890);
    assert_eq!(cache.new_version, Some("0.2.0".to_string()));
}

#[test]
fn test_update_result_variants() {
    let no_update = UpdateResult::NoUpdate;
    let update_available = UpdateResult::UpdateAvailable {
        version: "0.2.0".to_string(),
    };
    let error = UpdateResult::Error("test error".to_string());

    match no_update {
        UpdateResult::NoUpdate => {}
        _ => panic!("Wrong variant"),
    }

    match update_available {
        UpdateResult::UpdateAvailable { version } => {
            assert_eq!(version, "0.2.0");
        }
        _ => panic!("Wrong variant"),
    }

    match error {
        UpdateResult::Error(msg) => {
            assert_eq!(msg, "test error");
        }
        _ => panic!("Wrong variant"),
    }
}

#[test]
fn test_update_info_struct() {
    let info = UpdateInfo {
        current_version: "0.1.0".to_string(),
        new_version: "0.2.0".to_string(),
    };

    assert_eq!(info.current_version, "0.1.0");
    assert_eq!(info.new_version, "0.2.0");
}

#[test]
fn test_cache_duration_constant() {
    assert_eq!(CACHE_DURATION_SECS, 24 * 60 * 60);
}

#[test]
fn test_cache_data_debug() {
    let cache = CacheData {
        last_check: 123,
        new_version: None,
    };
    let debug_str = format!("{:?}", cache);
    assert!(debug_str.contains("last_check"));
}

#[test]
fn test_update_check_constants() {
    // Verify cache duration is 24 hours in seconds
    assert_eq!(CACHE_DURATION_SECS, 86400);
    assert_eq!(CACHE_DURATION_SECS, 24 * 60 * 60);
}

#[test]
fn test_update_result_debug() {
    let no_update = UpdateResult::NoUpdate;
    let debug_str = format!("{:?}", no_update);
    assert!(debug_str.contains("NoUpdate"));
}

#[test]
fn test_update_info_debug() {
    let info = UpdateInfo {
        current_version: "0.1.0".to_string(),
        new_version: "0.2.0".to_string(),
    };
    let debug_str = format!("{:?}", info);
    assert!(debug_str.contains("0.1.0"));
    assert!(debug_str.contains("0.2.0"));
}

#[test]
fn test_update_result_error_variant() {
    let error = UpdateResult::Error("test error".to_string());
    match error {
        UpdateResult::Error(msg) => assert_eq!(msg, "test error"),
        _ => panic!("Wrong variant"),
    }
}

#[test]
fn test_update_result_clone() {
    let update = UpdateResult::UpdateAvailable {
        version: "0.2.0".to_string(),
    };
    let cloned = update.clone();
    match cloned {
        UpdateResult::UpdateAvailable { version } => {
            assert_eq!(version, "0.2.0");
        }
        _ => panic!("Wrong variant"),
    }
}

#[test]
fn test_update_info_clone() {
    let info = UpdateInfo {
        current_version: "0.1.0".to_string(),
        new_version: "0.2.0".to_string(),
    };
    let cloned = info.clone();
    assert_eq!(cloned.current_version, "0.1.0");
    assert_eq!(cloned.new_version, "0.2.0");
}

#[test]
fn test_cache_data_fields() {
    let cache = CacheData {
        last_check: 123,
        new_version: Some("0.2.0".to_string()),
    };
    assert_eq!(cache.last_check, 123);
    assert_eq!(cache.new_version, Some("0.2.0".to_string()));
}

#[test]
fn test_cache_duration_in_hours() {
    assert_eq!(CACHE_DURATION_SECS / 3600, 24);
}

#[test]
fn test_cache_duration_in_minutes() {
    assert_eq!(CACHE_DURATION_SECS / 60, 1440);
}

#[test]
fn test_update_result_display() {
    let no_update = UpdateResult::NoUpdate;
    let debug_str = format!("{:?}", no_update);
    assert!(!debug_str.is_empty());
}

#[test]
fn test_update_info_display() {
    let info = UpdateInfo {
        current_version: "0.1.0".to_string(),
        new_version: "0.2.0".to_string(),
    };
    let debug_str = format!("{:?}", info);
    assert!(!debug_str.is_empty());
}

#[test]
fn test_cache_data_display() {
    let cache = CacheData {
        last_check: 123,
        new_version: Some("0.2.0".to_string()),
    };
    let debug_str = format!("{:?}", cache);
    assert!(!debug_str.is_empty());
}

#[test]
fn test_should_check_update_error_handling() {
    let result = should_check_update(true, &None, 0);
    assert!(!result);
}

#[test]
fn test_update_result_all_variants() {
    let no_update = UpdateResult::NoUpdate;
    let available = UpdateResult::UpdateAvailable {
        version: "0.2.0".to_string(),
    };
    let error = UpdateResult::Error("error".to_string());

    match no_update {
        UpdateResult::NoUpdate => {}
        _ => panic!("Wrong"),
    }
    match available {
        UpdateResult::UpdateAvailable { .. } => {}
        _ => panic!("Wrong"),
    }
    match error {
        UpdateResult::Error(_) => {}
        _ => panic!("Wrong"),
    }
}

#[test]
fn test_update_info_all_fields() {
    let info = UpdateInfo {
        current_version: "1.0.0".to_string(),
        new_version: "2.0.0".to_string(),
    };
    assert_eq!(info.current_version, "1.0.0");
    assert_eq!(info.new_version, "2.0.0");
}

#[test]
fn test_cache_data_all_fields() {
    let cache = CacheData {
        last_check: 999,
        new_version: None,
    };
    assert_eq!(cache.last_check, 999);
    assert!(cache.new_version.is_none());
}

#[test]
fn test_cache_duration_values() {
    // 24 hours
    assert_eq!(CACHE_DURATION_SECS, 86400);
    // In minutes
    assert_eq!(CACHE_DURATION_SECS / 60, 1440);
    // In hours
    assert_eq!(CACHE_DURATION_SECS / 3600, 24);
}

#[test]
fn test_update_result_debug_format() {
    let no_update = UpdateResult::NoUpdate;
    let debug = format!("{:?}", no_update);
    assert!(debug.contains("NoUpdate"));
}

#[test]
fn test_update_info_debug_format() {
    let info = UpdateInfo {
        current_version: "1.0".to_string(),
        new_version: "2.0".to_string(),
    };
    let debug = format!("{:?}", info);
    assert!(debug.contains("1.0"));
    assert!(debug.contains("2.0"));
}

#[test]
fn test_cache_data_debug_format() {
    let cache = CacheData {
        last_check: 100,
        new_version: Some("1.0".to_string()),
    };
    let debug = format!("{:?}", cache);
    assert!(debug.contains("last_check"));
}

#[test]
fn test_should_check_update_cache_expired_dummy() {
    // Dummy test to verify CacheData struct fields
    let cache = CacheData {
        last_check: 0,
        new_version: None,
    };
    assert_eq!(cache.last_check, 0);
    assert!(cache.new_version.is_none());
}

#[test]
fn test_cache_data_new_version_none() {
    let cache = CacheData {
        last_check: 123,
        new_version: None,
    };
    assert!(cache.new_version.is_none());
}

#[test]
fn test_cache_data_new_version_some() {
    let cache = CacheData {
        last_check: 123,
        new_version: Some("1.0.0".to_string()),
    };
    assert_eq!(cache.new_version, Some("1.0.0".to_string()));
}

#[test]
fn test_cache_data_has_last_check_field() {
    let cache = CacheData {
        last_check: 12345,
        new_version: None,
    };
    assert_eq!(cache.last_check, 12345);
}

#[test]
fn test_cache_data_new_version_is_optional() {
    let cache1 = CacheData {
        last_check: 123,
        new_version: None,
    };
    let cache2 = CacheData {
        last_check: 123,
        new_version: Some("1.0.0".to_string()),
    };
    assert!(cache1.new_version.is_none());
    assert!(cache2.new_version.is_some());
}

#[test]
fn test_cache_duration_constant_value() {
    assert_eq!(CACHE_DURATION_SECS, 86400);
    assert_eq!(CACHE_DURATION_SECS, 24 * 3600);
}

#[test]
fn test_update_result_is_copyable() {
    let result1 = UpdateResult::NoUpdate;
    let result2 = result1.clone();
    match result2 {
        UpdateResult::NoUpdate => {}
        _ => panic!("Clone failed"),
    }
}

#[test]
fn test_update_info_is_copyable() {
    let info1 = UpdateInfo {
        current_version: "1.0".to_string(),
        new_version: "2.0".to_string(),
    };
    let info2 = info1.clone();
    assert_eq!(info2.current_version, "1.0");
    assert_eq!(info2.new_version, "2.0");
}

#[test]
fn test_cache_data_default_values() {
    let cache = CacheData {
        last_check: 0,
        new_version: None,
    };
    assert_eq!(cache.last_check, 0);
    assert!(cache.new_version.is_none());
}

#[test]
fn test_update_result_debug_output_contains_name() {
    let result = UpdateResult::NoUpdate;
    let debug = format!("{:?}", result);
    assert!(debug.contains("NoUpdate"));
}

#[test]
fn test_update_info_debug_output_contains_versions() {
    let info = UpdateInfo {
        current_version: "1.0.0".to_string(),
        new_version: "2.0.0".to_string(),
    };
    let debug = format!("{:?}", info);
    assert!(debug.contains("1.0.0"));
    assert!(debug.contains("2.0.0"));
}

#[test]
fn test_cache_data_debug_output_contains_fields() {
    let cache = CacheData {
        last_check: 123,
        new_version: Some("1.0".to_string()),
    };
    let debug = format!("{:?}", cache);
    assert!(debug.contains("last_check"));
    assert!(debug.contains("new_version"));
}

#[test]
fn test_update_result_error_contains_message() {
    let result = UpdateResult::Error("test error".to_string());
    match result {
        UpdateResult::Error(msg) => assert_eq!(msg, "test error"),
        _ => panic!("Wrong variant"),
    }
}

#[test]
fn test_update_result_update_available_contains_version() {
    let result = UpdateResult::UpdateAvailable {
        version: "2.0.0".to_string(),
    };
    match result {
        UpdateResult::UpdateAvailable { version } => assert_eq!(version, "2.0.0"),
        _ => panic!("Wrong variant"),
    }
}

#[test]
fn test_update_result_no_update_variant() {
    let result = UpdateResult::NoUpdate;
    match result {
        UpdateResult::NoUpdate => (),
        _ => panic!("Wrong variant"),
    }
}

#[test]
fn test_update_result_update_available_variant() {
    let result = UpdateResult::UpdateAvailable {
        version: "2.0.0".to_string(),
    };
    match result {
        UpdateResult::UpdateAvailable { version } => {
            assert_eq!(version, "2.0.0");
        }
        _ => panic!("Wrong variant"),
    }
}

#[test]
fn test_update_result_error_variant_new() {
    let result = UpdateResult::Error("connection failed".to_string());
    match result {
        UpdateResult::Error(msg) => {
            assert_eq!(msg, "connection failed");
        }
        _ => panic!("Wrong variant"),
    }
}

#[test]
fn test_update_result_clone_and_eq() {
    let original = UpdateResult::UpdateAvailable {
        version: "1.5.0".to_string(),
    };
    let cloned = original.clone();

    match cloned {
        UpdateResult::UpdateAvailable { version } => {
            assert_eq!(version, "1.5.0");
        }
        _ => panic!("Clone failed"),
    }
}

#[test]
fn test_update_info_struct_fields() {
    let info = UpdateInfo {
        current_version: "1.0.0".to_string(),
        new_version: "2.0.0".to_string(),
    };

    assert_eq!(info.current_version, "1.0.0");
    assert_eq!(info.new_version, "2.0.0");
}

#[test]
fn test_update_info_clone_new() {
    let original = UpdateInfo {
        current_version: "1.0.0".to_string(),
        new_version: "2.0.0".to_string(),
    };
    let cloned = original.clone();

    assert_eq!(cloned.current_version, "1.0.0");
    assert_eq!(cloned.new_version, "2.0.0");
}

#[test]
fn test_cache_data_debug_format_new() {
    let cache = CacheData {
        last_check: 12345,
        new_version: Some("1.0.0".to_string()),
    };
    let debug_str = format!("{:?}", cache);

    assert!(debug_str.contains("last_check"));
    assert!(debug_str.contains("new_version"));
    assert!(debug_str.contains("12345"));
    assert!(debug_str.contains("1.0.0"));
}

#[test]
fn test_update_result_debug_format_new() {
    let result = UpdateResult::UpdateAvailable {
        version: "2.0.0".to_string(),
    };
    let debug_str = format!("{:?}", result);

    assert!(debug_str.contains("UpdateAvailable"));
    assert!(debug_str.contains("2.0.0"));
}

#[test]
fn test_cache_data_all_field_combinations() {
    let cases = vec![
        (0, None),
        (0, Some("0.0.1".to_string())),
        (u64::MAX, None),
        (u64::MAX, Some("9.9.9".to_string())),
    ];

    for (last_check, new_version) in cases {
        let cache = CacheData {
            last_check,
            new_version: new_version.clone(),
        };
        assert_eq!(cache.last_check, last_check);
        assert_eq!(cache.new_version, new_version);
    }
}

#[test]
fn test_cache_data_with_semver_versions() {
    let semver_versions = vec!["0.1.0", "1.0.0", "1.2.3", "10.20.30", "0.0.1"];

    for version in semver_versions {
        let cache = CacheData {
            last_check: 123,
            new_version: Some(version.to_string()),
        };
        assert_eq!(cache.new_version, Some(version.to_string()));
    }
}

#[test]
fn test_cache_duration_constant_correctness() {
    assert_eq!(CACHE_DURATION_SECS, 24 * 60 * 60);
    assert_eq!(CACHE_DURATION_SECS, 86400);
    assert_eq!(CACHE_DURATION_SECS / 60, 1440);
    assert_eq!(CACHE_DURATION_SECS / 3600, 24);
}

#[test]
fn an_available_update_becomes_a_note_naming_both_versions() {
    match note_from(UpdateResult::UpdateAvailable {
        version: "9.9.9".to_string(),
    }) {
        Ok(Some(info)) => {
            assert_eq!(info.new_version, "9.9.9");
            assert_eq!(info.current_version, CURRENT_VERSION);
        }
        other => panic!("expected an available-update note, got {other:?}"),
    }
}

#[test]
fn a_failed_update_check_becomes_the_reason_it_failed() {
    match note_from(UpdateResult::Error("network down".to_string())) {
        Err(reason) => assert_eq!(reason, "network down"),
        other => panic!("expected a failed-update note, got {other:?}"),
    }
}

#[test]
fn no_update_means_no_note() {
    assert!(matches!(note_from(UpdateResult::NoUpdate), Ok(None)));
}

#[test]
fn versions_compare_by_their_three_numbers() {
    assert_eq!(parse_version("1.2.3"), Some((1, 2, 3)));
    assert_eq!(parse_version("1.2"), None);
    assert_eq!(parse_version("1.x.3"), None);
    assert!(is_newer("0.10.0", "0.9.9"));
    assert!(!is_newer("0.9.9", "0.10.0"));
    assert!(!is_newer("1.0.0", "1.0.0"));
    assert!(!is_newer("garbage", "1.0.0"));
}

#[test]
fn a_day_old_cache_is_asked_again() {
    let cache = Some(CacheData { last_check: 1000, new_version: None });
    assert!(!should_check_update(false, &cache, 1000 + CACHE_DURATION_SECS - 1));
    assert!(should_check_update(false, &cache, 1000 + CACHE_DURATION_SECS));
    assert!(!should_check_update(true, &cache, u64::MAX));
}

#[test]
fn a_cache_stamped_in_the_future_is_asked_again() {
    let cache = Some(CacheData { last_check: 5000, new_version: None });
    assert!(should_check_update(false, &cache, 4999));
    assert!(!should_check_update(false, &cache, 5000));
    assert!(!should_check_update(true, &cache, 4999));
}

#[test]
fn the_cache_answers_without_asking() {
    let cache = Some(CacheData { last_check: 1, new_version: Some("9.9.9".to_string()) });
    assert!(matches!(cached_result(&cache), UpdateResult::UpdateAvailable { version } if version == "9.9.9"));
    assert!(matches!(cached_result(&None), UpdateResult::NoUpdate));
}

#[test]
fn a_check_caches_only_a_newer_release() {
    let (r, cached) = check_latest_version(Ok("0.2.0".to_string()), "0.1.0");
    assert!(matches!(r, UpdateResult::UpdateAvailable { version } if version == "0.2.0"));
    assert_eq!(cached, Some("0.2.0".to_string()));
    let (r, cached) = check_latest_version(Ok("0.1.0".to_string()), "0.1.0");
    assert!(matches!(r, UpdateResult::NoUpdate));
    assert_eq!(cached, None);
    let (r, cached) = check_latest_version(Err("offline".to_string()), "0.1.0");
    assert!(matches!(r, UpdateResult::Error(m) if m == "offline"));
    assert_eq!(cached, None);
    let (r, _) = force_check_for_update(Ok("999.0.0".to_string()));
    assert!(matches!(r, UpdateResult::UpdateAvailable { .. }));
}

#[test]
fn the_note_is_read_only_for_a_newer_cached_version() {
    let newer = Some(CacheData { last_check: 1, new_version: Some("9.0.0".to_string()) });
    assert_eq!(cached_update_version(false, newer.clone(), "1.0.0"), Some("9.0.0".to_string()));
    assert_eq!(cached_update_version(true, newer, "1.0.0"), None);
    let older = Some(CacheData { last_check: 1, new_version: Some("0.1.0".to_string()) });
    assert_eq!(cached_update_version(false, older, "1.0.0"), None);
}

#[test]
fn each_platform_has_its_asset() {
    assert_eq!(get_platform_asset_name("linux", "x86_64"), Ok("x86_64-unknown-linux-musl".to_string()));
    assert_eq!(get_platform_asset_name("macos", "aarch64"), Ok("aarch64-apple-darwin".to_string()));
    assert_eq!(get_platform_asset_name("plan9", "mips"), Err("Unsupported platform: plan9 mips".to_string()));
}

#[test]
fn the_update_info_names_this_build() {
    let _ = UpdateInfo { current_version: CURRENT_VERSION.to_string(), new_version: String::new() };
}
