use integrity_verification::config::{default_test_retries, validate_config, IntegrityVerificationConfig};
use integrity_verification::error::IntegrityVerificationError;
use integrity_verification::params::{AssetSortBy, AssetSortDirection, AssetSorting};

fn config(retries: u64) -> IntegrityVerificationConfig {
    IntegrityVerificationConfig {
        reference_host: String::new(),
        testing_host: String::new(),
        rpc_endpoint: String::new(),
        testing_file_path: String::new(),
        test_retries: retries,
        log_differences: true,
        difference_filter_regexes: vec![],
        num_of_virtual_users: 0,
        test_duration_time: 0,
    }
}

#[test]
fn retries_default_to_twenty() {
    assert_eq!(default_test_retries(), 20);
}

#[test]
fn zero_retries_are_refused() {
    assert!(matches!(validate_config(&config(0)), Err(IntegrityVerificationError::ValidateConfig(f)) if f == "test_retries"));
    assert!(validate_config(&config(1)).is_ok());
}

#[test]
fn default_sorting_is_newest_first() {
    let s = AssetSorting::default();
    assert_eq!(s.sort_by, AssetSortBy::Created);
    assert_eq!(s.sort_direction, Some(AssetSortDirection::Desc));
    assert_eq!(AssetSortDirection::default(), AssetSortDirection::Desc);
}
