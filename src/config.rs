use vstd::prelude::*;
use crate::error::IntegrityVerificationError;
use vstd::string::StringExecFns;

verus! {

/// Number of comparison attempts made for one request when the configuration names none.
pub fn default_test_retries() -> (r: u64)
    ensures
        r == 20,
{
    20
}

/// The settings of one run, read once at startup.
#[derive(Debug, Clone)]
pub struct IntegrityVerificationConfig {
    pub reference_host: String,
    pub testing_host: String,
    pub rpc_endpoint: String,
    pub testing_file_path: String,
    /// Maximum comparison attempts per request; at least one.
    pub test_retries: u64,
    pub log_differences: bool,
    /// Patterns whose matches are deleted from every difference description, in order.
    pub difference_filter_regexes: Vec<String>,
    pub num_of_virtual_users: usize,
    pub test_duration_time: u64,
}

/// Accepts a configuration whose retry count is at least one.
pub fn validate_config(config: &IntegrityVerificationConfig) -> (r: Result<(), IntegrityVerificationError>)
    ensures
        r is Ok <==> config.test_retries >= 1,
        r matches Err(IntegrityVerificationError::ValidateConfig(field)) ==> field@ == "test_retries"@,
        r matches Err(e) ==> e is ValidateConfig,
{
    if config.test_retries < 1 {
        return Err(IntegrityVerificationError::ValidateConfig(String::from_str("test_retries")));
    }
    Ok(())
}

} // verus!
