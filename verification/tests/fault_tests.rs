use dx_forge::fault::{categorize_error, EnhancedError, ErrorCategory, ToEnhanced};

#[test]
fn test_error_categorization() {
    assert_eq!(
        categorize_error("Network connection failed"),
        ErrorCategory::Network
    );

    assert_eq!(categorize_error("File not found"), ErrorCategory::FileSystem);

    assert_eq!(
        categorize_error("Invalid config value"),
        ErrorCategory::Configuration
    );
}

#[test]
fn test_retryable() {
    assert!(ErrorCategory::Network.is_retryable());
    assert!(!ErrorCategory::Configuration.is_retryable());
}

#[test]
fn enhanced_error_carries_category_and_suggestions() {
    let err = EnhancedError::new("Network connection failed".to_string());
    assert_eq!(err.category, ErrorCategory::Network);
    assert_eq!(err.context, vec!["Network operation failed".to_string()]);
    assert_eq!(err.suggestions.len(), 3);

    let report = err.display();
    assert!(report.starts_with("Error: Network connection failed\n"));
    assert!(report.contains("\nContext:\n"));
    assert!(report.contains("   - Check your internet connection\n"));
}

#[test]
fn results_lift_into_enhanced_errors() {
    let ok: Result<u32, String> = Ok(7);
    assert!(ok.enhance().is_ok());
    let err: Result<u32, String> = Err("connection timeout".to_string());
    let enhanced = err.enhance().unwrap_err();
    assert_eq!(enhanced.category, ErrorCategory::Network);
}

#[test]
fn unknown_errors_quote_the_message() {
    let err = EnhancedError::new("flux capacitor misaligned".to_string());
    assert_eq!(err.category, ErrorCategory::Unknown);
    assert_eq!(
        err.context,
        vec!["Unexpected error: flux capacitor misaligned".to_string()]
    );
}
