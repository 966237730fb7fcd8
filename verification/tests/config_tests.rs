use gitnav::config::{Config, EnvOverrides};

#[test]
fn test_default_config_has_sensible_values() {
    let config = Config::default();
    assert_eq!(config.search.max_depth, 5);
    assert!(config.cache.enabled);
    assert_eq!(config.cache.ttl_seconds, 300);
    assert_eq!(config.ui.preview_width_percent, 60);
    assert_eq!(config.ui.height_percent, 90);
    assert_eq!(config.preview.recent_commits, 5);
}

#[test]
fn test_default_config_is_valid() {
    let config = Config::default();
    assert!(config.validate().is_ok());
}

#[test]
fn test_validation_rejects_zero_max_depth() {
    let mut config = Config::default();
    config.search.max_depth = 0;
    let result = config.validate();
    assert!(result.is_err());
    assert!(result.unwrap_err().message().contains("max_depth must be at least 1"));
}

#[test]
fn test_validation_rejects_preview_width_over_100() {
    let mut config = Config::default();
    config.ui.preview_width_percent = 101;
    let result = config.validate();
    assert!(result.is_err());
    assert!(result.unwrap_err().message().contains("preview_width_percent cannot exceed 100"));
}

#[test]
fn test_validation_rejects_height_percent_over_100() {
    let mut config = Config::default();
    config.ui.height_percent = 101;
    let result = config.validate();
    assert!(result.is_err());
    assert!(result.unwrap_err().message().contains("height_percent cannot exceed 100"));
}

#[test]
fn test_validation_rejects_zero_height_percent() {
    let mut config = Config::default();
    config.ui.height_percent = 0;
    let result = config.validate();
    assert!(result.is_err());
    assert!(result.unwrap_err().message().contains("height_percent must be at least 1"));
}

#[test]
fn test_validation_accepts_boundary_values() {
    let mut config = Config::default();
    config.search.max_depth = 1;
    config.ui.preview_width_percent = 100;
    config.ui.height_percent = 100;
    assert!(config.validate().is_ok());
}

#[test]
fn test_cache_config_defaults() {
    let config = Config::default();
    assert!(config.cache.enabled);
    assert_eq!(config.cache.ttl_seconds, 300);
}

#[test]
fn test_ui_config_defaults() {
    let config = Config::default();
    assert!(!config.ui.prompt.is_empty());
    assert!(!config.ui.header.is_empty());
    assert!(config.ui.show_border);
    assert_eq!(config.ui.layout, "reverse");
}

#[test]
fn test_preview_config_defaults() {
    let config = Config::default();
    assert!(config.preview.show_branch);
    assert!(config.preview.show_last_activity);
    assert!(config.preview.show_status);
    assert_eq!(config.preview.recent_commits, 5);
    assert!(!config.preview.date_format.is_empty());
}

#[test]
fn test_config_is_cloneable() {
    let config1 = Config::default();
    let config2 = config1.clone();

    assert_eq!(config1.search.max_depth, config2.search.max_depth);
    assert_eq!(config1.cache.ttl_seconds, config2.cache.ttl_seconds);
}

#[test]
fn test_config_is_debuggable() {
    let config = Config::default();
    let debug_str = format!("{:?}", config);
    assert!(!debug_str.is_empty());
    assert!(debug_str.contains("max_depth"));
}

#[test]
fn test_nested_config_defaults() {
    let config = Config::default();

    // Search config
    assert!(!config.search.base_path.is_empty());
    assert!(config.search.max_depth > 0);

    // Cache config
    assert!(config.cache.enabled);
    assert!(config.cache.ttl_seconds > 0);

    // UI config
    assert!(!config.ui.prompt.is_empty());
    assert!(!config.ui.header.is_empty());
    assert!(config.ui.preview_width_percent > 0);
    assert!(config.ui.preview_width_percent <= 100);
    assert!(config.ui.height_percent > 0);
    assert!(config.ui.height_percent <= 100);

    // Preview config
    assert!(config.preview.recent_commits > 0);
    assert!(!config.preview.date_format.is_empty());
}

#[test]
fn test_all_config_sections_present() {
    let config = Config::default();

    // Verify all major sections exist
    let _ = &config.search;
    let _ = &config.cache;
    let _ = &config.ui;
    let _ = &config.preview;
}

#[test]
fn test_validation_with_minimum_valid_values() {
    let mut config = Config::default();
    config.search.max_depth = 1;
    config.ui.preview_width_percent = 0;
    config.ui.height_percent = 1;

    assert!(config.validate().is_ok());
}

#[test]
fn test_validation_with_maximum_valid_values() {
    let mut config = Config::default();
    config.search.max_depth = 1000;
    config.ui.preview_width_percent = 100;
    config.ui.height_percent = 100;

    assert!(config.validate().is_ok());
}

#[test]
fn test_validation_multiple_violations() {
    let mut config = Config::default();
    config.search.max_depth = 0;
    config.ui.preview_width_percent = 101;
    config.ui.height_percent = 101;

    // First violation should be caught
    let result = config.validate();
    assert!(result.is_err());
}

#[test]
fn test_search_config_base_path_not_empty() {
    let config = Config::default();
    assert!(!config.search.base_path.is_empty());
    assert!(!config.search.base_path.trim().is_empty());
}

#[test]
fn test_ui_config_show_border_default() {
    let config = Config::default();
    assert!(config.ui.show_border);
}

#[test]
fn test_preview_config_all_features_enabled_by_default() {
    let config = Config::default();
    assert!(config.preview.show_branch);
    assert!(config.preview.show_last_activity);
    assert!(config.preview.show_status);
}

#[test]
fn test_config_validation_returns_correct_error_messages() {
    let mut config = Config::default();

    // Test max_depth error message
    config.search.max_depth = 0;
    let err = config.validate().unwrap_err();
    assert!(err.message().contains("max_depth"));
    assert!(err.message().contains("at least 1"));

    // Test preview_width error message
    config.search.max_depth = 5;
    config.ui.preview_width_percent = 150;
    let err = config.validate().unwrap_err();
    assert!(err.message().contains("preview_width_percent"));
    assert!(err.message().contains("exceed"));

    // Test height_percent error message
    config.ui.preview_width_percent = 60;
    config.ui.height_percent = 0;
    let err = config.validate().unwrap_err();
    assert!(err.message().contains("height_percent"));
    assert!(err.message().contains("at least 1"));
}

#[test]
fn test_validation_error_message_includes_value() {
    let mut config = Config::default();
    config.ui.preview_width_percent = 150;
    let err = config.validate().unwrap_err();
    assert_eq!(err.message(), "ui.preview_width_percent cannot exceed 100, got 150");
}

#[test]
fn test_overrides_replace_texts_verbatim() {
    let mut config = Config::default();
    let mut o = EnvOverrides::default();
    o.base_path = Some("/work".to_string());
    o.ui_prompt = Some("pick > ".to_string());
    o.preview_date_format = Some("%Y".to_string());
    config.apply_overrides(&o);
    assert_eq!(config.search.base_path, "/work");
    assert_eq!(config.ui.prompt, "pick > ");
    assert_eq!(config.preview.date_format, "%Y");
}

#[test]
fn test_overrides_parse_numbers_and_skip_bad_ones() {
    let mut config = Config::default();
    let mut o = EnvOverrides::default();
    o.max_depth = Some("8".to_string());
    o.cache_ttl = Some("oops".to_string());
    o.ui_height = Some("0".to_string());
    o.ui_preview_width = Some("100".to_string());
    config.apply_overrides(&o);
    assert_eq!(config.search.max_depth, 8);
    assert_eq!(config.cache.ttl_seconds, 300); // unparseable text leaves the old value
    assert_eq!(config.ui.height_percent, 90); // zero is out of range for the height
    assert_eq!(config.ui.preview_width_percent, 100);
}

#[test]
fn test_overrides_booleans_follow_truth_rule() {
    let mut config = Config::default();
    let mut o = EnvOverrides::default();
    o.cache_enabled = Some("FALSE".to_string());
    o.ui_border = Some("TRUE".to_string());
    o.preview_show_branch = Some("1".to_string());
    o.preview_show_activity = Some("yes".to_string());
    o.preview_show_status = Some("YES".to_string());
    config.apply_overrides(&o);
    assert!(!config.cache.enabled);
    assert!(config.ui.show_border);
    assert!(config.preview.show_branch);
    assert!(config.preview.show_last_activity);
    assert!(!config.preview.show_status); // only lowercase "yes" counts
}

#[test]
fn test_default_path_ends_with_config_toml() {
    if let Some(p) = Config::default_path() {
        assert!(p.ends_with("/gitnav/config.toml"));
    }
}
