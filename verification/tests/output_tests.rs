use gitnav::errors::NavError;
use gitnav::output::{ErrorInfo, OutputFormatter};

#[test]
fn test_output_formatter_new() {
    let formatter = OutputFormatter::new(false, false, false);
    assert!(!formatter.quiet);
    assert!(!formatter.verbose);
}

#[test]
fn test_output_formatter_quiet() {
    let formatter = OutputFormatter::new(true, false, false);
    assert!(formatter.quiet);
}

#[test]
fn test_output_formatter_verbose() {
    let formatter = OutputFormatter::new(false, true, false);
    assert!(formatter.verbose);
}

#[test]
fn test_output_formatter_no_color() {
    let formatter = OutputFormatter::new(false, false, true);
    assert!(!formatter.use_color);
}

#[test]
fn test_colorize_disabled() {
    let formatter = OutputFormatter::new(false, false, true);
    let result = formatter.cyan("test");
    assert_eq!(result, "test");
}

#[test]
fn test_color_methods() {
    let formatter = OutputFormatter::new(false, false, true);
    assert_eq!(formatter.cyan("test"), "test");
    assert_eq!(formatter.yellow("test"), "test");
    assert_eq!(formatter.green("test"), "test");
    assert_eq!(formatter.red("test"), "test");
    assert_eq!(formatter.magenta("test"), "test");
}

#[test]
fn test_color_methods_wrap_with_codes_when_supported() {
    let formatter = OutputFormatter::with_color_support(false, false, false, true);
    assert!(formatter.use_color);
    assert_eq!(formatter.cyan("x"), "\x1b[1;36mx\x1b[0m");
    assert_eq!(formatter.yellow("x"), "\x1b[1;33mx\x1b[0m");
    assert_eq!(formatter.green("x"), "\x1b[32mx\x1b[0m");
    assert_eq!(formatter.red("x"), "\x1b[31mx\x1b[0m");
    assert_eq!(formatter.magenta("x"), "\x1b[1;35mx\x1b[0m");
}

#[test]
fn test_error_info_new_keeps_all_parts() {
    let error = ErrorInfo::new(
        "ENOREPOS",
        "No repositories found",
        "No git repositories found in: /tmp",
        "Try another path",
        "https://example.invalid/docs",
    );
    assert_eq!(error.code, "ENOREPOS");
    assert_eq!(error.title, "No repositories found");
    assert_eq!(error.description, "No git repositories found in: /tmp");
    assert_eq!(error.fix, "Try another path");
    assert_eq!(error.url, "https://example.invalid/docs");
}

#[test]
fn test_nav_error_messages() {
    let e = NavError::PathNotFound { path: "/missing".to_string() };
    assert_eq!(e.message(), "Base path does not exist: /missing");

    let e = NavError::RepositoryOpenError { path: "/not-a-repo".to_string() };
    assert_eq!(e.message(), "Failed to open repository: /not-a-repo");

    let e = NavError::IoError { message: "disk on fire".to_string() };
    assert_eq!(e.message(), "disk on fire");

    let e = NavError::ConfigValidationError { message: "bad value".to_string() };
    assert_eq!(e.message(), "bad value");
}
