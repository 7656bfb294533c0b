use ppm::package::{
    check_install, join_names, package_spec, parse_version, requirements_text,
    validate_package_name, SpecError,
};
use ppm::index::version_from_json;
use ppm::reconcile::{IndexError, InstallError};

fn s(x: &str) -> String {
    x.to_string()
}

#[test]
fn test_validate_package_name() {
    assert!(validate_package_name("requests").is_ok());
    assert!(validate_package_name("my-package").is_ok());
    assert!(validate_package_name("my_package").is_ok());
    assert!(validate_package_name("package123").is_ok());

    assert!(validate_package_name("").is_err());
    assert!(validate_package_name("pkg with spaces").is_err());
    assert!(validate_package_name("pkg/slash").is_err());
}

#[test]
fn validation_accepts_pinned_spec_and_names_errors() {
    assert_eq!(validate_package_name("pkg==1.0.0"), Ok(()));
    assert_eq!(validate_package_name("a.b_c-d<=2~!"), Ok(()));
    assert_eq!(validate_package_name(""), Err(SpecError::Empty));
    assert_eq!(validate_package_name("pkg with spaces"), Err(SpecError::InvalidChar));
    assert_eq!(validate_package_name("pkg/slash"), Err(SpecError::InvalidChar));
    assert_eq!(validate_package_name("a;rm"), Err(SpecError::InvalidChar));
}

#[test]
fn validation_follows_unicode_alphanumerics() {
    assert_eq!(validate_package_name("caf\u{e9}"), Ok(()));
    assert_eq!(validate_package_name("\u{2603}"), Err(SpecError::InvalidChar));
}

#[test]
fn test_parse_version() {
    assert_eq!(parse_version("requests==2.26.0"), ("requests".to_string(), Some("2.26.0".to_string())));
    assert_eq!(parse_version("numpy"), ("numpy".to_string(), None));
}

#[test]
fn parse_version_splits_at_first_separator() {
    assert_eq!(parse_version("a==1==2"), (s("a"), Some(s("1==2"))));
    assert_eq!(parse_version("a="), (s("a="), None));
    assert_eq!(parse_version("==1"), (s(""), Some(s("1"))));
    assert_eq!(parse_version(""), (s(""), None));
}

#[test]
fn package_spec_joins_with_double_equals() {
    assert_eq!(package_spec("requests", "2.31.0"), "requests==2.31.0");
}

#[test]
fn check_install_order_of_checks() {
    assert_eq!(check_install("pkg/slash", false), Err(InstallError::EnvMissing));
    assert_eq!(check_install("requests==1.0", false), Err(InstallError::EnvMissing));
    assert_eq!(check_install("pkg/slash", true), Err(InstallError::InvalidSpec(s("pkg/slash"))));
    assert_eq!(check_install("", true), Err(InstallError::InvalidSpec(s(""))));
    assert_eq!(check_install("requests==1.0", true), Ok(()));
}

#[test]
fn requirements_text_one_line_per_package() {
    let pk = vec![(s("requests"), s("2.0.0")), (s("numpy"), s("1.26.0"))];
    assert_eq!(requirements_text(&pk), "requests==2.0.0\nnumpy==1.26.0\n");
    assert_eq!(requirements_text(&vec![]), "");
}

#[test]
fn join_names_separates_with_comma() {
    assert_eq!(join_names(&vec![]), "");
    assert_eq!(join_names(&vec![s("a")]), "a");
    assert_eq!(join_names(&vec![s("a"), s("b"), s("c")]), "a, b, c");
}

#[test]
fn index_body_gives_version() {
    assert_eq!(version_from_json("{\"info\":{\"version\":\"2.31.0\"}}"), Ok(s("2.31.0")));
    assert!(matches!(version_from_json("<html>"), Err(IndexError::Parse(_))));
    assert_eq!(version_from_json("{\"info\":{}}"), Err(IndexError::MissingField));
    assert_eq!(version_from_json("{\"info\":{\"version\":3}}"), Err(IndexError::MissingField));
    assert_eq!(version_from_json("[]"), Err(IndexError::MissingField));
}

#[test]
fn index_url_for_package() {
    assert_eq!(ppm::index::index_url("https://pypi.org/pypi", "requests"), "https://pypi.org/pypi/requests/json");
}
