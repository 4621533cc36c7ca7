use ranger::utilities::{
    classify_database_error, classify_package_error, create_database_error_handler, create_package_error_handler,
    get_file_extension, try_some, RangerError,
};
use std::path::Path;

#[test]
fn database_failures_are_classified_by_message() {
    assert!(matches!(
        classify_database_error("Cannot delete: a foreign key constraint fails"),
        RangerError::DatabaseConflict
    ));
    assert!(matches!(classify_database_error("Record not found"), RangerError::DatabaseRecordNotFound));
    assert!(matches!(classify_database_error("Duplicate entry 'x' for key"), RangerError::DatabaseConflict));
    assert!(matches!(classify_database_error("connection refused"), RangerError::DatabaseUnexpected));
}

#[test]
fn database_error_handler_reports_anyhow_errors() {
    let handler = create_database_error_handler("Create exercise");
    let error = anyhow::Error::msg("Record not found");
    assert!(matches!(handler(error), RangerError::DatabaseRecordNotFound));
    assert!(matches!(handler(anyhow::Error::msg("boom")), RangerError::DatabaseUnexpected));
}

#[test]
fn package_failures_name_the_package() {
    match classify_package_error("Package check failed: bad version", &"my-package".to_string()) {
        RangerError::PackageCheckFailed(name) => assert_eq!(name, "my-package"),
        other => panic!("unexpected {:?}", other),
    }
    assert!(matches!(classify_package_error("timeout", &"p".to_string()), RangerError::DeputyQueryFailed));
    let handler = create_package_error_handler("Get package".to_string(), "p".to_string());
    match handler(anyhow::Error::msg("Package check failed")) {
        RangerError::PackageCheckFailed(name) => assert_eq!(name, "p"),
        other => panic!("unexpected {:?}", other),
    }
}

#[test]
fn try_some_keeps_values_and_quotes_messages() {
    assert_eq!(try_some(Some(3), "missing").unwrap(), 3);
    let error = try_some::<u8>(None, "Nodes not found").unwrap_err();
    assert_eq!(error.to_string(), "\"Nodes not found\"");
    let error = try_some::<u8>(None, "say \"hi\"").unwrap_err();
    assert_eq!(error.to_string(), r#""say \"hi\"""#);
}

#[test]
fn file_extensions_follow_std_paths() {
    let cases = [
        "report.pdf",
        "archive.tar.gz",
        ".bashrc",
        "noext",
        "dir.d/file",
        "dir/file.txt",
        "dir/file.txt/",
        "dir/file.txt/.",
        "./a.b",
        "a/..",
        "..",
        ".",
        "",
        "/",
        "a.",
        "a..b",
        "x//y.z//",
        "..hidden",
    ];
    for case in cases {
        let expected = Path::new(case).extension().and_then(|e| e.to_str());
        assert_eq!(get_file_extension(case), expected, "path {:?}", case);
    }
}
