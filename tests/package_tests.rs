use lothaire::distrib::PackageManager;
use lothaire::package::{check, check_deb, check_rpm, package_manager_not_found, PackageError};
use lothaire::report::{TestResult, UnitResult};

fn empty_result() -> TestResult {
    TestResult {
        success: 0,
        error: 0,
        summary: Vec::new()
    }
}

const RPM_OPENSSL: &str = "openssl---1.0.1e";
const RPM_MISSING: &str = "package notexists is not installed\n";
const DEB_OPENSSL: &str = "install ok installed---1.0.1t-1+deb8u2\n";
const DEB_MISSING: &str = "";

#[test]
fn check_rpm_test_success() {
    let mut result = empty_result();
    let openssl_version = "1.0.1e";
    let mut package_name = "openssl";
    // package exists and version ok
    check_rpm(package_name, Some(openssl_version), true, RPM_OPENSSL, &mut result);
    match result.summary[0] {
        UnitResult::Success(ref s) => assert_eq!(s.expected, format!("name: {}, version: {}, installed: {}", package_name, openssl_version, true)),
        UnitResult::Error(_) => panic!("error in test")
    }
    // package exists and no version
    check_rpm(package_name, None, true, RPM_OPENSSL, &mut result);
    match result.summary[1] {
        UnitResult::Success(ref s) => assert_eq!(s.expected, format!("name: {}, installed: {}", package_name, true)),
        UnitResult::Error(_) => panic!("error in test")
    }
    // package exists but incorrect version
    check_rpm(package_name, Some("1.0.2"), true, RPM_OPENSSL, &mut result);
    match result.summary[2] {
        UnitResult::Error(ref s) => {
            assert_eq!(s.expected, format!("name: {}, version: {}, installed: {}", package_name, "1.0.2", true));
            assert_eq!(s.actual, "package found: false");
        },
        UnitResult::Success(_) => panic!("error in test")
    }
    // package dont exists and no version and test not installed
    package_name = "notexists";
    check_rpm(package_name, None, false, RPM_MISSING, &mut result);
    match result.summary[3] {
        UnitResult::Success(ref s) => assert_eq!(s.expected, format!("name: {}, installed: {}", package_name, false)),
        UnitResult::Error(_) => panic!("error in test")
    }
    // package dont exists and no version and test installed
    check_rpm(package_name, None, true, RPM_MISSING, &mut result);
    match result.summary[4] {
        UnitResult::Error(ref e) => {
            assert_eq!(e.expected, format!("name: {}, installed: {}", package_name, true));
            assert_eq!(e.actual, format!("package found: {}", false));
        }
        UnitResult::Success(_) => panic!("error in test")
    }
    // package not exists and incorrect version
    check_rpm(package_name, Some("1"), true, RPM_MISSING, &mut result);
    match result.summary[5] {
        UnitResult::Error(ref e) => {
            assert_eq!(e.expected, format!("name: {}, version: {}, installed: {}", package_name, "1", true));
            assert_eq!(e.actual, format!("package found: {}", false));
        }
        UnitResult::Success(_) => panic!("error in test")
    }
}

#[test]
fn check_deb_test_success() {
    let mut result = empty_result();
    let openssl_version = "1.0.1t-1+deb8u2";
    let mut package_name = "openssl";
    // package exists and version ok
    check_deb(package_name, Some(openssl_version), true, DEB_OPENSSL, &mut result);
    match result.summary[0] {
        UnitResult::Success(ref s) => assert_eq!(s.expected, format!("name: {}, version: {}, installed: {}", package_name, openssl_version, true)),
        UnitResult::Error(_) => panic!("error in test")
    }
    // package exists and no version
    check_deb(package_name, None, true, DEB_OPENSSL, &mut result);
    match result.summary[1] {
        UnitResult::Success(ref s) => assert_eq!(s.expected, format!("name: {}, installed: {}", package_name, true)),
        UnitResult::Error(_) => panic!("error in test")
    }
    // package exists but incorrect version
    check_deb(package_name, Some("1.0.2"), true, DEB_OPENSSL, &mut result);
    match result.summary[2] {
        UnitResult::Error(ref s) => {
            assert_eq!(s.expected, format!("name: {}, version: {}, installed: {}", package_name, "1.0.2", true));
            assert_eq!(s.actual, "package found: false");
        },
        UnitResult::Success(_) => panic!("error in test")
    }
    // package dont exists and no version and test not installed
    package_name = "notexists";
    check_deb(package_name, None, false, DEB_MISSING, &mut result);
    match result.summary[3] {
        UnitResult::Success(ref s) => assert_eq!(s.expected, format!("name: {}, installed: {}", package_name, false)),
        UnitResult::Error(_) => panic!("error in test")
    }
    // package dont exists and no version and test installed
    check_deb(package_name, None, true, DEB_MISSING, &mut result);
    match result.summary[4] {
        UnitResult::Error(ref e) => {
            assert_eq!(e.expected, format!("name: {}, installed: {}", package_name, true));
            assert_eq!(e.actual, format!("package found: {}", false));
        }
        UnitResult::Success(_) => panic!("error in test")
    }
    // package not exists and incorrect version
    check_deb(package_name, Some("1"), true, DEB_MISSING, &mut result);
    match result.summary[5] {
        UnitResult::Error(ref e) => {
            assert_eq!(e.expected, format!("name: {}, version: {}, installed: {}", package_name, "1", true));
            assert_eq!(e.actual, format!("package found: {}", false));
        }
        UnitResult::Success(_) => panic!("error in test")
    }
}

#[test]
fn deb_version_is_exact() {
    let mut result = empty_result();
    check_deb("openssl", Some("1.0.2"), true, "install ok installed---1.0.1t-1+deb8u2", &mut result);
    assert_eq!(result.error, 1);
    match &result.summary[0] {
        UnitResult::Error(e) => {
            assert_eq!(e.test, "package");
            assert_eq!(e.actual, "package found: false");
            assert_eq!(e.message, "Package test fail");
        }
        UnitResult::Success(_) => panic!("expected an error"),
    }
}

#[test]
fn deb_status_must_be_installed() {
    let mut result = empty_result();
    check_deb("pkg", None, true, "deinstall ok config-files---2.0\n", &mut result);
    assert_eq!(result.error, 1);
    check_deb("pkg", Some("2.0"), true, "deinstall ok config-files---2.0\ninstall ok installed---2.0\n", &mut result);
    assert_eq!(result.success, 1);
    // a line with more than one separator never matches a version
    check_deb("pkg", Some("2.0"), true, "install ok installed---2.0---x\n", &mut result);
    assert_eq!(result.error, 2);
}

#[test]
fn rpm_version_is_exact() {
    let mut result = empty_result();
    check_rpm("openssl", Some("1.0.1"), true, "openssl---1.0.1e", &mut result);
    assert_eq!(result.error, 1);
    check_rpm("openssl", None, false, "openssl---1.0.1e", &mut result);
    assert_eq!(result.error, 2);
    match &result.summary[1] {
        UnitResult::Error(e) => assert_eq!(e.actual, "package found: true"),
        UnitResult::Success(_) => panic!("expected an error"),
    }
}

#[test]
fn unknown_package_manager_is_an_error_outcome() {
    let mut result = empty_result();
    package_manager_not_found("vim", Some("9"), true, &mut result);
    assert_eq!((result.success, result.error), (0, 1));
    match &result.summary[0] {
        UnitResult::Error(e) => {
            assert_eq!(e.expected, "name: vim, version: 9, installed: true");
            assert_eq!(e.actual, "package manager not found");
            assert_eq!(e.message, "lothaire failed to determine your package manager");
        }
        UnitResult::Success(_) => panic!("expected an error"),
    }
}

#[test]
fn package_check_dispatch() {
    let r = check("vim", "true", None, PackageManager::Unknown, Ok(String::new())).unwrap();
    assert_eq!((r.success, r.error), (0, 1));
    let r = check("vim", "false", None, PackageManager::Deb, Ok(String::new())).unwrap();
    assert_eq!((r.success, r.error), (1, 0));
    let r = check("openssl", "true", Some("1.0.1e"), PackageManager::Rpm, Ok(RPM_OPENSSL.to_string())).unwrap();
    assert_eq!((r.success, r.error), (1, 0));
    let spawn_failure = std::io::Error::new(std::io::ErrorKind::NotFound, "no rpm");
    assert!(matches!(
        check("vim", "true", None, PackageManager::Rpm, Err(spawn_failure)),
        Err(PackageError::Io(_))
    ));
    let spawn_failure = std::io::Error::new(std::io::ErrorKind::NotFound, "no rpm");
    assert!(matches!(
        check("vim", "yes", None, PackageManager::Rpm, Err(spawn_failure)),
        Err(PackageError::ParseBool(_))
    ));
}
