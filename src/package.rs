//! Packages: reading what the package manager says of a package and
//! checking it against what is expected.
use crate::distrib::PackageManager;
use crate::report::{
    bool_text, bool_word, record_error, record_success, Outcome, Report, TestResult,
};
use crate::text::{lemma_split_nonempty, opt_text, split_by, split_text, text_eq, texts};
use crate::util::{is_bool_text, parse_bool_text};
use std::io;
use std::str::ParseBoolError;
use vstd::prelude::*;

verus! {

/// A hard failure while checking a package.
#[derive(Debug)]
pub enum PackageError {
    Io(io::Error),
    ParseBool(ParseBoolError),
}

/// What a package check expects, as text.
pub open spec fn expected_text(package: Seq<char>, version: Option<Seq<char>>, installed: bool) -> Seq<
    char,
> {
    match version {
        Some(v) => "name: "@ + package + ", version: "@ + v + ", installed: "@ + bool_text(
            installed,
        ),
        None => "name: "@ + package + ", installed: "@ + bool_text(installed),
    }
}

/// The outcome of a package check: the package was `found` or not, and
/// `installed` says whether it should be.
pub open spec fn package_outcome(expected: Seq<char>, found: bool, installed: bool) -> Outcome {
    if found == installed {
        Outcome::Passed { test: "package"@, expected }
    } else {
        Outcome::Failed {
            test: "package"@,
            expected,
            actual: "package found: "@ + bool_text(found),
            message: "Package test fail"@,
        }
    }
}

/// The outcome where no package manager is known.
pub open spec fn no_manager_outcome(expected: Seq<char>) -> Outcome {
    Outcome::Failed {
        test: "package"@,
        expected,
        actual: "package manager not found"@,
        message: "lothaire failed to determine your package manager"@,
    }
}

/// Whether one `status---version` line of Debian's query shows the package
/// installed, in the wanted version if one is given.
pub open spec fn deb_line_matches(line: Seq<char>, version: Option<Seq<char>>) -> bool {
    let f = split_by(line, "---"@);
    &&& f[0] == "install ok installed"@
    &&& version matches Some(v) ==> f.len() == 2 && f[1] == v
}

/// Whether Debian's query output shows the package installed.
pub open spec fn deb_found(out: Seq<char>, version: Option<Seq<char>>) -> bool {
    let lines = split_by(out, "\n"@);
    exists|i: int| 0 <= i < lines.len() && #[trigger] deb_line_matches(lines[i], version)
}

/// Whether the `name---version` output of the RPM query shows the package
/// installed, in the wanted version if one is given.
pub open spec fn rpm_found(out: Seq<char>, package: Seq<char>, version: Option<Seq<char>>) -> bool {
    match version {
        Some(v) => out == package + "---"@ + v,
        None => split_by(out, "---"@)[0] == package,
    }
}

/// What is expected of the package, as text.
fn expected_description(package: &str, version: Option<&str>, installed: bool) -> (r: String)
    ensures
        r@ == expected_text(package@, opt_text(version), installed),
{
    let mut s = "name: ".to_string();
    s.append(package);
    match version {
        Some(v) => {
            s.append(", version: ");
            s.append(v);
        },
        None => {},
    }
    s.append(", installed: ");
    s.append(bool_word(installed));
    s
}

/// Records the outcome of a package check.
fn record_verdict(
    package: &str,
    version: Option<&str>,
    installed: bool,
    found: bool,
    result: &mut TestResult,
)
    requires
        old(result).success < i32::MAX,
        old(result).error < i32::MAX,
    ensures
        final(result)@ == old(result)@.record(
            package_outcome(expected_text(package@, opt_text(version), installed), found, installed),
        ),
{
    let test_name = "package";
    let expected_string = expected_description(package, version, installed);
    if found == installed {
        record_success(result, test_name.to_string(), expected_string);
    } else {
        let mut actual = "package found: ".to_string();
        actual.append(bool_word(found));
        record_error(
            result,
            test_name.to_string(),
            expected_string,
            actual,
            "Package test fail".to_string(),
        );
    }
}

/// Checks a package against the output of Debian's query for it
/// (`dpkg-query -f '${status}---${version}\n' -W <package>`).
pub fn check_deb(
    package: &str,
    version: Option<&str>,
    installed: bool,
    output: &str,
    result: &mut TestResult,
)
    requires
        old(result).success < i32::MAX,
        old(result).error < i32::MAX,
    ensures
        final(result)@ == old(result)@.record(
            package_outcome(
                expected_text(package@, opt_text(version), installed),
                deb_found(output@, opt_text(version)),
                installed,
            ),
        ),
{
    let newline = "\n";
    let dashes = "---";
    proof {
        reveal_strlit("\n");
        reveal_strlit("---");
    }
    let out_lines = split_text(output, newline);
    let ghost lines = split_by(output@, "\n"@);
    let mut found = false;
    let mut i: usize = 0;
    while i < out_lines.len() && !found
        invariant
            texts(out_lines@) == lines,
            lines == split_by(output@, "\n"@),
            dashes@ == "---"@,
            dashes@.len() > 0,
            i <= out_lines@.len(),
            found ==> deb_found(output@, opt_text(version)),
            !found ==> forall|j: int| 0 <= j < i ==> !#[trigger] deb_line_matches(lines[j], opt_text(version)),
        decreases out_lines@.len() - i + (if found { 0int } else { 1int }),
    {
        let line_array = split_text(out_lines[i].as_str(), dashes);
        proof {
            assert(lines[i as int] == out_lines@[i as int]@);
            lemma_split_nonempty(out_lines@[i as int]@, "---"@);
        }
        if text_eq(line_array[0].as_str(), "install ok installed") {
            match version {
                Some(v) => {
                    if line_array.len() == 2 && text_eq(v, line_array[1].as_str()) {
                        found = true;
                    }
                },
                None => {
                    found = true;
                },
            }
        }
        proof {
            if found {
                assert(deb_line_matches(lines[i as int], opt_text(version)));
            }
        }
        if !found {
            i = i + 1;
        }
    }
    proof {
        if !found {
            assert(!deb_found(output@, opt_text(version)));
        }
    }
    record_verdict(package, version, installed, found, result);
}

/// Checks a package against the output of the RPM query for it
/// (`rpm -q --queryformat '%{name}---%{version}' <package>`).
pub fn check_rpm(
    package: &str,
    version: Option<&str>,
    installed: bool,
    output: &str,
    result: &mut TestResult,
)
    requires
        old(result).success < i32::MAX,
        old(result).error < i32::MAX,
    ensures
        final(result)@ == old(result)@.record(
            package_outcome(
                expected_text(package@, opt_text(version), installed),
                rpm_found(output@, package@, opt_text(version)),
                installed,
            ),
        ),
{
    let dashes = "---";
    proof {
        reveal_strlit("---");
    }
    let mut found = false;
    match version {
        Some(v) => {
            let mut wanted = package.to_string();
            wanted.append(dashes);
            wanted.append(v);
            if text_eq(output, wanted.as_str()) {
                found = true;
            }
        },
        None => {
            let out_array = split_text(output, dashes);
            proof {
                lemma_split_nonempty(output@, "---"@);
            }
            if text_eq(out_array[0].as_str(), package) {
                found = true;
            }
        },
    }
    record_verdict(package, version, installed, found, result);
}

/// Records that no package manager is known to check the package with.
pub fn package_manager_not_found(
    package: &str,
    version: Option<&str>,
    installed: bool,
    result: &mut TestResult,
)
    requires
        old(result).error < i32::MAX,
    ensures
        final(result)@ == old(result)@.record(
            no_manager_outcome(expected_text(package@, opt_text(version), installed)),
        ),
{
    let test_name = "package";
    let expected_string = expected_description(package, version, installed);
    record_error(
        result,
        test_name.to_string(),
        expected_string,
        "package manager not found".to_string(),
        "lothaire failed to determine your package manager".to_string(),
    );
}

/// The outcome of a package check with the given package manager and the
/// output of its query.
pub open spec fn package_verdict(
    manager: PackageManager,
    out: Seq<char>,
    package: Seq<char>,
    version: Option<Seq<char>>,
    installed: bool,
) -> Outcome {
    let expected = expected_text(package, version, installed);
    match manager {
        PackageManager::Rpm => package_outcome(expected, rpm_found(out, package, version), installed),
        PackageManager::Deb => package_outcome(expected, deb_found(out, version), installed),
        PackageManager::Unknown => no_manager_outcome(expected),
    }
}

/// The text of a query's output, empty where the query failed.
pub open spec fn output_text(output: Result<String, io::Error>) -> Seq<char> {
    match output {
        Ok(s) => s@,
        Err(_) => Seq::empty(),
    }
}

/// Checks that `package` is installed or not as `installed` says, in
/// `version` if one is given. `output` is what the query of `manager`
/// printed, or why it could not run; it is not read where the manager is
/// unknown.
pub fn check(
    package: &str,
    installed: &str,
    version: Option<&str>,
    manager: PackageManager,
    output: Result<String, io::Error>,
) -> (r: Result<TestResult, PackageError>)
    ensures
        !is_bool_text(installed@) ==> r matches Err(PackageError::ParseBool(_)),
        is_bool_text(installed@) && !(manager is Unknown) && output is Err ==> r matches Err(
            PackageError::Io(_),
        ),
        is_bool_text(installed@) && (manager is Unknown || output is Ok) ==> (r matches Ok(t)
            && t@ == Report::empty().record(
            package_verdict(
                manager,
                output_text(output),
                package@,
                opt_text(version),
                installed@ == "true"@,
            ),
        )),
{
    let installed_bool = match parse_bool_text(installed) {
        Ok(b) => b,
        Err(e) => {
            return Err(PackageError::ParseBool(e));
        },
    };
    let mut result = TestResult { success: 0, error: 0, summary: Vec::new() };
    assert(result@.outcomes =~= Seq::<Outcome>::empty());
    match manager {
        PackageManager::Rpm => match output {
            Ok(out) => check_rpm(package, version, installed_bool, out.as_str(), &mut result),
            Err(e) => {
                return Err(PackageError::Io(e));
            },
        },
        PackageManager::Deb => match output {
            Ok(out) => check_deb(package, version, installed_bool, out.as_str(), &mut result),
            Err(e) => {
                return Err(PackageError::Io(e));
            },
        },
        PackageManager::Unknown => package_manager_not_found(
            package,
            version,
            installed_bool,
            &mut result,
        ),
    }
    Ok(result)
}

} // verus!
