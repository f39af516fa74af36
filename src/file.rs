//! Checks on files.
use crate::report::{bool_text, bool_word, record_error, record_success, Outcome, TestResult};
use vstd::prelude::*;

verus! {

/// The outcome of checking that a path is a regular file.
pub open spec fn file_type_outcome(regular: bool, directory: bool) -> Outcome {
    if regular {
        Outcome::Passed { test: "file - type"@, expected: "is a file: true"@ }
    } else {
        Outcome::Failed {
            test: "file - type"@,
            expected: "is a file: true"@,
            actual: "is a directory: "@ + bool_text(directory),
            message: "The file is a directory"@,
        }
    }
}

/// Checks that a path is a regular file; `regular` and `directory` are what
/// its metadata says.
pub fn is_file(regular: bool, directory: bool, result: &mut TestResult)
    requires
        old(result).success < i32::MAX,
        old(result).error < i32::MAX,
    ensures
        final(result)@ == old(result)@.record(file_type_outcome(regular, directory)),
{
    let test_name = "file - type";
    if regular {
        record_success(result, test_name.to_string(), "is a file: true".to_string());
    } else {
        let mut actual = "is a directory: ".to_string();
        actual.append(bool_word(directory));
        record_error(
            result,
            test_name.to_string(),
            "is a file: true".to_string(),
            actual,
            "The file is a directory".to_string(),
        );
    }
}

} // verus!
