//! Outcomes of single comparisons and the report that gathers them.
use vstd::prelude::*;

verus! {

/// A comparison whose actual value differed from the expected one.
#[derive(Debug)]
pub struct UnitError {
    pub test: String,
    pub expected: String,
    pub actual: String,
    pub message: String,
}

/// A comparison whose actual value was the expected one.
#[derive(Debug)]
pub struct UnitSuccess {
    pub test: String,
    pub expected: String,
}

/// The outcome of one comparison.
#[derive(Debug)]
pub enum UnitResult {
    Error(UnitError),
    Success(UnitSuccess),
}

/// The outcomes of one check, in order, with the number of each kind.
#[derive(Debug)]
pub struct TestResult {
    pub success: i32,
    pub error: i32,
    pub summary: Vec<UnitResult>,
}

/// The model of an outcome.
pub enum Outcome {
    Passed { test: Seq<char>, expected: Seq<char> },
    Failed { test: Seq<char>, expected: Seq<char>, actual: Seq<char>, message: Seq<char> },
}

/// The model of a report.
pub struct Report {
    pub success: int,
    pub error: int,
    pub outcomes: Seq<Outcome>,
}

impl View for UnitResult {
    type V = Outcome;

    open spec fn view(&self) -> Outcome {
        match self {
            UnitResult::Error(e) => Outcome::Failed {
                test: e.test@,
                expected: e.expected@,
                actual: e.actual@,
                message: e.message@,
            },
            UnitResult::Success(s) => Outcome::Passed { test: s.test@, expected: s.expected@ },
        }
    }
}

impl View for TestResult {
    type V = Report;

    open spec fn view(&self) -> Report {
        Report {
            success: self.success as int,
            error: self.error as int,
            outcomes: self.summary@.map_values(|u: UnitResult| u@),
        }
    }
}

impl Report {
    /// A report with no outcome.
    pub open spec fn empty() -> Report {
        Report { success: 0, error: 0, outcomes: Seq::empty() }
    }

    /// The counters agree with the outcomes.
    pub open spec fn wf(self) -> bool {
        &&& self.success >= 0
        &&& self.error >= 0
        &&& self.success + self.error == self.outcomes.len()
    }

    /// The report after one more outcome.
    pub open spec fn record(self, o: Outcome) -> Report {
        match o {
            Outcome::Passed { .. } => Report {
                success: self.success + 1,
                error: self.error,
                outcomes: self.outcomes.push(o),
            },
            Outcome::Failed { .. } => Report {
                success: self.success,
                error: self.error + 1,
                outcomes: self.outcomes.push(o),
            },
        }
    }
}

/// Recording an outcome keeps the counters in agreement with the outcomes:
/// success plus error is the number of outcomes after every record.
pub proof fn lemma_record_keeps_count(r: Report, o: Outcome)
    requires
        r.wf(),
    ensures
        r.record(o).wf(),
        r.record(o).outcomes.len() == r.outcomes.len() + 1,
        r.record(o).success + r.record(o).error == r.success + r.error + 1,
{
}

/// `true` or `false`, as text.
pub open spec fn bool_text(b: bool) -> Seq<char> {
    if b {
        "true"@
    } else {
        "false"@
    }
}

/// `true` or `false`.
pub fn bool_word(b: bool) -> (r: &'static str)
    ensures
        r@ == bool_text(b),
{
    if b {
        "true"
    } else {
        "false"
    }
}

/// The outcome of an existence comparison: `found` is what the system shows,
/// `exists` what was expected; `present` and `absent` are the messages for
/// an unexpected presence and an unexpected absence.
pub open spec fn existence_outcome(
    test: Seq<char>,
    found: bool,
    exists: bool,
    present: Seq<char>,
    absent: Seq<char>,
) -> Outcome {
    if found == exists {
        Outcome::Passed { test, expected: bool_text(exists) }
    } else if found {
        Outcome::Failed { test, expected: "false"@, actual: "true"@, message: present }
    } else {
        Outcome::Failed { test, expected: "true"@, actual: "false"@, message: absent }
    }
}

/// Each of the four cases of an existence comparison gives one outcome: a
/// success that expects what was found where presence and expectation
/// agree, and otherwise an error whose expected and actual values are
/// `true` and `false` as text.
pub proof fn lemma_existence_cases(test: Seq<char>, present: Seq<char>, absent: Seq<char>)
    ensures
        existence_outcome(test, false, false, present, absent) == (Outcome::Passed {
            test,
            expected: "false"@,
        }),
        existence_outcome(test, true, true, present, absent) == (Outcome::Passed {
            test,
            expected: "true"@,
        }),
        existence_outcome(test, true, false, present, absent) == (Outcome::Failed {
            test,
            expected: "false"@,
            actual: "true"@,
            message: present,
        }),
        existence_outcome(test, false, true, present, absent) == (Outcome::Failed {
            test,
            expected: "true"@,
            actual: "false"@,
            message: absent,
        }),
{
}

/// Appends a success and counts it.
pub fn record_success(result: &mut TestResult, test: String, expected: String)
    requires
        old(result).success < i32::MAX,
    ensures
        final(result)@ == old(result)@.record(Outcome::Passed { test: test@, expected: expected@ }),
{
    let ghost o = Outcome::Passed { test: test@, expected: expected@ };
    let ghost before = result.summary@;
    result.success = result.success + 1;
    result.summary.push(UnitResult::Success(UnitSuccess { test, expected }));
    assert(result.summary@.map_values(|u: UnitResult| u@) =~= before.map_values(
        |u: UnitResult| u@,
    ).push(o));
}

/// Appends an error and counts it.
pub fn record_error(
    result: &mut TestResult,
    test: String,
    expected: String,
    actual: String,
    message: String,
)
    requires
        old(result).error < i32::MAX,
    ensures
        final(result)@ == old(result)@.record(
            Outcome::Failed {
                test: test@,
                expected: expected@,
                actual: actual@,
                message: message@,
            },
        ),
{
    let ghost o = Outcome::Failed {
        test: test@,
        expected: expected@,
        actual: actual@,
        message: message@,
    };
    let ghost before = result.summary@;
    result.error = result.error + 1;
    result.summary.push(UnitResult::Error(UnitError { test, expected, actual, message }));
    assert(result.summary@.map_values(|u: UnitResult| u@) =~= before.map_values(
        |u: UnitResult| u@,
    ).push(o));
}

/// Compares the presence of an element with the expectation `exists`, and
/// records the outcome under `test_name`.
pub fn check_exists<T>(value: &Option<T>, exists: bool, result: &mut TestResult, test_name: String)
    requires
        old(result).success < i32::MAX,
        old(result).error < i32::MAX,
    ensures
        final(result)@ == old(result)@.record(
            existence_outcome(
                test_name@,
                value is Some,
                exists,
                "the element exists"@,
                "the element doesn't exists"@,
            ),
        ),
{
    match (value.is_some(), exists) {
        (true, false) => {
            record_error(
                result,
                test_name,
                "false".to_string(),
                "true".to_string(),
                "the element exists".to_string(),
            );
        },
        (false, false) => {
            record_success(result, test_name, "false".to_string());
        },
        (false, true) => {
            record_error(
                result,
                test_name,
                "true".to_string(),
                "false".to_string(),
                "the element doesn't exists".to_string(),
            );
        },
        (true, true) => {
            record_success(result, test_name, "true".to_string());
        },
    }
}

} // verus!
