//! Status codes of the C interface and the checks on a batch of queries.
use vstd::prelude::*;

verus! {

/// Outcomes reported over the C interface.
#[derive(Debug, Clone, Copy, PartialEq, Eq, Structural)]
pub enum Status {
    Success,
    NullPointerPassed,
    NoValidUTF8,
    ModelParseError,
    SVMCreationError,
    SVMNoModel,
    SVMModelAlreadyLoaded,
    ProblemPoolTooSmall,
    ProblemLengthNotMultipleOfAttributes,
    LabelLengthDoesNotEqualProblems,
}

impl Status {
    /// The integer a C caller sees: zero for success, negative otherwise.
    pub open spec fn code_spec(self) -> int {
        match self {
            Status::Success => 0,
            Status::NullPointerPassed => -1,
            Status::NoValidUTF8 => -2,
            Status::ModelParseError => -20,
            Status::SVMCreationError => -30,
            Status::SVMNoModel => -31,
            Status::SVMModelAlreadyLoaded => -32,
            Status::ProblemPoolTooSmall => -40,
            Status::ProblemLengthNotMultipleOfAttributes => -41,
            Status::LabelLengthDoesNotEqualProblems => -42,
        }
    }

    /// The integer a C caller sees: zero for success, negative otherwise.
    pub fn code(self) -> (r: i32)
        ensures
            r == self.code_spec(),
    {
        match self {
            Status::Success => 0,
            Status::NullPointerPassed => -1,
            Status::NoValidUTF8 => -2,
            Status::ModelParseError => -20,
            Status::SVMCreationError => -30,
            Status::SVMNoModel => -31,
            Status::SVMModelAlreadyLoaded => -32,
            Status::ProblemPoolTooSmall => -40,
            Status::ProblemLengthNotMultipleOfAttributes => -41,
            Status::LabelLengthDoesNotEqualProblems => -42,
        }
    }
}

/// The number of problems in a batch of `features_len` values of `num_attributes` each,
/// checked against a pool of `max_problems` and a label buffer of `labels_len`: in this order,
/// the length must be a whole multiple of the attribute count, the batch must fit the pool,
/// and there must be one label per problem.
pub fn batch_size(features_len: usize, num_attributes: usize, max_problems: usize, labels_len: usize) -> (r:
    Result<usize, Status>)
    requires
        num_attributes > 0,
    ensures
        features_len % num_attributes != 0 ==> r == Err::<usize, Status>(Status::ProblemLengthNotMultipleOfAttributes),
        features_len % num_attributes == 0 && features_len / num_attributes > max_problems
            ==> r == Err::<usize, Status>(Status::ProblemPoolTooSmall),
        features_len % num_attributes == 0 && features_len / num_attributes <= max_problems
            && features_len / num_attributes != labels_len
            ==> r == Err::<usize, Status>(Status::LabelLengthDoesNotEqualProblems),
        features_len % num_attributes == 0 && features_len / num_attributes <= max_problems
            && features_len / num_attributes == labels_len ==> r == Ok::<usize, Status>(labels_len),
{
    if features_len % num_attributes != 0 {
        return Err(Status::ProblemLengthNotMultipleOfAttributes);
    }
    let num_problems = features_len / num_attributes;
    if num_problems > max_problems {
        Err(Status::ProblemPoolTooSmall)
    } else if num_problems != labels_len {
        Err(Status::LabelLengthDoesNotEqualProblems)
    } else {
        Ok(num_problems)
    }
}

/// The pool size may change only while no model is loaded.
pub fn set_max_problems(model_loaded: bool, current: usize, requested: usize) -> (r: (usize, Status))
    ensures
        model_loaded ==> r == (current, Status::SVMModelAlreadyLoaded),
        !model_loaded ==> r == (requested, Status::Success),
{
    if model_loaded {
        (current, Status::SVMModelAlreadyLoaded)
    } else {
        (requested, Status::Success)
    }
}

} // verus!
