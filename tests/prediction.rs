use ffsvm::{
    batch_size, check_iterations, first_max_index, label_from_probabilities, max_iterations,
    positive, set_max_problems, vote, Status,
    Attribute, Header, ModelFile, Problem, SVMError, SupportVector, SVM,
};

/// Three classes labelled 5, 6, 7, one support vector each, two attributes.
fn three_class_model() -> SVM {
    let sv = |v: f32| SupportVector {
        coefs: vec![1.0f64.to_bits(), 1.0f64.to_bits()],
        features: vec![
            Attribute { index: 0, value: v.to_bits() },
            Attribute { index: 1, value: v.to_bits() },
        ],
    };
    let file = ModelFile {
        header: Header {
            svm_type: "c_svc".to_string(),
            kernel_type: "rbf".to_string(),
            gamma: Some(0.5f32.to_bits()),
            nr_class: 3,
            total_sv: 3,
            rho: vec![0; 3],
            label: vec![5, 6, 7],
            prob_a: None,
            prob_b: None,
            nr_sv: vec![1, 1, 1],
        },
        vectors: vec![sv(0.0), sv(1.0), sv(2.0)],
    };
    SVM::try_from(&file).unwrap()
}

fn decide(svm: &SVM, d10: f64, d20: f64, d21: f64) -> Problem {
    let mut problem = Problem::new(svm);
    problem.decision_values.set(1, 0, d10.to_bits());
    problem.decision_values.set(2, 0, d20.to_bits());
    problem.decision_values.set(2, 1, d21.to_bits());
    vote(svm, &mut problem);
    problem
}

#[test]
fn positive_matches_float_comparison() {
    for x in [1.0f64, 0.0, -0.0, -1.0, f64::INFINITY, f64::NEG_INFINITY, f64::NAN, f64::MIN_POSITIVE, 1e-320] {
        assert_eq!(positive(x.to_bits()), x > 0.0, "{}", x);
    }
}

#[test]
fn votes_two_one_zero_pick_first_class() {
    let svm = three_class_model();
    let problem = decide(&svm, -1.0, -3.5, -0.25);
    assert_eq!(problem.vote, vec![2, 1, 0]);
    assert_eq!(problem.label, 5);
}

#[test]
fn votes_one_each_pick_first_class() {
    let svm = three_class_model();
    let problem = decide(&svm, 1.0, -1.0, 1.0);
    assert_eq!(problem.vote, vec![1, 1, 1]);
    assert_eq!(problem.label, 5);
}

#[test]
fn zero_decision_votes_for_second_of_pair() {
    let svm = three_class_model();
    let problem = decide(&svm, 0.0, 2.0, 3.0);
    assert_eq!(problem.vote, vec![1, 0, 2]);
    assert_eq!(problem.label, 7);
}

#[test]
fn voting_twice_gives_same_label() {
    let svm = three_class_model();
    let mut problem = decide(&svm, 1.0, 1.0, -1.0);
    let first = problem.label;
    vote(&svm, &mut problem);
    assert_eq!(problem.label, first);
    assert_eq!(problem.label, 6);
    assert_eq!(problem.vote, vec![0, 2, 1]);
}

#[test]
fn first_max_index_prefers_lowest_index() {
    assert_eq!(first_max_index(&vec![3, 9, 9, 1]), 1);
    assert_eq!(first_max_index(&vec![4]), 0);
    assert_eq!(first_max_index(&vec![2, 2, 2]), 0);
}

#[test]
fn label_follows_largest_probability() {
    let svm = three_class_model();
    let mut problem = Problem::new(&svm);
    problem.probabilities = vec![0.2f64.to_bits(), 0.5f64.to_bits(), 0.3f64.to_bits()];
    label_from_probabilities(&svm, &mut problem);
    assert_eq!(problem.label, 6);
    problem.probabilities = vec![0.4f64.to_bits(), 0.2f64.to_bits(), 0.4f64.to_bits()];
    label_from_probabilities(&svm, &mut problem);
    assert_eq!(problem.label, 5);
}

#[test]
fn iteration_cap_grows_with_classes() {
    assert_eq!(max_iterations(3), 1000);
    assert_eq!(max_iterations(10), 1000);
    assert_eq!(max_iterations(25), 2500);
    assert_eq!(check_iterations(999, 5), Ok(()));
    assert_eq!(check_iterations(1000, 5), Err(SVMError::MaxIterationsExceededPredictingProbabilities));
}

#[test]
fn batch_checks_follow_status_order() {
    assert_eq!(batch_size(12, 4, 3, 3), Ok(3));
    assert_eq!(batch_size(13, 4, 3, 3), Err(Status::ProblemLengthNotMultipleOfAttributes));
    assert_eq!(batch_size(16, 4, 3, 4), Err(Status::ProblemPoolTooSmall));
    assert_eq!(batch_size(8, 4, 3, 3), Err(Status::LabelLengthDoesNotEqualProblems));
    assert_eq!(batch_size(0, 4, 1, 0), Ok(0));
}

#[test]
fn status_codes_match_c_interface() {
    assert_eq!(Status::Success.code(), 0);
    assert_eq!(Status::NullPointerPassed.code(), -1);
    assert_eq!(Status::NoValidUTF8.code(), -2);
    assert_eq!(Status::ModelParseError.code(), -20);
    assert_eq!(Status::SVMCreationError.code(), -30);
    assert_eq!(Status::SVMNoModel.code(), -31);
    assert_eq!(Status::SVMModelAlreadyLoaded.code(), -32);
    assert_eq!(Status::ProblemPoolTooSmall.code(), -40);
    assert_eq!(Status::ProblemLengthNotMultipleOfAttributes.code(), -41);
    assert_eq!(Status::LabelLengthDoesNotEqualProblems.code(), -42);
}

#[test]
fn pool_size_is_fixed_once_loaded() {
    assert_eq!(set_max_problems(false, 1, 8), (8, Status::Success));
    assert_eq!(set_max_problems(true, 1, 8), (1, Status::SVMModelAlreadyLoaded));
}
