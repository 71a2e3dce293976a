use ffsvm::{
    coefficient_row, padded_width, Attribute, Header, ModelFile, Problem, SVMError, SupportVector,
    Triangular, LANES, SVM,
};

fn vector(coef: f64, values: &[f32]) -> SupportVector {
    SupportVector {
        coefs: vec![coef.to_bits()],
        features: values
            .iter()
            .enumerate()
            .map(|(i, v)| Attribute { index: i as u32, value: v.to_bits() })
            .collect(),
    }
}

/// Two classes labelled 0 and 12, four attributes, gamma 1, one support vector per class at
/// the origin and at (1, 1, 1, 1), coefficients +1 and −1, rho 0.
fn two_class_file() -> ModelFile {
    ModelFile {
        header: Header {
            svm_type: "c_svc".to_string(),
            kernel_type: "rbf".to_string(),
            gamma: Some(1.0f32.to_bits()),
            nr_class: 2,
            total_sv: 2,
            rho: vec![0.0f64.to_bits()],
            label: vec![0, 12],
            prob_a: None,
            prob_b: None,
            nr_sv: vec![1, 1],
        },
        vectors: vec![vector(1.0, &[0.0, 0.0, 0.0, 0.0]), vector(-1.0, &[1.0, 1.0, 1.0, 1.0])],
    }
}

#[test]
fn triangular_slots_follow_reading_order() {
    let mut t = Triangular::with_dimension(4, 0u64);
    assert_eq!(t.len(), 6);
    assert_eq!(t.dimension(), 4);
    t.set(1, 0, 10);
    t.set(2, 0, 20);
    t.set(2, 1, 21);
    t.set(3, 2, 32);
    assert_eq!(t.get_slot(0), 10);
    assert_eq!(t.get_slot(1), 20);
    assert_eq!(t.get_slot(2), 21);
    assert_eq!(t.get_slot(5), 32);
    assert_eq!(ffsvm::triangular::pair_index(3, 1, 4), 4);
    assert_eq!(ffsvm::triangular::pair_count_of(5), 10);
}

#[test]
fn triangular_from_vec_checks_length() {
    assert!(Triangular::from_vec(3, vec![1u64, 2, 3]).is_some());
    assert!(Triangular::from_vec(3, vec![1u64, 2]).is_none());
    assert!(Triangular::from_vec(1, Vec::<u64>::new()).is_some());
}

#[test]
fn padded_width_rounds_up_to_lanes() {
    assert_eq!(LANES, 8);
    assert_eq!(padded_width(0), 0);
    assert_eq!(padded_width(1), 8);
    assert_eq!(padded_width(4), 8);
    assert_eq!(padded_width(8), 8);
    assert_eq!(padded_width(9), 16);
}

#[test]
fn coefficient_rows_skip_own_class() {
    assert_eq!(coefficient_row(2, 0), 0);
    assert_eq!(coefficient_row(2, 1), 1);
    assert_eq!(coefficient_row(0, 1), 0);
    assert_eq!(coefficient_row(0, 2), 1);
    assert_eq!(coefficient_row(1, 2), 1);
}

#[test]
fn builds_two_class_model() {
    let svm = SVM::try_from(&two_class_file()).unwrap();
    assert_eq!(svm.classes(), 2);
    assert_eq!(svm.attributes(), 4);
    assert_eq!(svm.num_total_sv(), 2);
    assert_eq!(svm.rho().len(), 1);
    assert_eq!(svm.kernel().gamma, 1.0f32.to_bits());
    assert_eq!(svm.class_label_for_index(1), Some(12));
    assert_eq!(svm.class_label_for_index(2), None);
    assert_eq!(svm.class_index_for_label(12), Some(1));
    assert_eq!(svm.class_index_for_label(7), None);
    let second = svm.class(1);
    assert_eq!(second.label(), 12);
    assert_eq!(second.num_support_vectors(), 1);
    assert_eq!(second.coefficients(0), &vec![(-1.0f64).to_bits()]);
    let rows = second.support_vectors();
    assert_eq!(rows.num_rows(), 1);
    assert_eq!(rows.width(), 8);
    let one = 1.0f32.to_bits();
    assert_eq!(rows.row(0), &vec![one, one, one, one, 0, 0, 0, 0]);
}

#[test]
fn attribute_gap_is_rejected() {
    let mut file = two_class_file();
    file.vectors[1].features = vec![
        Attribute { index: 0, value: 1.0f32.to_bits() },
        Attribute { index: 1, value: 1.0f32.to_bits() },
        Attribute { index: 3, value: 0.5f32.to_bits() },
    ];
    assert_eq!(
        SVM::try_from(&file).err(),
        Some(SVMError::SvmAttributesUnordered { index: 3, value: 0.5f32.to_bits(), last_index: 1 })
    );
}

#[test]
fn first_gap_in_reading_order_is_reported() {
    let mut file = two_class_file();
    file.vectors[0].features[2].index = 5;
    file.vectors[1].features[1].index = 7;
    assert_eq!(
        SVM::try_from(&file).err(),
        Some(SVMError::SvmAttributesUnordered { index: 5, value: 0, last_index: 1 })
    );
}

#[test]
fn missing_gamma_is_rejected() {
    let mut file = two_class_file();
    file.header.gamma = None;
    assert_eq!(SVM::try_from(&file).err(), Some(SVMError::NoGamma));
    assert_eq!(ffsvm::Rbf::try_from(&file).err(), Some(SVMError::NoGamma));
}

#[test]
fn other_machines_are_rejected() {
    let mut file = two_class_file();
    file.header.kernel_type = "linear".to_string();
    assert_eq!(SVM::try_from(&file).err(), Some(SVMError::UnsupportedKernelType));
    file.header.svm_type = "nu_svc".to_string();
    assert_eq!(SVM::try_from(&file).err(), Some(SVMError::UnsupportedSvmType));
}

#[test]
fn mismatched_counts_are_rejected() {
    let mut file = two_class_file();
    file.header.nr_sv = vec![1, 2];
    assert_eq!(SVM::try_from(&file).err(), Some(SVMError::ShapeMismatch));

    let mut file = two_class_file();
    file.header.rho = vec![];
    assert_eq!(SVM::try_from(&file).err(), Some(SVMError::ShapeMismatch));

    let mut file = two_class_file();
    file.header.prob_a = Some(vec![0]);
    assert_eq!(SVM::try_from(&file).err(), Some(SVMError::ShapeMismatch));

    let mut file = two_class_file();
    file.vectors[1].features.pop();
    assert_eq!(SVM::try_from(&file).err(), Some(SVMError::ShapeMismatch));

    let mut file = two_class_file();
    file.vectors[0].coefs.push(0);
    assert_eq!(SVM::try_from(&file).err(), Some(SVMError::ShapeMismatch));
}

#[test]
fn calibration_is_optional() {
    let svm = SVM::try_from(&two_class_file()).unwrap();
    assert!(matches!(svm.probabilities(), Err(SVMError::ModelDoesNotSupportProbabilities)));

    let mut file = two_class_file();
    file.header.prob_a = Some(vec![(-2.0f64).to_bits()]);
    file.header.prob_b = Some(vec![0.5f64.to_bits()]);
    let svm = SVM::try_from(&file).unwrap();
    let p = svm.probabilities().unwrap();
    assert_eq!(p.a().get(1, 0), (-2.0f64).to_bits());
    assert_eq!(p.b().get(1, 0), 0.5f64.to_bits());
}

#[test]
fn new_problem_is_padded_and_zeroed() {
    let svm = SVM::try_from(&two_class_file()).unwrap();
    let problem = Problem::new(&svm);
    assert_eq!(problem.features.len() % LANES, 0);
    assert_eq!(problem.features.len(), 8);
    assert!(problem.features.iter().all(|f| f32::from_bits(*f) == 0.0));
    assert_eq!(problem.kernel_values.len(), 2);
    assert_eq!(problem.kernel_values[0].len(), 1);
    assert_eq!(problem.decision_values.len(), 1);
    assert_eq!(problem.vote.len(), 2);
    assert_eq!(problem.pairwise.len(), 2);
    assert_eq!(problem.q[1].len(), 2);
    assert_eq!(problem.probabilities.len(), 2);
}

#[test]
fn loading_features_clears_padding() {
    let svm = SVM::try_from(&two_class_file()).unwrap();
    let mut dirty = Problem::new(&svm);
    dirty.features[6] = 9.0f32.to_bits();
    let mut clean = Problem::new(&svm);
    let values: Vec<u32> = [0.55838f32, -0.157895, 0.581292, -0.221184].iter().map(|v| v.to_bits()).collect();
    dirty.load_features(&values);
    clean.load_features(&values);
    assert_eq!(dirty.features, clean.features);
    assert_eq!(&dirty.features[..4], &values[..]);
    assert_eq!(dirty.features[6], 0);
}
