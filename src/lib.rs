//! Inference-side data model of a one-vs-one RBF support vector machine:
//! model intake and packed layout, per-query scratch, and vote aggregation.
pub mod batch;
pub mod layout;
pub mod model;
pub mod predict;
pub mod problem;
pub mod triangular;

pub use batch::{batch_size, set_max_problems, Status};
pub use layout::{coefficient_row, padded_width, PackedRows, LANES};
pub use model::{
    Attribute, Class, Header, ModelFile, Probabilities, Rbf, RbfCSVM, SVMError, SupportVector, SVM,
};
pub use predict::{
    check_iterations, first_max_index, label_from_probabilities, max_iterations, positive, vote,
};
pub use problem::Problem;
pub use triangular::Triangular;
