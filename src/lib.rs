//! Two-dimensional grids over several storage layouts, with symmetric bulk writes
//! for building masks and convolution kernels.
pub mod const_matrix;
pub mod laws;
pub mod matrix_packed;
pub mod random;
pub mod traits;
pub mod vec_matrix;
pub mod weight;

pub use traits::{
    GridError, Matrix, MatrixDefault, MatrixNew, MatrixRandom, MatrixStdConv, Symmetry, Weight,
};
pub use const_matrix::ConstMatrix;
pub use matrix_packed::MatrixPacked;
pub use vec_matrix::VecMatrix;
