//! Dense column-major matrices: storage layout, shape-checked construction,
//! elementwise and reducing traversals, transposition, and the bookkeeping
//! around matrix products, singular value decompositions and Procrustes
//! alignment.
//!
//! The element type is a parameter and so is every arithmetic operator and
//! every numeric kernel: a caller brings the numbers, the operators on them
//! and the routines that multiply and decompose. What is fixed, and proved,
//! is where each element lives, which elements an operation reads and
//! writes, what is handed to a kernel and in which order, and what each of
//! its answers leads to.

pub mod index;
pub mod matrix;
pub mod factories;
pub mod shape;
pub mod vectors;
pub mod transpose;
pub mod elementwise;
pub mod reduce;
pub mod multiply;
pub mod protocol;
pub mod svd;
pub mod lanczos;
pub mod las;
pub mod decompose;
pub mod gpa;
