//! Evaluation of expressions over the three-dimensional Euclidean geometric
//! algebra: basis blades and their products, multivectors with exact integer
//! coefficients, and an evaluator for expression trees against named values.
#![allow(non_snake_case)]

pub mod blade;
pub mod multivector;
pub mod expr;
pub mod env;
pub mod eval;
pub mod laws;
pub mod text;
