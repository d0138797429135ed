//! A small numeric toolkit: dense rectangular matrices whose transforms are
//! computed one output row (or column) at a time as independent units of
//! work, complex-number arithmetic over a generic numeric element, and an
//! integer square root.
//!
//! Every unit of work and every whole-matrix transform carries a contract
//! that pins its result as a function of the operand values alone, so a
//! scheduler that farms the units out to parallel workers and joins them
//! cannot change the matrix that comes out.
pub mod basic;
pub mod complex;
pub mod matrix;
pub mod numeric;
