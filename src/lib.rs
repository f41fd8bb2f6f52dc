//! Emission of quantum programs: a program model of named registers, qubits
//! and instructions is turned into the ordered sequence of IR operations that
//! make up the program's single entry function, and those operations are then
//! appended to an LLVM module.
pub mod model;
pub mod ir;
pub mod emit;
pub mod laws;
pub mod lower;
