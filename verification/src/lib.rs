//! Quantum Pauli operators.
//!
//! The single-qubit operators `I`, `X`, `Y` and `Z`, the phases
//! 1, -1, i and -i, and multi-qubit operators in a sparse form
//! (phase ignored) and in a dense form (phase tracked exactly).

pub mod dense;
pub mod entries;
pub mod operator;
pub mod pauli;
pub mod phase;
pub mod store;
pub mod strings;

pub use dense::DensePauliOperator;
pub use operator::{PauliError, PauliOperator};
pub use pauli::Pauli;
pub use pauli::Pauli::{I, X, Y, Z};
pub use phase::Phase;
