//! Cross-entropy-method policy search over a small feed-forward network.
//!
//! The network and the optimizer are generic over a [`scalar::Scalar`]
//! element type. Their contracts state every result through the element
//! type's specification counterparts: the forward pass, the elite
//! selection, and the refit of the search distribution.

pub mod error;
pub mod scalar;
pub mod fcn;
pub mod elite;
pub mod ceo;
