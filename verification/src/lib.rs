//! Binomial-lattice pricing of options with path-dependent payoffs and
//! early exercise, generic over the number type it computes with.

pub mod lattice;
pub mod laws;
pub mod model;
pub mod params;
pub mod scalar;
pub mod valuation;

pub use crate::lattice::Lattice;
pub use crate::model::PricingModel;
pub use crate::model::PricingResult;
pub use crate::model::Valuation;
pub use crate::params::PathParameters;
pub use crate::params::StepQuantities;
pub use crate::scalar::Scalar;
