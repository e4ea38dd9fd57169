//! CDT triangulation state: a mesh paired with CDT metadata and foliation
//! bookkeeping, with the queries and validation passes that read them.

pub mod builders;
pub mod checks;
pub mod filtering;
pub mod labeling;
pub mod queries;
pub mod state;
pub mod validation;

pub use state::{CdtSimplexCounts, CdtTriangulation};
