//! Re-exports the traits needed for doing eager loading.

pub use crate::load::EagerLoadAllChildren;
pub use crate::load::EagerLoadChildrenOfType;
pub use crate::load::GraphqlNodeForModel;
