//! Batched eager loading for trees of parent/child entities.
//!
//! The crate has two tightly coupled pieces: a type-keyed, hit/miss-counting
//! cache ([`Cache`]) that lets many relationship kinds share one id space
//! without collisions, and a level-by-level loading orchestrator (the
//! [`EagerLoadChildrenOfType`] and [`EagerLoadAllChildren`] traits) that
//! resolves one declared child relationship for a whole level of nodes at a
//! time: it projects child ids from the source models, answers as many as it
//! can from the cache, fetches the remaining distinct ids in one batched call,
//! stores the fetched models back, recurses into the grandchildren, and then
//! writes each node's relationship slot ([`DbEdge`], [`OptionDbEdge`] or
//! [`VecDbEdge`]).

pub mod cache;
pub mod edge;
pub mod load;
pub mod prelude;
pub mod sample;

pub use cache::Cache;
pub use cache::CacheInner;
pub use cache::DynamicCache;
pub use edge::DbEdge;
pub use edge::Error;
pub use edge::OptionDbEdge;
pub use edge::VecDbEdge;
pub use load::ChildRelation;
pub use load::EagerLoadAllChildren;
pub use load::EagerLoadChildrenOfType;
pub use load::GenericQueryTrail;
pub use load::GraphqlNodeForModel;
pub use load::LoadFromIds;
pub use load::LoadResult;
