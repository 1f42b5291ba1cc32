//! Core of a personal media-tracking service: the relational entity model
//! (users, metadata items, reviews, summaries) with cascading lifecycle
//! rules, the post-insert association trigger, the per-user statistics
//! aggregation engine, and the registry that composes the per-domain
//! operation sets into one query root and one mutation root.

pub mod error;
pub mod features;
pub mod ids;
pub mod laws;
pub mod model;
pub mod schema;
pub mod store;
pub mod summary;

pub use error::StoreError;
pub use features::CoreDetails;
pub use features::CoreFeatureEnabled;
pub use features::GeneralCoreFeatureEnabled;
pub use features::MetadataCoreFeatureEnabled;
pub use ids::Identifier;
pub use ids::Rating;
pub use model::Model;
pub use model::Relation;
pub use model::Summary;
pub use schema::IdObject;
pub use schema::MutationRoot;
pub use schema::QueryRoot;
