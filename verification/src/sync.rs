//! Refreshing local data from FIFA: what can be refreshed, when a refresh is
//! due, and how concurrent refresh requests are coordinated.

pub mod resource;

pub use resource::ResourceKey;
pub mod policy;

pub use policy::{RefreshPolicyDecision, RefreshPolicyReason, ScheduleContext};
pub mod coordinator;

pub use coordinator::{CoordinatorState, CoordinatorStep, RefreshEvent, RefreshReason, RefreshRequest};
