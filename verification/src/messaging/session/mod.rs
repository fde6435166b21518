//! Session-contract placeholders.

pub mod projection;

pub use self::projection::ProjectionPlanPlaceholder;
