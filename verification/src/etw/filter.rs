//! The filter conditions under short names: `filter::DoesMatch(id)`.

pub use crate::etw::types::FilterCondition::{DoesMatch, DoesNotMatch};
