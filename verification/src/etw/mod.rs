//! Event Tracing for Windows: event records, trace session configuration,
//! event dispatch and provider manifests.

pub mod types;
pub mod event_parser;
pub mod errors;
pub mod session;
pub mod user;
pub mod kernel;
pub mod manifest_parser;
pub mod filter;

pub use event_parser::EventParser;
pub use errors::EtwError;
pub use kernel::KernelTrace;
pub use manifest_parser::{EventProperty, EventSchema, ManifestParser};
pub use session::TraceSession;
pub use types::{Event, ExtendedDataItem, FilterCondition};
pub use user::{EventFilter, LogLevel, UserTrace};
