//! A registry of event handlers by the name of their event.

pub mod errors;
pub mod events;

pub use errors::RegisterError;
pub use events::EventSource;
