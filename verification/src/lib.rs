//! An I/O object that follows a predefined script.

pub mod action;
pub mod ascii;
pub mod builder;
pub mod channel;
pub mod duration;
pub mod error;
pub mod failure;
pub mod handle;
pub mod inner;
pub mod laws;
pub mod mock;
pub mod outcome;
pub mod scenario;
pub mod script;
pub mod text;
pub mod text_scenario;

pub use action::{Action, ActionView};
pub use builder::{Builder, BuilderView};
pub use duration::Duration;
pub use error::{ErrorKind, IoError};
pub use failure::{Failure, Refusal};
pub use handle::{Disconnected, Handle, ScenarioError};
pub use inner::{Chunk, Inner};
pub use mock::{Event, Incoming, Mock, Step};
pub use outcome::{MockOutcome, MockOutcomeError};
pub use text_scenario::ParseError;
