//! The engine of a terminal typing-speed test: the passage and its cursor,
//! the scoring of every keystroke, the sampled history of a run and the
//! timed session that ties them together. Nothing here draws or reads a key;
//! the caller feeds events in and renders what comes back.

pub mod clock;
pub mod engine;
pub mod laws;
pub mod log;
pub mod passage;
pub mod score;
pub mod session;

pub use crate::clock::{SessionClock, Tick};
pub use crate::log::{Log, Sample};
pub use crate::passage::{Cell, CellState, ConfigError};
pub use crate::score::{Rational, Score};
pub use crate::session::{Action, Frame, Input, Key, Phase, Reaction, Results, TypingTest};
