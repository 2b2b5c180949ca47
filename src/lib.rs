//! Game rules of a polynomial-guessing arcade level: the clock that runs
//! against a time budget, the win and loss outcome, and the root scan that
//! decides where a level's playable interval lies.
pub mod progress;
pub mod roots;

pub use progress::{Progress, ProgressState, NANOS_PER_SECOND, PENALTY_NANOS};
pub use roots::{playable_bracket, sign_changes, LevelError};
