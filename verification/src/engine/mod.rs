//! Word state, dictionaries, scoring and the mismatch detector.

pub mod detector;
pub mod dict;
pub mod lang_score;
pub mod state;

pub use detector::{classify, Verdict};
pub use dict::{Dict, HunspellDict};
pub use state::{CoreState, ModState, PrevToken, WordBuffer, WordEntry};
