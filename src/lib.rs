//! Decides which audio files a DJ library cannot take as they are, and how to convert them:
//! classifying probed metadata, choosing to skip or convert, building the encoder's arguments
//! and tallying a batch.

pub mod batch;
pub mod decision;
pub mod executor;
pub mod format;
pub mod paths;
pub mod song_info;
pub mod text;

pub use batch::{summarize, BatchSummary, UnitOutcome};
pub use decision::{decide, ConversionPlan, Decision, DecisionSkip};
pub use executor::{encode_args, encode_outcome, EncodeError};
pub use format::{AudioFormatType, SupportedAudioFormat, UnsupportedLabel};
pub use song_info::{from_probe, ProbeError, ProbeFormat, ProbeReport, ProbeStream, SongInfo, TagMap};
