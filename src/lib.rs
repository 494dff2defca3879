pub mod control;
pub mod discovery;
pub mod error;
pub mod lemmas;
pub mod memory;
pub mod operations;
pub mod source;

pub use control::{
    Control, ControlBool, ControlMenu, ControlOption, ControlSlider, ControlState, ControlType,
    Format,
};
pub use discovery::{aggregate_sources, cameras_available, find_video_source, get_video_source};
pub use error::{ErrorKind, IoError, VideoSourceError};
pub use lemmas::{lemma_reset_idempotent, lemma_reset_no_active, lemma_reset_partial_failure};
pub use memory::MemorySource;
pub use operations::{reset_controls, reset_source_controls, set_control, set_source_control};
pub use source::{VideoSource, VideoSourceAvailable, VideoSourceType, WriteAttempt};
