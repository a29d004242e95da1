//! Removal of near-duplicate slide captures from a lecture recording.
//!
//! Captured frames arrive in timeline order. Each frame is reduced to a 64-bit
//! perceptual fingerprint; two neighbouring frames whose fingerprints differ in
//! at most a caller-chosen number of bits count as the same slide, and of every
//! such run only the last frame is kept. A frame that cannot be fingerprinted is
//! always kept.
pub mod dedup;
pub mod fingerprint;
pub mod model;
pub mod similarity;
pub mod subtitle;
pub mod theorems;

pub use dedup::{
    deduplicate_images, fingerprint_all, fingerprint_frame, mark_kept, reduce, CapturedImage,
    FingerprintedFrame,
};
pub use fingerprint::{calculate_phash, FailureCause, FingerprintError, FingerprintResult, RgbRaster};
pub use model::{Config, Progress, Subject, SubtitleDownloadResult, SubtitleRequest, Upload};
pub use similarity::{is_similar, Fingerprint};
pub use subtitle::{Subtitle, SubtitleEntry};
