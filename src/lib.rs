//! Compares two directory trees of images pixel by pixel and renders a visual
//! difference image for each pair of files that differ.
//!
//! - [`paths`]: paths as components, substitution of tree roots, pairing of
//!   source files with their counterparts, directories to create.
//! - [`codec`]: image kinds, decoding files and encoding difference images.
//! - [`diff`]: the per-sample difference and its normalised score.
//! - [`run`]: the decisions of a run, as a state machine driven by events.

pub mod codec;
pub mod diff;
pub mod paths;
pub mod run;

pub use codec::{decode_image, encode_image, image_kind, load_pair, DiffImage, ImageKind, LoadError};
pub use diff::{subtract_and_prevent_overflow, subtract_image, DiffScore, RgbaImage};
pub use paths::{
    counterpart, create_dir_if_not_there, create_path, diff_file_name, find_all_files_to_load,
    substitute_prefix, Config, FilePair, FilePath,
};
pub use run::{diff_pair, Artifact, PairOutcome, RunAction, RunError, RunEvent, RunState};
