pub mod ai;
pub mod audio;
pub mod binary64;
pub mod binary64_sum;
pub mod commands;
pub mod compose;
pub mod error;
pub mod ffmpeg;
pub mod overlay;
pub mod paths;
pub mod pipeline;
pub mod preprocess;
mod rng;
pub mod selection;
pub mod text;
pub mod types;
pub mod tts;
