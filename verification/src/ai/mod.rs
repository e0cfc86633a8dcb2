pub mod config;
pub mod image_gen;
pub mod llm;
pub mod video_gen;
