//! PixelForge core: the integer-valued logic of the pixel-art portrait tool,
//! with its contracts proved by Verus.

pub mod raster;
pub mod font;
pub mod text;
pub mod imaging;
pub mod transform;
pub mod contact_sheet;
pub mod export;
pub mod file_format;
pub mod config;
pub mod ml_config;
pub mod regions;
pub mod visualize;
pub mod model_output;
pub mod session;
pub mod downloader;
pub mod sizing;
pub mod loader;
pub mod placeholder;
pub mod captions;
pub mod analysis;
