//! Convert raster images to glyph ("ASCII art") grids, in text form.
//!
//! The rasterizer maps per-pixel luminance to an ordered glyph palette under
//! one of several sampling strategies; around it stand a batch planner that
//! fixes frame order and output naming for parallel conversion, and a
//! playback schedule that paces frame display at a fixed cadence.

pub mod batch;
mod chars;
pub mod cli_utils;
pub mod errors;
pub mod html_generation;
pub mod image_processing;
pub mod playback;

pub use batch::{frame_file_name, plan_batch, plan_playback};
pub use cli_utils::{validate_hex_color, validate_image_args};
pub use errors::AsciiError;
pub use playback::{frame_time_millis, wait_before_next};
pub use html_generation::{ascii_to_html, HtmlConfig};
pub use image_processing::{image_to_ascii, select_filter, select_ramp, Bitmap, Kernel, Strategy};
