//! An RGB raster image with exact integer quantization of intensity ramps,
//! and its encodings as BMP and PPM bytes.

pub mod bmp;
pub mod gamma;
pub mod image;
pub mod ppm;

pub use crate::gamma::gamma_code;
pub use crate::ppm::push_decimal;
pub use crate::image::{Image, ImageView, Pixel};
