//! Average colour of a raster image, expressed as exact hue, lightness and
//! saturation fractions.

mod average;
mod color;
mod raster;

pub use average::{
    average_rgb, channel_sum, lemma_average_of_uniform, rounded_mean, spec_average, AverageError,
};
pub use color::{hls_of, hue_sixths, rgb2hls, Hls, Ratio, Sample};
pub use raster::{average_hls_color, dimensions_of, pixels_of, resized_hls, sample_at};
