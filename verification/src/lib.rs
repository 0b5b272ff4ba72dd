//! A bridge from an emoji-selection event feed to an LED-matrix message broker.
//!
//! The library holds the verified core of the bridge: event-frame parsing,
//! command dispatch, payload decoding, emoji asset resolution, image
//! transcoding (nearest-neighbour resize and alpha compositing), and the
//! per-resolution publish plan. The surrounding daemon performs the actual
//! network and filesystem traffic and feeds plain values in and out.

pub mod assets;
pub mod bitmap;
pub mod color;
pub mod frame;
pub mod payload;
pub mod pipeline;
pub mod text;

pub use color::merge_colors;
