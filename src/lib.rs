// Entropy maps of byte streams: per-chunk byte histograms, the chunking of a
// stream, the palette that colors a scaled entropy value, and the row layout of
// the color map.

pub mod chunks;
pub mod histogram;
pub mod layout;
pub mod palette;
pub mod text;
