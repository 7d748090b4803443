//! A type-checked view over one band of a raster dataset: the band's runtime
//! element type is checked once against the caller's pixel type, and the
//! band's no-data sentinel, a double, is converted into that type.
pub mod convert;
pub mod float_bits;
pub mod typed_rasterband;
