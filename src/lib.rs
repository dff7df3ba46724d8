//! Turns a directory's worth of image files into a JSON document that maps
//! each file name to its pixels, as RGBA8 bytes compressed with zlib and
//! written in standard base64.
pub mod codec;
pub mod document;
pub mod pipeline;
pub mod report;
