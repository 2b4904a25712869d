//! Host-side orchestration of one GPU compute pass over a grid of scalar
//! fields: sizing of the field buffers, the binding layout, the dispatch
//! size, the read-back of samples and their export as an RGBA raster.

pub mod buffer;
pub mod error;
pub mod export;
pub mod field;
pub mod grid;
pub mod layout;
pub mod pass;
pub mod run;
pub mod sample;
pub mod shader;
