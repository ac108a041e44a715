//! Index, colour and channel logic of a multi-channel signed distance field
//! generator, with its contracts.

pub mod colour;
pub mod channels;
pub mod memo;
pub mod spline_colour;
pub mod pascal;
pub mod primitives;
pub mod shape;
pub mod builder;
pub mod edge_shape;
pub mod coloured_shape;
pub mod corner_contour;
pub mod image;
pub mod glyph;
pub mod ref_shape;
