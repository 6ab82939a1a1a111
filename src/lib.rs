//! Integer core of a Monte Carlo path tracer: the order in which pixels are
//! emitted, the image buffer that holds quantised colors, the plain-text
//! pixmap encoding of a finished image, and the depth-bounded termination
//! rule of a traced light path.

pub mod image;
pub mod pixmap;
pub mod path;
