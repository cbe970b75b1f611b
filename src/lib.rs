//! The integer core of a Monte-Carlo ray tracer: colors and pixel surfaces,
//! the merge of rendered tiles into the final image, the split of an image
//! into strips for independent workers, the background gradient, the layout
//! of a bounding-volume hierarchy and the reading of the command line.

pub mod args;
pub mod background;
pub mod bvh;
pub mod math;
pub mod pixel_buffer;
pub mod render_options;
pub mod rgbcolor;
pub mod surface;
pub mod tiling;
