//! An image prefetch-and-decode cache for stepping through a directory of
//! images: a coordinator that keeps decoded images near the current index,
//! requests the next ones ahead of time, and evicts those far away, served
//! by a pool of workers that decode and scale images off the interactive
//! thread; with the image list, argument checks and navigation decisions
//! around it.

pub mod arguments;
pub mod channel;
pub mod decode;
pub mod image_cache;
pub mod image_file;
pub mod images;
pub mod keyboard_mapping;
pub mod names;
pub mod navigation;
pub mod pixels;
pub mod settings;
