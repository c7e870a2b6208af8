//! The elements of a graphic.
pub mod camera;
pub mod circle;
pub mod deleter;
pub mod draft;
pub mod elems;
pub mod path;
pub mod rect;
pub mod view;
pub mod view_ops;
