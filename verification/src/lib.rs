//! A batch compiler for animations of simple shapes.
//!
//! A command stream is a text of words. The settings say which words are
//! commands and which shape each command builds: a camera, a circle, a
//! rectangle, a polyline, or a sample of a line chart. The word `update`
//! sets the clock; every shape is stamped with the time of its command.
//! From the shapes of each group the library makes a timeline: an initial
//! frame, a final frame, and transitions that lead from one time to the
//! next and back.
//!
//! Numbers are binary64 values held as bit patterns. The library compares
//! them, but it neither reads them from text nor computes with them: the
//! caller hands in a reader for the words, and an evaluator for the few
//! formulas and gradients that the shapes ask for.
pub mod chart;
pub mod color;
pub mod context;
pub mod dispatcher;
pub mod emit;
pub mod error;
pub mod graphic;
pub mod graphic_elems;
pub mod graphic_laws;
pub mod json;
pub mod loader;
pub mod number;
pub mod point;
pub mod replay;
pub mod setting;
pub mod text;
pub mod traits;
pub mod unique_id_generator;
pub mod vis_comps_creator;
pub mod words;
