//! Interactive viewport controller for a cellular-automaton visualizer.
//!
//! The controller owns the camera state (pan offset, zoom factor), turns
//! pointer input into world-grid coordinates, drives grid edits from mouse
//! clicks, and produces the affine transform used to render live cells.
//! All camera arithmetic is carried out exactly, in fixed-point units:
//! screen positions in whole pixels, the zoom factor in tenths, transform
//! translations in twentieths of a pixel, so that the window center
//! (half the width) stays exact even for odd window sizes.

pub mod engine;
pub mod gui;
pub mod laws;
pub mod num;
