//! A scrolling procedural city skyline rendered into a grid of palette colours.

pub mod city;
pub mod draw;
pub mod hash;
pub mod layer;
pub mod palette;
pub mod render;
pub mod rng;
pub mod vec2d;
