//! Numerological cycle charts: the derivation of a chart from a birth date and
//! an age, the layer codes that a chart selects, and the compositing of those
//! layers onto the canvas of a layered document.

pub mod chart;
pub mod code;
pub mod composite;
pub mod document;
pub mod order;
pub mod png;
pub mod reduction;
pub mod render;
pub mod slot;

pub use code::trouver_cadre;
pub use order::calcl;
pub use reduction::reduction_theosophique;
pub use render::generate;
