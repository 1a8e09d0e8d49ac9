//! Standalone SVG documents that fill the viewport with a linear or radial
//! gradient over an ordered list of CSS colors.
//!
//! A [`CSSColor`] is text that holds no double quote, so that it can stand in a
//! double-quoted attribute; [`generate`] lays a list of them out as evenly
//! spaced gradient stops and returns the whole document as text.

pub mod color;
pub mod command;
pub mod gradient;
pub mod kind;
pub mod markup;
pub mod offset;
pub mod reading;
pub mod structure;
pub mod text;

pub use color::{CSSColor, ColorQuotes};
pub use command::SubCmds;
pub use gradient::generate;
pub use kind::{GradientType, LINE, RAD};
