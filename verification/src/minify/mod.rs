//! Character-level minifiers and formatters for CSS, HTML and JavaScript.
//!
//! Each transformation is a left-to-right scan over the input characters with
//! a small amount of state (inside a string, inside a comment, nesting depth).
//! The scans are specified as state machines: a `*_step` spec function says
//! what one step consumes, what state it moves to and what the output becomes,
//! and a `*_from` spec function runs the steps to the end of the input.
pub mod scan;
pub mod css;
pub mod js;
pub mod html;
pub mod laws;
pub mod dispatch;
