//! Exact length measurements with a fixed resolution of a tenth of a micrometer.
//!
//! `Myth16`, `Myth32` and `Myth64` are lengths of three widths, counted in ticks of a tenth of a
//! micrometer. `T64` and `T128` pair a length with a plus and a minus deviation of half its width.
//! `ticks` and `tols` state what the text forms of both are, and prove that they read back.

mod based;
mod bytes;
pub mod error;
mod myth16;
mod myth32;
mod myth64;
pub mod text;
pub mod ticks;
mod tol128;
mod tol64;
pub mod tols;
mod unit;

pub use based::MythBased;
pub use myth16::Myth16;
pub use myth32::Myth32;
pub use myth64::Myth64;
pub use tol128::T128;
pub use tol64::T64;
pub use unit::Unit;
