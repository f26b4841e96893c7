//! The calls that other machines make.
pub mod warp;
