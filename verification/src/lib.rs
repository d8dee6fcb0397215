//! Verified core of an interactive tensor-product Bezier surface editor.
//!
//! All geometry is carried in signed 64-bit fixed-point scalars (see
//! [`fixed`]); the host is expected to supply trigonometric values and to
//! perform the actual drawing of the command lists this library produces.

pub mod bezier;
pub mod combo;
pub mod figure;
pub mod frame;
pub mod fixed;
pub mod interact;
pub mod state;
pub mod transform;
