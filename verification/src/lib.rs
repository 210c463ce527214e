//! Core of an icosphere editor: geodesic mesh subdivision with face
//! adjacency, the render-cache invalidation state machine, and the
//! face-picking readback decoder. GPU submission, windowing and all
//! floating-point geometry live outside this crate; the library works on
//! the plain integer data that those layers exchange.

pub mod cache;
pub mod clock;
pub mod control;
pub mod mesh;
pub mod pick;
pub mod ui;

pub use cache::Size;
