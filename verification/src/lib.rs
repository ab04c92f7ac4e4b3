//! Platform-agnostic core of a minimal rendering harness.
//!
//! A [`view::RenderView`] holds the logical state that the two platform backends
//! (an OS window with a desktop GL context, or a browser canvas with a
//! WebGL2 context) share: the pixel dimensions of the drawable surface, a
//! cache of uploaded textures keyed by their source identifier, and the
//! currently bound texture. The host program owns the window or canvas,
//! the GL function table and the event loop; it reports completed uploads
//! to the view and performs the GL calls that the view's answers call
//! for.

pub mod codec;
pub mod view;
