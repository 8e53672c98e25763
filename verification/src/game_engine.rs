//! What the engine is started with.

use vstd::prelude::*;

verus! {

/// The rendering backend that an engine is started with.
#[derive(Clone, Copy, Debug, PartialEq, Eq, Structural)]
pub enum RendererType {
    OpenGL,
    Vulkan,
}

} // verus!
