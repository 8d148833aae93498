//! What the renderers share: their flush strategies and their error.
use vstd::prelude::*;

verus! {

/// Flush strategy for renderer output.
#[derive(Debug, Clone, Copy, PartialEq, Eq, Hash, Structural)]
pub enum FlushMode {
    /// Only render dirty regions.
    DirtyRectOnly,
    /// Render the entire buffer.
    FullBuffer,
    /// Swap two buffers, which avoids tearing.
    DoubleBufferSwap,
}

impl Default for FlushMode {
    fn default() -> (m: Self)
        ensures
            m == FlushMode::FullBuffer,
    {
        FlushMode::FullBuffer
    }
}

/// An error while rendering.
#[derive(Debug, Clone, PartialEq, Eq, Hash)]
pub enum RendererError {
    RenderError(String),
}

impl From<String> for RendererError {
    fn from(s: String) -> (e: Self)
        ensures
            e == RendererError::RenderError(s),
    {
        RendererError::RenderError(s)
    }
}

impl vstd::std_specs::convert::FromSpecImpl<String> for RendererError {
    open spec fn obeys_from_spec() -> bool {
        true
    }

    open spec fn from_spec(s: String) -> RendererError {
        RendererError::RenderError(s)
    }
}

} // verus!
