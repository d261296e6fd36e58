//! Errors of the renderer.

use vstd::prelude::*;
use crate::pty_error::IoFailure;
use crate::text::owned;

verus! {

/// Errors that can occur while rendering.
#[derive(Debug)]
pub enum RendererError {
    /// Creating a render pipeline failed.
    PipelineCreation(String),
    /// Creating a bind group failed.
    BindGroupCreation(String),
    /// Creating a buffer failed.
    BufferCreation(String),
    /// Creating a texture failed.
    TextureCreation(String),
    /// Writing a buffer failed.
    BufferWrite(String),
    /// Submitting a command buffer failed.
    CommandSubmission(String),
    /// Surface configuration error.
    SurfaceConfig(String),
    /// Font loading error.
    Font(String),
    /// Glyph not found in the cache.
    GlyphNotFound(char),
    /// The atlas is full and cannot fit the glyph.
    AtlasFull(char),
    /// Invalid dimensions.
    InvalidDimensions(String),
    /// Backend-specific error.
    Backend(String),
    /// Shader compilation error.
    Shader(String),
    /// I/O error.
    Io(IoFailure),
    /// Any other error.
    Other(String),
}

impl RendererError {
    /// Pipeline creation failure.
    pub fn pipeline_creation(msg: &str) -> (e: Self)
        ensures
            e matches RendererError::PipelineCreation(m) && m@ == msg@,
    {
        RendererError::PipelineCreation(owned(msg))
    }

    /// Bind group creation failure.
    pub fn bind_group_creation(msg: &str) -> (e: Self)
        ensures
            e matches RendererError::BindGroupCreation(m) && m@ == msg@,
    {
        RendererError::BindGroupCreation(owned(msg))
    }

    /// Buffer creation failure.
    pub fn buffer_creation(msg: &str) -> (e: Self)
        ensures
            e matches RendererError::BufferCreation(m) && m@ == msg@,
    {
        RendererError::BufferCreation(owned(msg))
    }

    /// Texture creation failure.
    pub fn texture_creation(msg: &str) -> (e: Self)
        ensures
            e matches RendererError::TextureCreation(m) && m@ == msg@,
    {
        RendererError::TextureCreation(owned(msg))
    }

    /// Buffer write failure.
    pub fn buffer_write(msg: &str) -> (e: Self)
        ensures
            e matches RendererError::BufferWrite(m) && m@ == msg@,
    {
        RendererError::BufferWrite(owned(msg))
    }

    /// Command submission failure.
    pub fn command_submission(msg: &str) -> (e: Self)
        ensures
            e matches RendererError::CommandSubmission(m) && m@ == msg@,
    {
        RendererError::CommandSubmission(owned(msg))
    }

    /// Surface configuration error.
    pub fn surface_config(msg: &str) -> (e: Self)
        ensures
            e matches RendererError::SurfaceConfig(m) && m@ == msg@,
    {
        RendererError::SurfaceConfig(owned(msg))
    }

    /// Font error.
    pub fn font(msg: &str) -> (e: Self)
        ensures
            e matches RendererError::Font(m) && m@ == msg@,
    {
        RendererError::Font(owned(msg))
    }

    /// Glyph `ch` not found.
    pub fn glyph_not_found(ch: char) -> (e: Self)
        ensures
            e == RendererError::GlyphNotFound(ch),
    {
        RendererError::GlyphNotFound(ch)
    }

    /// The atlas cannot fit glyph `ch`.
    pub fn atlas_full(ch: char) -> (e: Self)
        ensures
            e == RendererError::AtlasFull(ch),
    {
        RendererError::AtlasFull(ch)
    }

    /// Invalid dimensions.
    pub fn invalid_dimensions(msg: &str) -> (e: Self)
        ensures
            e matches RendererError::InvalidDimensions(m) && m@ == msg@,
    {
        RendererError::InvalidDimensions(owned(msg))
    }

    /// Backend error.
    pub fn backend(msg: &str) -> (e: Self)
        ensures
            e matches RendererError::Backend(m) && m@ == msg@,
    {
        RendererError::Backend(owned(msg))
    }

    /// Shader error.
    pub fn shader(msg: &str) -> (e: Self)
        ensures
            e matches RendererError::Shader(m) && m@ == msg@,
    {
        RendererError::Shader(owned(msg))
    }

    /// Any other error.
    pub fn other(msg: &str) -> (e: Self)
        ensures
            e matches RendererError::Other(m) && m@ == msg@,
    {
        RendererError::Other(owned(msg))
    }
}

} // verus!
