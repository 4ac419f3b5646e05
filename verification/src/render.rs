//! Identity keys and error classifications of the rendering layer.
//!
//! The rendering pipeline itself stays with the embedding code; this
//! crate owns the plain values it is keyed and judged by.

use vstd::prelude::*;

verus! {

/// Name under which a loaded image is stored.
#[derive(Clone, Debug, PartialEq, Eq, Hash)]
pub struct ImageKey(pub String);

/// Name under which a render pipe is stored.
#[derive(Clone, Debug)]
pub struct PipeKey(pub String);

/// The kind of a light source.
#[derive(Clone, Debug)]
pub enum LightType {
    /// The source casts no light.
    Off,
    /// A point light source.
    Point,
}

/// Why creating a GPU buffer failed.
#[derive(Debug)]
pub enum BufferError {
    /// No memory type fits the requested upload.
    UploadType,
    /// The buffered data is zero-sized.
    ZST,
}

impl BufferError {
    /// A short description of the failure.
    pub fn message(&self) -> (m: &'static str)
        ensures
            self is UploadType ==> m@ == "Cannot find valid memory type"@,
            self is ZST ==> m@ == "Cannot create a buffer from ZST"@,
    {
        match self {
            BufferError::UploadType => "Cannot find valid memory type",
            BufferError::ZST => "Cannot create a buffer from ZST",
        }
    }
}

/// Why bringing up the renderer failed.
#[derive(Debug)]
pub enum RenderError {
    /// The window size cannot be read.
    WindowSize,
    /// No valid graphics adapter was found.
    ChooseAdapters,
    /// No valid surface format was found.
    NoSurfaceFormat,
    /// Creating the named shader module failed.
    ShaderModuleFail(&'static str),
    /// Creating a framebuffer failed.
    FramebufferCreation,
}

impl RenderError {
    /// A short description of the failure.
    pub fn message(&self) -> (m: &'static str)
        ensures
            self is WindowSize ==> m@ == "Cannot get window size."@,
            self is ChooseAdapters ==> m@ == "No valid adapters found."@,
            self is NoSurfaceFormat ==> m@ == "No valid surface format found."@,
            self is ShaderModuleFail ==> m@ == "Shader module creation failed."@,
            self is FramebufferCreation ==> m@ == "Framebuffer error."@,
    {
        match self {
            RenderError::WindowSize => "Cannot get window size.",
            RenderError::ChooseAdapters => "No valid adapters found.",
            RenderError::NoSurfaceFormat => "No valid surface format found.",
            RenderError::ShaderModuleFail(_) => "Shader module creation failed.",
            RenderError::FramebufferCreation => "Framebuffer error.",
        }
    }
}

} // verus!
