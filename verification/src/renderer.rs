//! What the rendering backends share: their errors and the shader sources.

pub mod shader_source;

use vstd::prelude::*;
use vstd::string::StringExecFns;

verus! {

/// Why a rendering backend failed. Each variant carries the detail that the
/// backend reported.
#[derive(Clone, Debug, PartialEq, Eq)]
pub enum RendererError {
    /// A shader source file could not be opened; the detail is its path.
    ShaderSourceFile(String),
    /// A shader did not compile.
    Compilation(String),
    /// A shader program did not link.
    Link(String),
    /// The backend could not be initialised.
    Initialization(String),
}

impl RendererError {
    /// The detail that the backend reported.
    pub open spec fn detail(self) -> Seq<char> {
        match self {
            RendererError::ShaderSourceFile(path) => path@,
            RendererError::Compilation(log) => log@,
            RendererError::Link(log) => log@,
            RendererError::Initialization(reason) => reason@,
        }
    }

    /// What the message of the error starts with.
    pub open spec fn prefix(self) -> Seq<char> {
        match self {
            RendererError::ShaderSourceFile(_) => "File could not be opened, path: "@,
            RendererError::Compilation(_) => "Shader compilation error: "@,
            RendererError::Link(_) => "Shader link error: "@,
            RendererError::Initialization(_) => "Renderer initialization error: "@,
        }
    }

    /// The message of the error: what went wrong, then the detail.
    pub fn message(&self) -> (message: String)
        ensures
            message@ == self.prefix() + self.detail(),
    {
        match self {
            RendererError::ShaderSourceFile(path) => String::from_str(
                "File could not be opened, path: ",
            ).concat(path.as_str()),
            RendererError::Compilation(log) => String::from_str(
                "Shader compilation error: ",
            ).concat(log.as_str()),
            RendererError::Link(log) => String::from_str("Shader link error: ").concat(
                log.as_str(),
            ),
            RendererError::Initialization(reason) => String::from_str(
                "Renderer initialization error: ",
            ).concat(reason.as_str()),
        }
    }
}

} // verus!
