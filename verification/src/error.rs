//! What can go wrong while loading resources or talking to the rendering
//! backend.

use vstd::prelude::*;

verus! {

#[derive(Clone, Copy, PartialEq, Eq, Structural, Debug)]
pub enum LoadError {
    /// A mesh, texture, or material resource could not be found or read.
    ResourceNotFound,
    /// A record held an unparsable numeric token, a missing token, or a
    /// face index outside the vertex array.
    MalformedRecord,
    /// The texture bytes are not an acceptable bitmap.
    UnsupportedImageFormat,
    /// The rendering backend rejected a shader program or a buffer.
    BackendFailure,
}

impl LoadError {
    /// A short description, for surfacing the failure to the user.
    pub fn describe(&self) -> (r: &'static str)
        ensures
            r@.len() > 0,
    {
        proof {
            reveal_strlit("resource not found");
            reveal_strlit("malformed record");
            reveal_strlit("unsupported image format");
            reveal_strlit("backend failure");
        }
        match self {
            LoadError::ResourceNotFound => "resource not found",
            LoadError::MalformedRecord => "malformed record",
            LoadError::UnsupportedImageFormat => "unsupported image format",
            LoadError::BackendFailure => "backend failure",
        }
    }
}

} // verus!
