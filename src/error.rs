//! Errors of the parsing pipeline around the renderer.

use vstd::prelude::*;
use vstd::string::*;

verus! {

/// An error of the parsing pipeline, by the stage that raised it.
#[derive(Debug, Clone, PartialEq, Eq)]
pub enum NorgError {
    Parse(String),
    Meta(String),
    Html(String),
    Serial(String),
    Js(String),
    Io(String),
    Unsupported(String),
}

/// The words that introduce an error of each stage.
pub open spec fn error_heading(e: NorgError) -> Seq<char> {
    match e {
        NorgError::Parse(_) => "Parse error: "@,
        NorgError::Meta(_) => "Meta error: "@,
        NorgError::Html(_) => "HTML error: "@,
        NorgError::Serial(_) => "Serial error: "@,
        NorgError::Js(_) => "JS error: "@,
        NorgError::Io(_) => "IO error: "@,
        NorgError::Unsupported(_) => "Unsupported: "@,
    }
}

/// The detail that an error carries.
pub open spec fn error_detail(e: NorgError) -> Seq<char> {
    match e {
        NorgError::Parse(m) => m@,
        NorgError::Meta(m) => m@,
        NorgError::Html(m) => m@,
        NorgError::Serial(m) => m@,
        NorgError::Js(m) => m@,
        NorgError::Io(m) => m@,
        NorgError::Unsupported(m) => m@,
    }
}

impl NorgError {
    /// The readable form of the error: its stage, then its detail.
    pub fn message(&self) -> (r: String)
        ensures
            r@ == error_heading(*self) + error_detail(*self),
    {
        let (heading, detail) = match self {
            NorgError::Parse(m) => ("Parse error: ", m),
            NorgError::Meta(m) => ("Meta error: ", m),
            NorgError::Html(m) => ("HTML error: ", m),
            NorgError::Serial(m) => ("Serial error: ", m),
            NorgError::Js(m) => ("JS error: ", m),
            NorgError::Io(m) => ("IO error: ", m),
            NorgError::Unsupported(m) => ("Unsupported: ", m),
        };
        let mut r = String::from_str(heading);
        r.append(detail.as_str());
        r
    }
}

/// The result of a stage of the pipeline.
pub type NorgResult<T> = Result<T, NorgError>;

} // verus!
