use vstd::prelude::*;

verus! {

/// Failures of the embedding layer that hosts compiled Flow modules.
#[derive(Debug, Clone, PartialEq, Eq)]
pub enum FlowError {
    InvalidPath,
    InitializationError(String),
    CompileError(String),
    RuntimeError(String),
}

/// Bookkeeping for one embedded Flow runtime. The host process performs
/// the actual engine start-up; this record tracks that it happened, so
/// modules are only ever loaded against an initialized runtime.
#[derive(Debug, Clone, PartialEq, Eq)]
pub struct FlowRuntime {
    pub initialized: bool,
}

impl FlowRuntime {
    /// A fresh, initialized runtime record.
    pub fn new() -> (r: Result<FlowRuntime, FlowError>)
        ensures
            r matches Ok(rt) && rt.initialized,
    {
        Ok(FlowRuntime { initialized: true })
    }
}

/// A loaded Flow module: where it came from and the source it holds.
#[derive(Debug, Clone, PartialEq, Eq)]
pub struct FlowModule {
    pub path: String,
    pub source: String,
}

impl FlowModule {
    /// Load a module from a file of the host filesystem. The file's text
    /// enters as a plain value: `None` when the file is absent, which
    /// always fails — a module can only be built from source that exists.
    pub fn load(runtime: &FlowRuntime, path: &str, source: &Option<String>) -> (r: Result<
        FlowModule,
        FlowError,
    >)
        requires
            runtime.initialized,
        ensures
            source matches Some(text) ==> (r matches Ok(m) && m.path@ == path@ && m.source@
                == text@),
            source is None ==> (r matches Err(e) && e matches FlowError::CompileError(m) && m@
                == "module file not found: "@ + path@),
    {
        match source {
            Some(text) => Ok(FlowModule { path: path.to_owned(), source: text.clone() }),
            None => Err(
                FlowError::CompileError(
                    crate::strutil::concat2("module file not found: ", path),
                ),
            ),
        }
    }

    /// The path this module was loaded from.
    pub fn path(&self) -> (r: &str)
        ensures
            r@ == self.path@,
    {
        self.path.as_str()
    }
}

} // verus!
