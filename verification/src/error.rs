use vstd::prelude::*;

verus! {

/// Every failure the core can report, with the context a caller needs to
/// act on it: the exact path checked, the exact name and version asked for,
/// or the exact checksum pair that disagreed.
#[derive(Debug, Clone, PartialEq, Eq)]
pub enum RiverError {
    /// The package root holds no manifest file.
    ManifestMissing { path: String },
    /// The manifest file exists but its text does not parse.
    ManifestInvalid { path: String },
    /// A versioned dependency has no directory in the package store.
    DependencyNotFound { name: String, version: String },
    /// A path dependency points at a directory that does not exist.
    PathDependencyNotFound { path: String },
    /// A git dependency has not been cloned into the cache yet.
    GitDependencyNotCloned { name: String },
    /// The entry point file of the package to compile is absent.
    EntryPointNotFound { path: String },
    /// No compiler binary was found in any of the searched locations.
    CompilerNotFound,
    /// The compiler subprocess exited with a non-zero status.
    CompilationFailed,
    /// The package store directory to publish from does not exist.
    PackageDirMissing { path: String },
    /// The registry answered 404 for this package name.
    PackageNotFound { name: String },
    /// The computed digest of a download differs from the declared one.
    ChecksumMismatch { expected: String, computed: String },
    /// Publishing was attempted without a stored bearer token.
    AuthenticationRequired,
    /// Any other non-success registry answer, with its status code.
    RegistryError { status: u16, detail: String },
}

/// Mathematical shape of an error: every string as a `Seq<char>`.
#[verifier::ext_equal]
pub enum ErrView {
    ManifestMissing { path: Seq<char> },
    ManifestInvalid { path: Seq<char> },
    DependencyNotFound { name: Seq<char>, version: Seq<char> },
    PathDependencyNotFound { path: Seq<char> },
    GitDependencyNotCloned { name: Seq<char> },
    EntryPointNotFound { path: Seq<char> },
    CompilerNotFound,
    CompilationFailed,
    PackageDirMissing { path: Seq<char> },
    PackageNotFound { name: Seq<char> },
    ChecksumMismatch { expected: Seq<char>, computed: Seq<char> },
    AuthenticationRequired,
    RegistryError { status: u16, detail: Seq<char> },
}

impl View for RiverError {
    type V = ErrView;

    open spec fn view(&self) -> ErrView {
        match self {
            RiverError::ManifestMissing { path } => (ErrView::ManifestMissing { path: path@ }),
            RiverError::ManifestInvalid { path } => (ErrView::ManifestInvalid { path: path@ }),
            RiverError::DependencyNotFound { name, version } => (ErrView::DependencyNotFound {
                name: name@,
                version: version@,
            }),
            RiverError::PathDependencyNotFound { path } => (ErrView::PathDependencyNotFound {
                path: path@,
            }),
            RiverError::GitDependencyNotCloned { name } => (ErrView::GitDependencyNotCloned {
                name: name@,
            }),
            RiverError::EntryPointNotFound { path } => (ErrView::EntryPointNotFound {
                path: path@,
            }),
            RiverError::CompilerNotFound => ErrView::CompilerNotFound,
            RiverError::CompilationFailed => ErrView::CompilationFailed,
            RiverError::PackageDirMissing { path } => (ErrView::PackageDirMissing { path: path@ }),
            RiverError::PackageNotFound { name } => (ErrView::PackageNotFound { name: name@ }),
            RiverError::ChecksumMismatch { expected, computed } => (ErrView::ChecksumMismatch {
                expected: expected@,
                computed: computed@,
            }),
            RiverError::AuthenticationRequired => ErrView::AuthenticationRequired,
            RiverError::RegistryError { status, detail } => (ErrView::RegistryError {
                status: *status,
                detail: detail@,
            }),
        }
    }
}

impl DeepView for RiverError {
    type V = ErrView;

    open spec fn deep_view(&self) -> ErrView {
        self.view()
    }
}

} // verus!
