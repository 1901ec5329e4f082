use vstd::prelude::*;
use crate::manifest::{default_entry, Manifest, PackageType, PkgView};
use crate::strutil::{concat3, join_path, path_join};

verus! {

/// A loaded package: its manifest together with the directory it lives in.
/// Every path of the package is derived from these two, without mutation.
#[derive(Debug, Clone)]
pub struct Package {
    pub manifest: Manifest,
    pub root_dir: String,
}

/// The file a package's entry point lives in: the explicit `entry` field
/// when present, else the kind's conventional default.
pub open spec fn entry_rel_spec(p: PkgView) -> Seq<char> {
    match p.entry {
        Some(e) => e,
        None => default_entry(p.package_type),
    }
}

/// Name of the build output: the package name itself for an executable,
/// `lib<name>.o` for a native library, `lib<name>` otherwise.
pub open spec fn binary_name_spec(p: PkgView) -> Seq<char> {
    if p.package_type == PackageType::Bin {
        p.name
    } else if p.package_type == PackageType::Native {
        "lib"@ + p.name + ".o"@
    } else {
        "lib"@ + p.name
    }
}

/// `<root>/target/<binary name>`
pub open spec fn output_path_spec(p: PkgView, root: Seq<char>) -> Seq<char> {
    path_join(path_join(root, "target"@), binary_name_spec(p))
}

/// The manifest file of the package rooted at `root`.
pub fn manifest_path(root: &str) -> (r: String)
    ensures
        r@ == path_join(root@, "River.toml"@),
{
    join_path(root, "River.toml")
}

impl Package {
    /// Load a package from its root directory. The manifest file's text
    /// comes in as a plain value: `None` when the file is absent, which
    /// is always a hard error — a directory without a manifest is never
    /// an implicit package.
    pub fn load(root_dir: String, manifest_text: &Option<String>) -> (r: Result<
        Package,
        crate::error::RiverError,
    >)
        ensures
            manifest_text is None ==> (r matches Err(e) && e@
                == (crate::error::ErrView::ManifestMissing {
                path: path_join(root_dir@, "River.toml"@),
            })),
            manifest_text matches Some(t) ==> (match crate::manifest_text::parse_manifest(t@) {
                Some(mv) => r matches Ok(p) && p.manifest@ == mv && p.manifest.wf() && p.root_dir@
                    == root_dir@,
                None => r matches Err(e) && e@ == (crate::error::ErrView::ManifestInvalid {
                    path: path_join(root_dir@, "River.toml"@),
                }),
            }),
    {
        let text = match manifest_text {
            Some(t) => t,
            None => {
                return Err(
                    crate::error::RiverError::ManifestMissing {
                        path: manifest_path(root_dir.as_str()),
                    },
                );
            },
        };
        match Manifest::from_text(text.as_str()) {
            Some(manifest) => Ok(Package { manifest, root_dir }),
            None => Err(
                crate::error::RiverError::ManifestInvalid {
                    path: manifest_path(root_dir.as_str()),
                },
            ),
        }
    }

    /// The source directory, `<root>/src`.
    pub fn src_dir(&self) -> (r: String)
        ensures
            r@ == path_join(self.root_dir@, "src"@),
    {
        join_path(self.root_dir.as_str(), "src")
    }

    /// The build output directory, `<root>/target`.
    pub fn build_dir(&self) -> (r: String)
        ensures
            r@ == path_join(self.root_dir@, "target"@),
    {
        join_path(self.root_dir.as_str(), "target")
    }

    /// The entry point file, under the package root.
    pub fn entry_point(&self) -> (r: String)
        ensures
            r@ == path_join(self.root_dir@, entry_rel_spec(self.manifest@.package)),
    {
        match &self.manifest.package.entry {
            Some(entry) => join_path(self.root_dir.as_str(), entry.as_str()),
            None => {
                match self.manifest.package.package_type {
                    PackageType::Bin => join_path(self.root_dir.as_str(), "src/main.flow"),
                    PackageType::Lib => join_path(self.root_dir.as_str(), "src/lib.flow"),
                    PackageType::Native => join_path(self.root_dir.as_str(), "src/lib.c"),
                }
            },
        }
    }

    /// Whether this package builds an executable.
    pub fn is_binary(&self) -> (r: bool)
        ensures
            r == (self.manifest@.package.package_type == PackageType::Bin),
    {
        self.manifest.package.package_type == PackageType::Bin
    }

    /// Whether this package builds a managed-language library.
    pub fn is_library(&self) -> (r: bool)
        ensures
            r == (self.manifest@.package.package_type == PackageType::Lib),
    {
        self.manifest.package.package_type == PackageType::Lib
    }

    /// Whether this package builds a native C object.
    pub fn is_native(&self) -> (r: bool)
        ensures
            r == (self.manifest@.package.package_type == PackageType::Native),
    {
        self.manifest.package.package_type == PackageType::Native
    }

    /// Name of the produced artifact file.
    pub fn binary_name(&self) -> (r: String)
        ensures
            r@ == binary_name_spec(self.manifest@.package),
    {
        if self.is_binary() {
            self.manifest.package.name.clone()
        } else if self.is_native() {
            concat3("lib", self.manifest.package.name.as_str(), ".o")
        } else {
            crate::strutil::concat2("lib", self.manifest.package.name.as_str())
        }
    }

    /// Full path of the produced artifact, `<root>/target/<binary name>`.
    pub fn output_path(&self) -> (r: String)
        ensures
            r@ == output_path_spec(self.manifest@.package, self.root_dir@),
    {
        let dir = self.build_dir();
        let name = self.binary_name();
        join_path(dir.as_str(), name.as_str())
    }
}

} // verus!
