use vstd::prelude::*;

verus! {

/// Kind of a package: it decides the default entry point and the shape of
/// the build output. Immutable once a package has been created.
#[derive(Debug, Clone, Copy, PartialEq, Eq, Structural)]
pub enum PackageType {
    /// An executable program.
    Bin,
    /// A library of the managed language.
    Lib,
    /// A library whose source is C, compiled by the host C compiler.
    Native,
}

impl Default for PackageType {
    fn default() -> (r: Self)
        ensures
            r == PackageType::Bin,
    {
        PackageType::Bin
    }
}

/// A dependency declaration, polymorphic over where it is resolved from.
#[derive(Debug, PartialEq, Eq)]
pub enum Dependency {
    /// Resolved from the package store under a `<name>-<version>` directory.
    Version(String),
    /// A versioned declaration with extra fields; resolution uses only the
    /// version, exactly as `Version` does.
    Detailed { version: String, optional: bool, features: Vec<String> },
    /// Resolved from the per-dependency git clone cache; never cloned
    /// implicitly during resolution.
    Git { git: String, branch: Option<String>, tag: Option<String>, rev: Option<String> },
    /// Resolved to a directory under the declaring package's root.
    Path { path: String },
}

/// Mathematical shape of a `Dependency`: every string as a `Seq<char>`.
#[verifier::ext_equal]
pub enum DepView {
    Version(Seq<char>),
    Detailed { version: Seq<char>, optional: bool, features: Seq<Seq<char>> },
    Git { git: Seq<char>, branch: Option<Seq<char>>, tag: Option<Seq<char>>, rev: Option<Seq<char>> },
    Path { path: Seq<char> },
}

impl View for Dependency {
    type V = DepView;

    open spec fn view(&self) -> DepView {
        match self {
            Dependency::Version(v) => DepView::Version(v@),
            Dependency::Detailed { version, optional, features } => (DepView::Detailed {
                version: version@,
                optional: *optional,
                features: features.deep_view(),
            }),
            Dependency::Git { git, branch, tag, rev } => (DepView::Git {
                git: git@,
                branch: branch.deep_view(),
                tag: tag.deep_view(),
                rev: rev.deep_view(),
            }),
            Dependency::Path { path } => (DepView::Path { path: path@ }),
        }
    }
}

impl DeepView for Dependency {
    type V = DepView;

    open spec fn deep_view(&self) -> DepView {
        self.view()
    }
}

impl Clone for Dependency {
    fn clone(&self) -> (r: Self)
        ensures
            r@ == self@,
    {
        match self {
            Dependency::Version(v) => Dependency::Version(v.clone()),
            Dependency::Detailed { version, optional, features } => (Dependency::Detailed {
                version: version.clone(),
                optional: *optional,
                features: crate::strutil::clone_string_vec(features),
            }),
            Dependency::Git { git, branch, tag, rev } => (Dependency::Git {
                git: git.clone(),
                branch: crate::strutil::clone_opt_string(branch),
                tag: crate::strutil::clone_opt_string(tag),
                rev: crate::strutil::clone_opt_string(rev),
            }),
            Dependency::Path { path } => (Dependency::Path { path: path.clone() }),
        }
    }
}

/// The descriptive section of a manifest: package identity and kind.
#[derive(Debug, PartialEq, Eq)]
pub struct Package {
    pub name: String,
    pub version: String,
    pub authors: Vec<String>,
    pub description: Option<String>,
    pub license: Option<String>,
    pub repository: Option<String>,
    pub package_type: PackageType,
    pub entry: Option<String>,
}

/// Mathematical shape of the descriptive section.
#[verifier::ext_equal]
pub struct PkgView {
    pub name: Seq<char>,
    pub version: Seq<char>,
    pub authors: Seq<Seq<char>>,
    pub description: Option<Seq<char>>,
    pub license: Option<Seq<char>>,
    pub repository: Option<Seq<char>>,
    pub package_type: PackageType,
    pub entry: Option<Seq<char>>,
}

impl View for Package {
    type V = PkgView;

    open spec fn view(&self) -> PkgView {
        PkgView {
            name: self.name@,
            version: self.version@,
            authors: self.authors.deep_view(),
            description: self.description.deep_view(),
            license: self.license.deep_view(),
            repository: self.repository.deep_view(),
            package_type: self.package_type,
            entry: self.entry.deep_view(),
        }
    }
}

impl DeepView for Package {
    type V = PkgView;

    open spec fn deep_view(&self) -> PkgView {
        self.view()
    }
}

impl Clone for Package {
    fn clone(&self) -> (r: Self)
        ensures
            r@ == self@,
    {
        Package {
            name: self.name.clone(),
            version: self.version.clone(),
            authors: crate::strutil::clone_string_vec(&self.authors),
            description: crate::strutil::clone_opt_string(&self.description),
            license: crate::strutil::clone_opt_string(&self.license),
            repository: crate::strutil::clone_opt_string(&self.repository),
            package_type: self.package_type,
            entry: crate::strutil::clone_opt_string(&self.entry),
        }
    }
}

/// A package descriptor: identity, kind, and dependency declarations.
/// Dependency names are unique; declaration order is kept.
#[derive(Debug, PartialEq, Eq)]
pub struct Manifest {
    pub package: Package,
    pub dependencies: Vec<(String, Dependency)>,
    pub dev_dependencies: Vec<(String, Dependency)>,
}

/// Mathematical shape of a whole manifest.
#[verifier::ext_equal]
pub struct ManifestView {
    pub package: PkgView,
    pub dependencies: Seq<(Seq<char>, DepView)>,
    pub dev_dependencies: Seq<(Seq<char>, DepView)>,
}

impl View for Manifest {
    type V = ManifestView;

    open spec fn view(&self) -> ManifestView {
        ManifestView {
            package: self.package@,
            dependencies: self.dependencies.deep_view(),
            dev_dependencies: self.dev_dependencies.deep_view(),
        }
    }
}

impl DeepView for Manifest {
    type V = ManifestView;

    open spec fn deep_view(&self) -> ManifestView {
        self.view()
    }
}

impl Clone for Manifest {
    fn clone(&self) -> (r: Self)
        ensures
            r@ == self@,
    {
        let r = Manifest {
            package: self.package.clone(),
            dependencies: clone_dep_entries(&self.dependencies),
            dev_dependencies: clone_dep_entries(&self.dev_dependencies),
        };
        proof {
            assert(r@ =~~= self@);
        }
        r
    }
}

fn clone_dep_entries(v: &Vec<(String, Dependency)>) -> (r: Vec<(String, Dependency)>)
    ensures
        r.deep_view() == v.deep_view(),
{
    let mut r: Vec<(String, Dependency)> = Vec::new();
    let mut i: usize = 0;
    while i < v.len()
        invariant
            i <= v.len(),
            r.deep_view() =~~= v.deep_view().take(i as int),
        decreases v.len() - i,
    {
        let (name, dep) = &v[i];
        r.push((name.clone(), dep.clone()));
        proof {
            assert(r.deep_view() =~~= v.deep_view().take(i as int + 1));
        }
        i = i + 1;
    }
    proof {
        assert(r.deep_view() =~~= v.deep_view());
    }
    r
}

/// True when no dependency name occurs twice in `s`.
pub open spec fn names_unique(s: Seq<(Seq<char>, DepView)>) -> bool {
    forall|i: int, j: int| 0 <= i < j < s.len() ==> s[i].0 != s[j].0
}

/// Whether some entry of `s` is named `name`.
pub open spec fn has_name(s: Seq<(Seq<char>, DepView)>, name: Seq<char>) -> bool {
    exists|i: int| 0 <= i < s.len() && s[i].0 == name
}

/// Index of the first entry named `name`, or `s.len()` when absent.
pub open spec fn find_name(s: Seq<(Seq<char>, DepView)>, name: Seq<char>) -> int
    decreases s.len(),
{
    if s.len() == 0 {
        0
    } else if s[0].0 == name {
        0
    } else {
        1 + find_name(s.subrange(1, s.len() as int), name)
    }
}

/// `find_name` is the first index bearing `name`, or the length when no
/// entry bears it.
pub proof fn lemma_find_name(s: Seq<(Seq<char>, DepView)>, name: Seq<char>)
    ensures
        0 <= find_name(s, name) <= s.len(),
        find_name(s, name) < s.len() ==> s[find_name(s, name)].0 == name,
        forall|j: int| 0 <= j < find_name(s, name) ==> s[j].0 != name,
        find_name(s, name) == s.len() ==> !has_name(s, name),
    decreases s.len(),
{
    if s.len() == 0 {
    } else if s[0].0 == name {
    } else {
        let t = s.subrange(1, s.len() as int);
        lemma_find_name(t, name);
        assert forall|j: int| 0 <= j < find_name(s, name) implies s[j].0 != name by {
            if j > 0 {
                assert(s[j] == t[j - 1]);
            }
        }
        if find_name(s, name) == s.len() {
            assert forall|i: int| 0 <= i < s.len() implies s[i].0 != name by {
                if i > 0 {
                    assert(s[i] == t[i - 1]);
                }
            }
        }
    }
}

/// The dependency list after declaring `name` at `d`: the first entry named
/// `name` is overwritten in place, or a new entry is appended.
pub open spec fn upsert(
    s: Seq<(Seq<char>, DepView)>,
    name: Seq<char>,
    d: DepView,
) -> Seq<(Seq<char>, DepView)> {
    if find_name(s, name) < s.len() {
        s.update(find_name(s, name), (name, d))
    } else {
        s.push((name, d))
    }
}

impl Manifest {
    /// Model validity: dependency names unique in each of the two lists.
    pub open spec fn wf(&self) -> bool {
        names_unique(self@.dependencies) && names_unique(self@.dev_dependencies)
    }

    /// Create a fresh manifest for a package of the given kind, with the
    /// stock initial fields and the kind's conventional entry point.
    pub fn new(name: String, package_type: PackageType) -> (r: Self)
        ensures
            r@.package.name == name@,
            r@.package.version == "0.1.0"@,
            r@.package.authors == seq!["Your Name <you@example.com>"@],
            r@.package.description is None,
            r@.package.license == Some("MIT"@),
            r@.package.repository is None,
            r@.package.package_type == package_type,
            r@.package.entry == Some(default_entry(package_type)),
            r@.dependencies =~= Seq::<(Seq<char>, DepView)>::empty(),
            r@.dev_dependencies =~= Seq::<(Seq<char>, DepView)>::empty(),
            r.wf(),
    {
        let entry: String = match package_type {
            PackageType::Bin => "src/main.flow".to_owned(),
            PackageType::Lib => "src/lib.flow".to_owned(),
            PackageType::Native => "src/lib.c".to_owned(),
        };
        let authors: Vec<String> = vec!["Your Name <you@example.com>".to_owned()];
        let r = Manifest {
            package: Package {
                name,
                version: "0.1.0".to_owned(),
                authors,
                description: None,
                license: Some("MIT".to_owned()),
                repository: None,
                package_type,
                entry: Some(entry),
            },
            dependencies: Vec::new(),
            dev_dependencies: Vec::new(),
        };
        proof {
            assert(r@.package.authors =~= seq!["Your Name <you@example.com>"@]);
        }
        r
    }

    /// Declare a versioned dependency; re-declaring a name overwrites it.
    pub fn add_dependency(&mut self, name: String, version: String)
        requires
            old(self).wf(),
        ensures
            final(self)@.package == old(self)@.package,
            final(self)@.dev_dependencies == old(self)@.dev_dependencies,
            final(self)@.dependencies == upsert(
                old(self)@.dependencies,
                name@,
                DepView::Version(version@),
            ),
            final(self).wf(),
    {
        let ghost s = self@.dependencies;
        proof {
            lemma_find_name(s, name@);
        }
        let mut i: usize = 0;
        let n = self.dependencies.len();
        while i < n
            invariant
                n == self.dependencies.len(),
                i <= n,
                *self == *old(self),
                old(self).wf(),
                s == self@.dependencies,
                names_unique(s),
                forall|j: int| 0 <= j < i ==> s[j].0 != name@,
            decreases n - i,
        {
            proof {
                assert(s[i as int].0 == self.dependencies@[i as int].0@);
            }
            if string_eq(&self.dependencies[i].0, &name) {
                proof {
                    lemma_find_name(s, name@);
                    assert(find_name(s, name@) == i);
                }
                self.dependencies.set(i, (name, Dependency::Version(version)));
                proof {
                    assert(self@.dependencies =~~= upsert(
                        s,
                        name@,
                        DepView::Version(version@),
                    ));
                    assert forall|a: int| 0 <= a < self@.dependencies.len() implies (
                    self@.dependencies[a].0 == s[a].0) by {
                        assert(self@.dependencies[a] == s.update(
                            i as int,
                            (name@, DepView::Version(version@)),
                        )[a]);
                    }
                }
                return ;
            }
            i = i + 1;
        }
        proof {
            assert(find_name(s, name@) == s.len());
        }
        self.dependencies.push((name, Dependency::Version(version)));
        proof {
            assert(self@.dependencies =~~= upsert(s, name@, DepView::Version(version@)));
        }
    }

    /// Drop the dependency named `name`; reports whether it was declared.
    pub fn remove_dependency(&mut self, name: &str) -> (r: bool)
        requires
            old(self).wf(),
        ensures
            final(self)@.package == old(self)@.package,
            final(self)@.dev_dependencies == old(self)@.dev_dependencies,
            r == has_name(old(self)@.dependencies, name@),
            r ==> final(self)@.dependencies == old(self)@.dependencies.remove(
                find_name(old(self)@.dependencies, name@),
            ),
            !r ==> final(self)@.dependencies == old(self)@.dependencies,
            final(self).wf(),
    {
        let ghost s = self@.dependencies;
        proof {
            lemma_find_name(s, name@);
        }
        let mut i: usize = 0;
        let n = self.dependencies.len();
        while i < n
            invariant
                n == self.dependencies.len(),
                i <= n,
                *self == *old(self),
                old(self).wf(),
                s == self@.dependencies,
                names_unique(s),
                forall|j: int| 0 <= j < i ==> s[j].0 != name@,
            decreases n - i,
        {
            proof {
                assert(s[i as int].0 == self.dependencies@[i as int].0@);
            }
            if str_eq_string(name, &self.dependencies[i].0) {
                proof {
                    lemma_find_name(s, name@);
                    assert(find_name(s, name@) == i);
                }
                self.dependencies.remove(i);
                proof {
                    assert(self@.dependencies =~~= s.remove(find_name(s, name@)));
                    assert forall|a: int| 0 <= a < self@.dependencies.len() implies (
                    self@.dependencies[a].0 == (if a < i { s[a] } else { s[a + 1] }).0) by {
                        assert(self@.dependencies[a] == s.remove(i as int)[a]);
                    }
                    assert(names_unique(self@.dependencies));
                }
                return true;
            }
            i = i + 1;
        }
        proof {
            assert(find_name(s, name@) == s.len());
        }
        false
    }

    /// All declared dependencies, in declaration order.
    pub fn all_dependencies(&self) -> (r: Vec<(String, Dependency)>)
        ensures
            r.deep_view() == self@.dependencies,
    {
        clone_dep_entries(&self.dependencies)
    }
}

/// The conventional entry point for a package of the given kind.
pub open spec fn default_entry(package_type: PackageType) -> Seq<char> {
    match package_type {
        PackageType::Bin => "src/main.flow"@,
        PackageType::Lib => "src/lib.flow"@,
        PackageType::Native => "src/lib.c"@,
    }
}

/// The package kind a command-line word names, if it names one.
pub fn parse_package_kind(s: &str) -> (r: Option<PackageType>)
    ensures
        s@ == "bin"@ || s@ == "binary"@ || s@ == "executable"@ ==> r == Some(PackageType::Bin),
        s@ == "lib"@ || s@ == "library"@ ==> r == Some(PackageType::Lib),
        s@ == "native"@ ==> r == Some(PackageType::Native),
        s@ != "bin"@ && s@ != "binary"@ && s@ != "executable"@ && s@ != "lib"@ && s@ != "library"@
            && s@ != "native"@ ==> r is None,
{
    proof {
        reveal_strlit("bin");
        reveal_strlit("binary");
        reveal_strlit("executable");
        reveal_strlit("lib");
        reveal_strlit("library");
        reveal_strlit("native");
        assert("lib"@ != "bin"@) by {
            if "lib"@ == "bin"@ {
                assert("lib"@[0] == 'b');
            }
        }
        assert("native"@ != "binary"@) by {
            if "native"@ == "binary"@ {
                assert("native"@[0] == 'b');
            }
        }
        assert("bin"@.len() == 3);
        assert("binary"@.len() == 6);
        assert("executable"@.len() == 10);
        assert("lib"@.len() == 3);
        assert("library"@.len() == 7);
        assert("native"@.len() == 6);
    }
    let owned = s.to_owned();
    if str_eq_string("bin", &owned) || str_eq_string("binary", &owned) || str_eq_string(
        "executable",
        &owned,
    ) {
        Some(PackageType::Bin)
    } else if str_eq_string("lib", &owned) || str_eq_string("library", &owned) {
        Some(PackageType::Lib)
    } else if str_eq_string("native", &owned) {
        Some(PackageType::Native)
    } else {
        None
    }
}

/// `String` equality compares the characters.
pub fn string_eq(a: &String, b: &String) -> (r: bool)
    ensures
        r == (a@ == b@),
{
    a.eq(b)
}

/// `&str` against `String`, by characters.
pub fn str_eq_string(a: &str, b: &String) -> (r: bool)
    ensures
        r == (a@ == b@),
{
    let owned = a.to_owned();
    owned.eq(b)
}

} // verus!

