use vstd::prelude::*;
use crate::config::Config;
use crate::error::{ErrView, RiverError};
use crate::manifest::{DepView, Dependency};
use crate::package::Package;
use crate::strutil::{concat2, concat3, join_path, path_join};

verus! {

/// What the filesystem said about one dependency's candidate directory:
/// whether the directory itself exists, and whether it holds a `target`
/// build output area.
#[derive(Debug, Clone, Copy, PartialEq, Eq, Structural)]
pub struct DepProbe {
    pub exists: bool,
    pub has_target: bool,
}

/// A dependency turned into a concrete location: its package directory,
/// plus the compiled-artifact directory when the package has one.
#[derive(Debug, Clone, PartialEq, Eq)]
pub struct ResolvedDependency {
    pub name: String,
    pub version: String,
    pub path: String,
    pub lib_path: Option<String>,
}

/// Mathematical shape of a resolved dependency.
#[verifier::ext_equal]
pub struct RdView {
    pub name: Seq<char>,
    pub version: Seq<char>,
    pub path: Seq<char>,
    pub lib_path: Option<Seq<char>>,
}

impl View for ResolvedDependency {
    type V = RdView;

    open spec fn view(&self) -> RdView {
        RdView {
            name: self.name@,
            version: self.version@,
            path: self.path@,
            lib_path: self.lib_path.deep_view(),
        }
    }
}

impl DeepView for ResolvedDependency {
    type V = RdView;

    open spec fn deep_view(&self) -> RdView {
        self.view()
    }
}

/// The directory a dependency must already occupy to resolve: a store
/// entry for versioned ones, a directory under the package root for path
/// ones, a clone cache entry for git ones.
pub open spec fn dep_dir_spec(
    name: Seq<char>,
    dep: DepView,
    root: Seq<char>,
    packages: Seq<char>,
    cache: Seq<char>,
) -> Seq<char> {
    match dep {
        DepView::Version(v) => path_join(packages, name + "-"@ + v),
        DepView::Detailed { version, .. } => path_join(packages, name + "-"@ + version),
        DepView::Path { path } => path_join(root, path),
        DepView::Git { .. } => path_join(cache, name + "-git"@),
    }
}

/// The version string a resolved dependency reports.
pub open spec fn dep_version_spec(dep: DepView) -> Seq<char> {
    match dep {
        DepView::Version(v) => v,
        DepView::Detailed { version, .. } => version,
        DepView::Path { .. } => "local"@,
        DepView::Git { git, .. } => "git+"@ + git,
    }
}

/// The resolved form of one dependency whose directory exists.
pub open spec fn rd_spec(
    name: Seq<char>,
    dep: DepView,
    root: Seq<char>,
    packages: Seq<char>,
    cache: Seq<char>,
    probe: DepProbe,
) -> RdView {
    let dir = dep_dir_spec(name, dep, root, packages, cache);
    RdView {
        name: name,
        version: dep_version_spec(dep),
        path: dir,
        lib_path: if probe.has_target {
            Some(path_join(dir, "target"@))
        } else {
            None
        },
    }
}

/// The error reported when a dependency's directory is absent. Resolution
/// never reaches for the network in that case: the answer is this error,
/// naming what was missing.
pub open spec fn resolve_err_spec(
    name: Seq<char>,
    dep: DepView,
    root: Seq<char>,
) -> ErrView {
    match dep {
        DepView::Version(v) => (ErrView::DependencyNotFound { name: name, version: v }),
        DepView::Detailed { version, .. } => (ErrView::DependencyNotFound {
            name: name,
            version: version,
        }),
        DepView::Path { path } => (ErrView::PathDependencyNotFound {
            path: path_join(root, path),
        }),
        DepView::Git { .. } => (ErrView::GitDependencyNotCloned { name: name }),
    }
}

/// Index of the first probe whose directory is absent, or the length when
/// every one exists.
pub open spec fn first_missing(probes: Seq<DepProbe>) -> int
    decreases probes.len(),
{
    if probes.len() == 0 {
        0
    } else if !probes[0].exists {
        0
    } else {
        1 + first_missing(probes.subrange(1, probes.len() as int))
    }
}

/// `first_missing` is the first absent index, or the length when none is.
pub proof fn lemma_first_missing(probes: Seq<DepProbe>)
    ensures
        0 <= first_missing(probes) <= probes.len(),
        first_missing(probes) < probes.len() ==> !probes[first_missing(probes)].exists,
        forall|j: int| 0 <= j < first_missing(probes) ==> probes[j].exists,
        first_missing(probes) == probes.len() ==> forall|j: int|
            0 <= j < probes.len() ==> probes[j].exists,
    decreases probes.len(),
{
    if probes.len() == 0 {
    } else if !probes[0].exists {
    } else {
        let t = probes.subrange(1, probes.len() as int);
        lemma_first_missing(t);
        assert forall|j: int| 0 <= j < first_missing(probes) implies probes[j].exists by {
            if j > 0 {
                assert(probes[j] == t[j - 1]);
            }
        }
        if first_missing(probes) == probes.len() {
            assert forall|j: int| 0 <= j < probes.len() implies probes[j].exists by {
                if j > 0 {
                    assert(probes[j] == t[j - 1]);
                }
            }
        }
    }
}

/// The whole resolved sequence, in declaration order.
pub open spec fn resolve_all_spec(
    deps: Seq<(Seq<char>, DepView)>,
    root: Seq<char>,
    packages: Seq<char>,
    cache: Seq<char>,
    probes: Seq<DepProbe>,
) -> Seq<RdView> {
    Seq::new(deps.len(), |i: int| rd_spec(deps[i].0, deps[i].1, root, packages, cache, probes[i]))
}

/// Everything `resolve` promises: when every dependency directory exists,
/// the full resolved sequence in declaration order; otherwise the error of
/// the first dependency whose directory is absent.
pub open spec fn resolve_post(
    r: Result<Vec<ResolvedDependency>, RiverError>,
    deps: Seq<(Seq<char>, DepView)>,
    root: Seq<char>,
    packages: Seq<char>,
    cache: Seq<char>,
    probes: Seq<DepProbe>,
) -> bool {
    &&& probes.len() == deps.len()
    &&& if first_missing(probes) == probes.len() {
        r matches Ok(v) && v.deep_view() == resolve_all_spec(deps, root, packages, cache, probes)
    } else {
        r matches Err(e) && e@ == resolve_err_spec(
            deps[first_missing(probes)].0,
            deps[first_missing(probes)].1,
            root,
        )
    }
}

/// A package that declares no dependencies resolves to the empty
/// sequence, whatever the store holds: nothing is there to fetch, and a
/// build of it has no dependency to recurse into.
pub proof fn lemma_resolve_empty_deps(
    r: Result<Vec<ResolvedDependency>, RiverError>,
    deps: Seq<(Seq<char>, DepView)>,
    root: Seq<char>,
    packages: Seq<char>,
    cache: Seq<char>,
    probes: Seq<DepProbe>,
)
    requires
        resolve_post(r, deps, root, packages, cache, probes),
        deps.len() == 0,
    ensures
        r matches Ok(v) && v.deep_view() =~= Seq::<RdView>::empty(),
{
}

/// A versioned dependency whose store directory is absent makes
/// resolution fail with `DependencyNotFound` for exactly that name and
/// version: the error is the whole answer, and no fetch takes its place.
pub proof fn lemma_missing_version_dep(
    r: Result<Vec<ResolvedDependency>, RiverError>,
    deps: Seq<(Seq<char>, DepView)>,
    root: Seq<char>,
    packages: Seq<char>,
    cache: Seq<char>,
    probes: Seq<DepProbe>,
    j: int,
)
    requires
        resolve_post(r, deps, root, packages, cache, probes),
        0 <= j < deps.len(),
        deps[j].1 is Version,
        !probes[j].exists,
        forall|k: int| 0 <= k < j ==> probes[k].exists,
    ensures
        r matches Err(e) && deps[j].1 matches DepView::Version(ver) && e@
            == (ErrView::DependencyNotFound { name: deps[j].0, version: ver }),
{
    lemma_first_missing(probes);
    if first_missing(probes) < j {
        assert(probes[first_missing(probes)].exists);
    }
    assert(first_missing(probes) == j);
}

/// Resolution is a function of the declarations and the store facts
/// alone: two runs over an unchanged package and store answer
/// structurally equal sequences, or the same error.
pub proof fn lemma_resolve_idempotent(
    r1: Result<Vec<ResolvedDependency>, RiverError>,
    r2: Result<Vec<ResolvedDependency>, RiverError>,
    deps: Seq<(Seq<char>, DepView)>,
    root: Seq<char>,
    packages: Seq<char>,
    cache: Seq<char>,
    probes: Seq<DepProbe>,
)
    requires
        resolve_post(r1, deps, root, packages, cache, probes),
        resolve_post(r2, deps, root, packages, cache, probes),
    ensures
        r1 matches Ok(v1) ==> (r2 matches Ok(v2) && v1.deep_view() == v2.deep_view()),
        r1 matches Err(e1) ==> (r2 matches Err(e2) && e1@ == e2@),
{
}

/// Resolves a package's declared dependencies against the package store.
/// Resolution is pure and offline: the store layout enters as `DepProbe`
/// facts, and nothing is fetched or written.
pub struct Resolver<'a> {
    pub package: &'a Package,
}

impl<'a> Resolver<'a> {
    /// A resolver for the given package.
    pub fn new(package: &'a Package) -> (r: Self)
        ensures
            r.package == package,
    {
        Resolver { package }
    }

    /// The directory each declared dependency would resolve to, in
    /// declaration order. Callers probe these (and their `target`
    /// subdirectories) and hand the findings to `resolve`.
    pub fn candidate_paths(&self, config: &Config) -> (r: Vec<String>)
        ensures
            r.deep_view() == Seq::new(
                self.package.manifest@.dependencies.len(),
                |i: int|
                    dep_dir_spec(
                        self.package.manifest@.dependencies[i].0,
                        self.package.manifest@.dependencies[i].1,
                        self.package.root_dir@,
                        config.paths.packages@,
                        config.paths.cache@,
                    ),
            ),
    {
        let ghost deps = self.package.manifest@.dependencies;
        let ghost target = Seq::new(
            deps.len(),
            |i: int|
                dep_dir_spec(
                    deps[i].0,
                    deps[i].1,
                    self.package.root_dir@,
                    config.paths.packages@,
                    config.paths.cache@,
                ),
        );
        let mut r: Vec<String> = Vec::new();
        let n = self.package.manifest.dependencies.len();
        let mut i: usize = 0;
        while i < n
            invariant
                i <= n,
                n == self.package.manifest.dependencies@.len(),
                deps == self.package.manifest@.dependencies,
                target == Seq::new(
                    deps.len(),
                    |k: int|
                        dep_dir_spec(
                            deps[k].0,
                            deps[k].1,
                            self.package.root_dir@,
                            config.paths.packages@,
                            config.paths.cache@,
                        ),
                ),
                r@.len() == i,
                r.deep_view() =~= target.take(i as int),
            decreases n - i,
        {
            let (name, dep) = &self.package.manifest.dependencies[i];
            let dir = dep_dir(
                name,
                dep,
                self.package.root_dir.as_str(),
                config.paths.packages.as_str(),
                config.paths.cache.as_str(),
            );
            proof {
                assert(deps[i as int].0 == self.package.manifest.dependencies@[i as int].0@);
                assert(deps[i as int].1 == self.package.manifest.dependencies@[i as int].1@);
            }
            r.push(dir);
            proof {
                assert(r.deep_view() =~= target.take(i as int + 1));
            }
            i = i + 1;
        }
        proof {
            assert(r.deep_view() =~= target);
        }
        r
    }

    /// Resolve one declared dependency against the probe of its
    /// candidate directory: its concrete location when the directory
    /// exists, the dependency's own error when it does not.
    pub fn resolve_dependency(
        &self,
        name: &String,
        dep: &Dependency,
        config: &Config,
        probe: DepProbe,
    ) -> (r: Result<ResolvedDependency, RiverError>)
        ensures
            probe.exists ==> (r matches Ok(rd) && rd@ == rd_spec(
                name@,
                dep@,
                self.package.root_dir@,
                config.paths.packages@,
                config.paths.cache@,
                probe,
            )),
            !probe.exists ==> (r matches Err(e) && e@ == resolve_err_spec(
                name@,
                dep@,
                self.package.root_dir@,
            )),
    {
        if !probe.exists {
            return Err(missing_dep_error(name, dep, self.package.root_dir.as_str()));
        }
        let dir = dep_dir(
            name,
            dep,
            self.package.root_dir.as_str(),
            config.paths.packages.as_str(),
            config.paths.cache.as_str(),
        );
        let version: String = match dep {
            Dependency::Version(v) => v.clone(),
            Dependency::Detailed { version, .. } => version.clone(),
            Dependency::Path { .. } => "local".to_owned(),
            Dependency::Git { git, .. } => concat2("git+", git.as_str()),
        };
        let lib_path: Option<String> = if probe.has_target {
            Some(join_path(dir.as_str(), "target"))
        } else {
            None
        };
        let rd = ResolvedDependency { name: name.clone(), version, path: dir, lib_path };
        proof {
            assert(rd@ =~~= rd_spec(
                name@,
                dep@,
                self.package.root_dir@,
                config.paths.packages@,
                config.paths.cache@,
                probe,
            ));
        }
        Ok(rd)
    }

    /// Resolve every declared dependency, in declaration order, against
    /// the probe results for the candidate directories. Fails with the
    /// first absent dependency's error; never touches the network.
    pub fn resolve(&self, config: &Config, probes: &Vec<DepProbe>) -> (r: Result<
        Vec<ResolvedDependency>,
        RiverError,
    >)
        requires
            probes@.len() == self.package.manifest.dependencies@.len(),
        ensures
            resolve_post(
                r,
                self.package.manifest@.dependencies,
                self.package.root_dir@,
                config.paths.packages@,
                config.paths.cache@,
                probes@,
            ),
    {
        let ghost deps = self.package.manifest@.dependencies;
        let ghost root = self.package.root_dir@;
        let ghost packages = config.paths.packages@;
        let ghost cache = config.paths.cache@;
        let ghost all = resolve_all_spec(deps, root, packages, cache, probes@);
        let mut out: Vec<ResolvedDependency> = Vec::new();
        let n = self.package.manifest.dependencies.len();
        let mut i: usize = 0;
        while i < n
            invariant
                i <= n,
                n == self.package.manifest.dependencies@.len(),
                probes@.len() == n,
                deps == self.package.manifest@.dependencies,
                root == self.package.root_dir@,
                packages == config.paths.packages@,
                cache == config.paths.cache@,
                all == resolve_all_spec(deps, root, packages, cache, probes@),
                forall|k: int| 0 <= k < i ==> probes@[k].exists,
                out@.len() == i,
                out.deep_view() =~= all.take(i as int),
            decreases n - i,
        {
            proof {
                assert(deps[i as int].0 == self.package.manifest.dependencies@[i as int].0@);
                assert(deps[i as int].1 == self.package.manifest.dependencies@[i as int].1@);
            }
            let (name, dep) = &self.package.manifest.dependencies[i];
            let probe = probes[i];
            let rd = match self.resolve_dependency(name, dep, config, probe) {
                Ok(rd) => rd,
                Err(e) => {
                    proof {
                        lemma_first_missing(probes@);
                        assert(first_missing(probes@) == i);
                    }
                    return Err(e);
                },
            };
            out.push(rd);
            proof {
                assert(out.deep_view() =~= all.take(i as int + 1));
            }
            i = i + 1;
        }
        proof {
            lemma_first_missing(probes@);
            assert(first_missing(probes@) == probes@.len());
            assert(out.deep_view() =~= all);
        }
        Ok(out)
    }
}

/// The candidate directory of one dependency, as an executable value.
fn dep_dir(name: &String, dep: &Dependency, root: &str, packages: &str, cache: &str) -> (r: String)
    ensures
        r@ == dep_dir_spec(name@, dep@, root@, packages@, cache@),
{
    match dep {
        Dependency::Version(v) => {
            let stem = concat3(name.as_str(), "-", v.as_str());
            join_path(packages, stem.as_str())
        },
        Dependency::Detailed { version, .. } => {
            let stem = concat3(name.as_str(), "-", version.as_str());
            join_path(packages, stem.as_str())
        },
        Dependency::Path { path } => join_path(root, path.as_str()),
        Dependency::Git { .. } => {
            let stem = concat2(name.as_str(), "-git");
            join_path(cache, stem.as_str())
        },
    }
}

/// The error for one absent dependency directory.
fn missing_dep_error(name: &String, dep: &Dependency, root: &str) -> (r: RiverError)
    ensures
        r@ == resolve_err_spec(name@, dep@, root@),
{
    match dep {
        Dependency::Version(v) => (RiverError::DependencyNotFound {
            name: name.clone(),
            version: v.clone(),
        }),
        Dependency::Detailed { version, .. } => (RiverError::DependencyNotFound {
            name: name.clone(),
            version: version.clone(),
        }),
        Dependency::Path { path } => (RiverError::PathDependencyNotFound {
            path: join_path(root, path.as_str()),
        }),
        Dependency::Git { .. } => (RiverError::GitDependencyNotCloned { name: name.clone() }),
    }
}

} // verus!
