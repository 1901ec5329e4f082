use vstd::prelude::*;
use crate::error::{ErrView, RiverError};
use crate::package::{entry_rel_spec, output_path_spec, Package};
use crate::resolver::{RdView, ResolvedDependency};
use crate::strutil::{concat2, path_join};

verus! {

/// A fully determined compiler invocation: the program to run and its
/// arguments, in order.
#[derive(Debug, Clone, PartialEq, Eq)]
pub struct CompileCommand {
    pub program: String,
    pub args: Vec<String>,
}

/// One place to look for a compiler binary: a concrete file to test for
/// existence, or a program name to look up on the search path.
#[derive(Debug, Clone, PartialEq, Eq)]
pub enum CompilerProbe {
    File(String),
    Named(String),
}

/// Mathematical shape of a compiler probe.
#[verifier::ext_equal]
pub enum CompilerProbeView {
    File(Seq<char>),
    Named(Seq<char>),
}

impl View for CompilerProbe {
    type V = CompilerProbeView;

    open spec fn view(&self) -> CompilerProbeView {
        match self {
            CompilerProbe::File(p) => CompilerProbeView::File(p@),
            CompilerProbe::Named(n) => CompilerProbeView::Named(n@),
        }
    }
}

impl DeepView for CompilerProbe {
    type V = CompilerProbeView;

    open spec fn deep_view(&self) -> CompilerProbeView {
        self.view()
    }
}

/// The ordered places the managed-language compiler is searched for:
/// conventional checkouts near the package root, then the search path
/// under both binary names, then the toolchain home when one is set.
pub open spec fn compiler_candidates_spec(flow_home: Option<Seq<char>>) -> Seq<CompilerProbeView> {
    seq![
        CompilerProbeView::File("../flowbase/build/flowbase"@),
        CompilerProbeView::File("../../flowbase/build/flowbase"@),
        CompilerProbeView::File("flowbase/build/flowbase"@),
        CompilerProbeView::Named("flowbase"@),
        CompilerProbeView::Named("flow"@),
    ] + match flow_home {
        Some(h) => seq![
            CompilerProbeView::File(path_join(h, "build/flowbase"@)),
            CompilerProbeView::File(path_join(h, "bin/flowbase"@)),
            CompilerProbeView::File(path_join(h, "build/flow"@)),
            CompilerProbeView::File(path_join(h, "bin/flow"@)),
        ],
        None => Seq::<CompilerProbeView>::empty(),
    }
}

/// The candidate list as executable values; `flow_home` is the value of
/// the toolchain-home environment variable, when set.
pub fn compiler_candidates(flow_home: &Option<String>) -> (r: Vec<CompilerProbe>)
    ensures
        r.deep_view() == compiler_candidates_spec(flow_home.deep_view()),
{
    let mut r: Vec<CompilerProbe> = Vec::new();
    r.push(CompilerProbe::File("../flowbase/build/flowbase".to_owned()));
    r.push(CompilerProbe::File("../../flowbase/build/flowbase".to_owned()));
    r.push(CompilerProbe::File("flowbase/build/flowbase".to_owned()));
    r.push(CompilerProbe::Named("flowbase".to_owned()));
    r.push(CompilerProbe::Named("flow".to_owned()));
    match flow_home {
        Some(h) => {
            r.push(CompilerProbe::File(crate::strutil::join_path(h.as_str(), "build/flowbase")));
            r.push(CompilerProbe::File(crate::strutil::join_path(h.as_str(), "bin/flowbase")));
            r.push(CompilerProbe::File(crate::strutil::join_path(h.as_str(), "build/flow")));
            r.push(CompilerProbe::File(crate::strutil::join_path(h.as_str(), "bin/flow")));
        },
        None => {},
    }
    proof {
        assert(r.deep_view() =~~= compiler_candidates_spec(flow_home.deep_view()));
    }
    r
}

/// Index of the first probe that found something, or the length when every
/// one came back empty.
pub open spec fn first_some(results: Seq<Option<Seq<char>>>) -> int
    decreases results.len(),
{
    if results.len() == 0 {
        0
    } else if results[0] is Some {
        0
    } else {
        1 + first_some(results.subrange(1, results.len() as int))
    }
}

/// `first_some` is the first index that found something, or the length.
pub proof fn lemma_first_some(results: Seq<Option<Seq<char>>>)
    ensures
        0 <= first_some(results) <= results.len(),
        first_some(results) < results.len() ==> results[first_some(results)] is Some,
        forall|j: int| 0 <= j < first_some(results) ==> results[j] is None,
    decreases results.len(),
{
    if results.len() == 0 {
    } else if results[0] is Some {
    } else {
        let t = results.subrange(1, results.len() as int);
        lemma_first_some(t);
        assert forall|j: int| 0 <= j < first_some(results) implies results[j] is None by {
            if j > 0 {
                assert(results[j] == t[j - 1]);
            }
        }
    }
}

/// The outcome of the compiler search: what the first successful probe
/// found, or `CompilerNotFound` when every candidate came back empty.
/// This failure is fatal for a build; no partial build proceeds.
pub fn select_compiler(results: &Vec<Option<String>>) -> (r: Result<String, RiverError>)
    ensures
        first_some(results.deep_view()) < results@.len() ==> (r matches Ok(s)
            && results.deep_view()[first_some(results.deep_view())] == Some(s@)),
        first_some(results.deep_view()) == results@.len() ==> (r matches Err(e) && e@
            == ErrView::CompilerNotFound),
{
    let ghost rs = results.deep_view();
    proof {
        lemma_first_some(rs);
    }
    let mut i: usize = 0;
    let n = results.len();
    while i < n
        invariant
            i <= n,
            n == results@.len(),
            rs == results.deep_view(),
            forall|j: int| 0 <= j < i ==> rs[j] is None,
        decreases n - i,
    {
        proof {
            assert(rs[i as int] == results@[i as int].deep_view());
        }
        match &results[i] {
            Some(found) => {
                proof {
                    lemma_first_some(rs);
                    assert(first_some(rs) == i);
                }
                return Ok(found.clone());
            },
            None => {},
        }
        i = i + 1;
    }
    proof {
        lemma_first_some(rs);
        assert(first_some(rs) == rs.len());
    }
    Err(RiverError::CompilerNotFound)
}

/// The C compiler to use: an explicit override wins unprobed, else the
/// first of `cc`, `gcc`, `clang` present on the search path, else failure.
pub fn choose_c_compiler(cc_env: Option<String>, cc: bool, gcc: bool, clang: bool) -> (r: Result<
    String,
    RiverError,
>)
    ensures
        cc_env matches Some(c) ==> (r matches Ok(s) && s@ == c@),
        cc_env is None && cc ==> (r matches Ok(s) && s@ == "cc"@),
        cc_env is None && !cc && gcc ==> (r matches Ok(s) && s@ == "gcc"@),
        cc_env is None && !cc && !gcc && clang ==> (r matches Ok(s) && s@ == "clang"@),
        cc_env is None && !cc && !gcc && !clang ==> (r matches Err(e) && e@
            == ErrView::CompilerNotFound),
{
    match cc_env {
        Some(c) => Ok(c),
        None => {
            if cc {
                Ok("cc".to_owned())
            } else if gcc {
                Ok("gcc".to_owned())
            } else if clang {
                Ok("clang".to_owned())
            } else {
                Err(RiverError::CompilerNotFound)
            }
        },
    }
}

/// Where the file name of `p` begins: the index right after its last `/`.
pub open spec fn file_name_start(p: Seq<char>) -> int
    decreases p.len(),
{
    if p.len() == 0 {
        0
    } else if p[p.len() - 1] == '/' {
        p.len() as int
    } else {
        file_name_start(p.take(p.len() - 1))
    }
}

/// Whether the file name of `p` carries an extension: a `.` after its
/// first character.
pub open spec fn has_extension(p: Seq<char>) -> bool {
    exists|i: int| file_name_start(p) < i < p.len() && p[i] == '.'
}

/// A dependency artifact under the name the link step expects: artifacts
/// without an extension are object files by convention and get `.o`.
pub open spec fn object_artifact_spec(p: Seq<char>) -> Seq<char> {
    if has_extension(p) {
        p
    } else {
        p + ".o"@
    }
}

proof fn lemma_file_name_start_bounds(p: Seq<char>)
    ensures
        0 <= file_name_start(p) <= p.len(),
    decreases p.len(),
{
    if p.len() == 0 {
    } else if p[p.len() - 1] == '/' {
    } else {
        lemma_file_name_start_bounds(p.take(p.len() - 1));
    }
}

/// The path under which a built dependency artifact is passed to the
/// linker.
pub fn object_artifact_path(p: &str) -> (r: String)
    ensures
        r@ == object_artifact_spec(p@),
{
    let n = p.unicode_len();
    proof {
        lemma_file_name_start_bounds(p@);
        assert(p@.take(n as int) =~= p@);
    }
    // walk back to the character after the last `/`
    let mut j: usize = n;
    while j > 0
        invariant
            j <= n,
            n == p@.len(),
            file_name_start(p@) == file_name_start(p@.take(j as int)),
            file_name_start(p@) <= j,
        ensures
            file_name_start(p@) == j,
        decreases j,
    {
        if p.get_char(j - 1) == '/' {
            proof {
                assert(p@.take(j as int).len() == j);
                assert(p@.take(j as int)[j - 1] == '/');
                assert(file_name_start(p@.take(j as int)) == j);
            }
            break ;
        }
        proof {
            assert(p@.take(j as int).len() == j);
            assert(p@.take(j as int)[j - 1] != '/');
            assert(p@.take(j as int).take(j - 1 as int) =~= p@.take(j - 1 as int));
            lemma_file_name_start_bounds(p@.take(j - 1 as int));
        }
        j = j - 1;
    }
    let start = j;
    // look for a `.` after the first character of the file name
    let mut i: usize = start;
    let mut found = false;
    while i < n
        invariant_except_break
            start <= i,
            i <= n,
            n == p@.len(),
            start == file_name_start(p@),
            !found,
            forall|k: int| start < k < i ==> p@[k] != '.',
        ensures
            found == has_extension(p@),
        decreases n - i,
    {
        if i > start && p.get_char(i) == '.' {
            found = true;
            proof {
                assert(has_extension(p@));
            }
            break ;
        }
        i = i + 1;
    }
    if found {
        p.to_owned()
    } else {
        concat2(p, ".o")
    }
}

/// The `-L` search-path arguments: one pair per resolved dependency that
/// exposes a compiled-artifact directory, in order.
pub open spec fn lib_args_spec(deps: Seq<RdView>) -> Seq<Seq<char>>
    decreases deps.len(),
{
    if deps.len() == 0 {
        Seq::empty()
    } else {
        lib_args_spec(deps.drop_last()) + match deps.last().lib_path {
            Some(lp) => seq!["-L"@, lp],
            None => Seq::<Seq<char>>::empty(),
        }
    }
}

/// The argument list of a managed-language compiler invocation: the entry
/// point; an object-only flag for a library; the output; for an
/// executable, every dependency artifact as a link input; and a search
/// path per dependency that exposes one.
pub open spec fn flow_args_spec(
    entry: Seq<char>,
    output: Seq<char>,
    is_library: bool,
    dep_objects: Seq<Seq<char>>,
    deps: Seq<RdView>,
) -> Seq<Seq<char>> {
    seq![entry] + (if is_library {
        seq!["-c"@]
    } else {
        Seq::<Seq<char>>::empty()
    }) + seq!["-o"@, output] + (if is_library {
        Seq::<Seq<char>>::empty()
    } else {
        dep_objects
    }) + lib_args_spec(deps)
}

/// The argument list of a native C compilation: a relocatable, optimized
/// object built from the entry source.
pub open spec fn native_args_spec(entry: Seq<char>, output: Seq<char>) -> Seq<Seq<char>> {
    seq!["-c"@, "-fPIC"@, "-O2"@, entry, "-o"@, output]
}

fn push_dep_objects(args: &mut Vec<String>, dep_objects: &Vec<String>)
    ensures
        final(args).deep_view() == old(args).deep_view() + dep_objects.deep_view(),
{
    let mut i: usize = 0;
    let n = dep_objects.len();
    while i < n
        invariant
            i <= n,
            n == dep_objects@.len(),
            args@.len() == old(args)@.len() + i,
            args.deep_view() =~= old(args).deep_view() + dep_objects.deep_view().take(i as int),
        decreases n - i,
    {
        let ghost before = args.deep_view();
        args.push(dep_objects[i].clone());
        proof {
            assert(args.deep_view() =~= before.push(dep_objects.deep_view()[i as int]));
            assert(args.deep_view() =~= old(args).deep_view() + dep_objects.deep_view().take(
                i as int + 1,
            ));
        }
        i = i + 1;
    }
    proof {
        assert(args.deep_view() =~= old(args).deep_view() + dep_objects.deep_view());
    }
}

fn push_lib_args(args: &mut Vec<String>, deps: &Vec<ResolvedDependency>)
    ensures
        final(args).deep_view() == old(args).deep_view() + lib_args_spec(deps.deep_view()),
{
    let mut i: usize = 0;
    let n = deps.len();
    while i < n
        invariant
            i <= n,
            n == deps@.len(),
            args.deep_view() =~= old(args).deep_view() + lib_args_spec(
                deps.deep_view().take(i as int),
            ),
        decreases n - i,
    {
        proof {
            assert(deps.deep_view()[i as int] == deps@[i as int].deep_view());
        }
        let ghost before = args.deep_view();
        match &deps[i].lib_path {
            Some(lp) => {
                args.push("-L".to_owned());
                proof {
                    assert(args.deep_view() =~= before.push("-L"@));
                }
                args.push(lp.clone());
                proof {
                    assert(args.deep_view() =~= before + seq!["-L"@, lp@]);
                }
            },
            None => {},
        }
        proof {
            let taken = deps.deep_view().take(i as int + 1);
            assert(taken.drop_last() =~= deps.deep_view().take(i as int));
            assert(taken.last() == deps.deep_view()[i as int]);
            assert(args.deep_view() =~= old(args).deep_view() + lib_args_spec(taken));
        }
        i = i + 1;
    }
    proof {
        assert(deps.deep_view().take(n as int) =~= deps.deep_view());
    }
}

/// The full argument list for compiling a managed-language package.
pub fn flow_compile_args(
    entry: &str,
    output: &str,
    is_library: bool,
    dep_objects: &Vec<String>,
    deps: &Vec<ResolvedDependency>,
) -> (r: Vec<String>)
    ensures
        r.deep_view() == flow_args_spec(
            entry@,
            output@,
            is_library,
            dep_objects.deep_view(),
            deps.deep_view(),
        ),
{
    let mut args: Vec<String> = Vec::new();
    args.push(entry.to_owned());
    if is_library {
        args.push("-c".to_owned());
    }
    args.push("-o".to_owned());
    args.push(output.to_owned());
    if !is_library {
        push_dep_objects(&mut args, dep_objects);
    }
    push_lib_args(&mut args, deps);
    proof {
        assert(args.deep_view() =~~= flow_args_spec(
            entry@,
            output@,
            is_library,
            dep_objects.deep_view(),
            deps.deep_view(),
        ));
    }
    args
}

/// The full argument list for compiling a native C package.
pub fn native_compile_args(entry: &str, output: &str) -> (r: Vec<String>)
    ensures
        r.deep_view() == native_args_spec(entry@, output@),
{
    let mut args: Vec<String> = Vec::new();
    args.push("-c".to_owned());
    args.push("-fPIC".to_owned());
    args.push("-O2".to_owned());
    args.push(entry.to_owned());
    args.push("-o".to_owned());
    args.push(output.to_owned());
    proof {
        assert(args.deep_view() =~~= native_args_spec(entry@, output@));
    }
    args
}

/// Plan the compiler invocation for a managed-language package, given the
/// compiler that was found, whether the entry point file exists, the
/// artifacts of the already-built dependencies, and the resolved
/// dependency list. An absent entry point is fatal before any invocation.
pub fn plan_flow_compile(
    package: &Package,
    compiler: &String,
    entry_exists: bool,
    dep_objects: &Vec<String>,
    deps: &Vec<ResolvedDependency>,
) -> (r: Result<CompileCommand, RiverError>)
    ensures
        !entry_exists ==> (r matches Err(e) && e@ == (ErrView::EntryPointNotFound {
            path: path_join(package.root_dir@, entry_rel_spec(package.manifest@.package)),
        })),
        entry_exists ==> (r matches Ok(c) && c.program@ == compiler@ && c.args.deep_view()
            == flow_args_spec(
            path_join(package.root_dir@, entry_rel_spec(package.manifest@.package)),
            output_path_spec(package.manifest@.package, package.root_dir@),
            package.manifest@.package.package_type == crate::manifest::PackageType::Lib,
            dep_objects.deep_view(),
            deps.deep_view(),
        )),
{
    let entry = package.entry_point();
    if !entry_exists {
        return Err(RiverError::EntryPointNotFound { path: entry });
    }
    let output = package.output_path();
    let is_library = package.is_library();
    let args = flow_compile_args(entry.as_str(), output.as_str(), is_library, dep_objects, deps);
    Ok(CompileCommand { program: compiler.clone(), args })
}

/// Plan the C compiler invocation for a native package. Native packages
/// are leaf nodes: no dependency resolution takes part in the plan.
pub fn plan_native_compile(package: &Package, cc: &String, entry_exists: bool) -> (r: Result<
    CompileCommand,
    RiverError,
>)
    ensures
        !entry_exists ==> (r matches Err(e) && e@ == (ErrView::EntryPointNotFound {
            path: path_join(package.root_dir@, entry_rel_spec(package.manifest@.package)),
        })),
        entry_exists ==> (r matches Ok(c) && c.program@ == cc@ && c.args.deep_view()
            == native_args_spec(
            path_join(package.root_dir@, entry_rel_spec(package.manifest@.package)),
            output_path_spec(package.manifest@.package, package.root_dir@),
        )),
{
    let entry = package.entry_point();
    if !entry_exists {
        return Err(RiverError::EntryPointNotFound { path: entry });
    }
    let output = package.output_path();
    let args = native_compile_args(entry.as_str(), output.as_str());
    Ok(CompileCommand { program: cc.clone(), args })
}

/// The build outcome once the compiler subprocess has finished: the
/// artifact path on success, `CompilationFailed` on a non-zero exit.
pub fn compile_outcome(package: &Package, exit_ok: bool) -> (r: Result<String, RiverError>)
    ensures
        exit_ok ==> (r matches Ok(p) && p@ == output_path_spec(
            package.manifest@.package,
            package.root_dir@,
        )),
        !exit_ok ==> (r matches Err(e) && e@ == ErrView::CompilationFailed),
{
    if exit_ok {
        Ok(package.output_path())
    } else {
        Err(RiverError::CompilationFailed)
    }
}

} // verus!
