use river::builder::{
    choose_c_compiler, compile_outcome, compiler_candidates, flow_compile_args,
    native_compile_args, object_artifact_path, plan_flow_compile, plan_native_compile,
    select_compiler, CompilerProbe,
};
use river::error::RiverError;
use river::manifest::{Manifest, PackageType};
use river::package::Package;
use river::resolver::ResolvedDependency;

fn package_of(kind: PackageType, name: &str) -> Package {
    let manifest = Manifest::new(name.to_string(), kind);
    Package { manifest, root_dir: ".".to_string() }
}

#[test]
fn test_scenario_executable_no_deps() {
    let pkg = package_of(PackageType::Bin, "foo");
    let compiler = "flowbase".to_string();
    let plan = plan_flow_compile(&pkg, &compiler, true, &vec![], &vec![]).expect("plans");
    assert_eq!(plan.program, "flowbase");
    assert_eq!(
        plan.args,
        vec!["./src/main.flow".to_string(), "-o".to_string(), "./target/foo".to_string()]
    );
}

#[test]
fn test_scenario_prebuilt_dep_becomes_object() {
    // a dependency artifact without an extension is an object file by convention
    let artifact = object_artifact_path("target/libutil");
    assert_eq!(artifact, "target/libutil.o");

    let pkg = package_of(PackageType::Bin, "app");
    let compiler = "flowbase".to_string();
    let deps = vec![ResolvedDependency {
        name: "util".to_string(),
        version: "1.0.0".to_string(),
        path: "store/util-1.0.0".to_string(),
        lib_path: Some("store/util-1.0.0/target".to_string()),
    }];
    let plan = plan_flow_compile(&pkg, &compiler, true, &vec![artifact], &deps).expect("plans");
    assert_eq!(
        plan.args,
        vec![
            "./src/main.flow".to_string(),
            "-o".to_string(),
            "./target/app".to_string(),
            "target/libutil.o".to_string(),
            "-L".to_string(),
            "store/util-1.0.0/target".to_string(),
        ]
    );
}

#[test]
fn test_scenario_library_object_only() {
    let pkg = package_of(PackageType::Lib, "lib");
    let compiler = "flowbase".to_string();
    let deps = vec![ResolvedDependency {
        name: "util".to_string(),
        version: "1.0.0".to_string(),
        path: "store/util-1.0.0".to_string(),
        lib_path: Some("store/util-1.0.0/target".to_string()),
    }];
    let objects = vec!["store/util-1.0.0/target/libutil.o".to_string()];
    let plan = plan_flow_compile(&pkg, &compiler, true, &objects, &deps).expect("plans");
    // the object-only flag is passed and no dependency object joins the link
    assert_eq!(
        plan.args,
        vec![
            "./src/lib.flow".to_string(),
            "-c".to_string(),
            "-o".to_string(),
            "./target/liblib".to_string(),
            "-L".to_string(),
            "store/util-1.0.0/target".to_string(),
        ]
    );
}

#[test]
fn test_missing_entry_point_is_fatal() {
    let pkg = package_of(PackageType::Bin, "foo");
    let compiler = "flowbase".to_string();
    let err = plan_flow_compile(&pkg, &compiler, false, &vec![], &vec![]).unwrap_err();
    assert_eq!(err, RiverError::EntryPointNotFound { path: "./src/main.flow".to_string() });
}

#[test]
fn test_object_artifact_keeps_extension() {
    assert_eq!(object_artifact_path("target/libnat.o"), "target/libnat.o");
    assert_eq!(object_artifact_path("a.dir/noext"), "a.dir/noext.o");
}

#[test]
fn test_native_compile_command() {
    let pkg = package_of(PackageType::Native, "nat");
    let cc = "gcc".to_string();
    let plan = plan_native_compile(&pkg, &cc, true).expect("plans");
    assert_eq!(plan.program, "gcc");
    assert_eq!(
        plan.args,
        vec![
            "-c".to_string(),
            "-fPIC".to_string(),
            "-O2".to_string(),
            "./src/lib.c".to_string(),
            "-o".to_string(),
            "./target/libnat.o".to_string(),
        ]
    );
    assert_eq!(native_compile_args("s.c", "out.o").len(), 6);
}

#[test]
fn test_compiler_candidates_order() {
    let without_home = compiler_candidates(&None);
    assert_eq!(
        without_home,
        vec![
            CompilerProbe::File("../flowbase/build/flowbase".to_string()),
            CompilerProbe::File("../../flowbase/build/flowbase".to_string()),
            CompilerProbe::File("flowbase/build/flowbase".to_string()),
            CompilerProbe::Named("flowbase".to_string()),
            CompilerProbe::Named("flow".to_string()),
        ]
    );
    let with_home = compiler_candidates(&Some("/opt/flow".to_string()));
    assert_eq!(with_home.len(), 9);
    assert_eq!(with_home[5], CompilerProbe::File("/opt/flow/build/flowbase".to_string()));
    assert_eq!(with_home[6], CompilerProbe::File("/opt/flow/bin/flowbase".to_string()));
    assert_eq!(with_home[7], CompilerProbe::File("/opt/flow/build/flow".to_string()));
    assert_eq!(with_home[8], CompilerProbe::File("/opt/flow/bin/flow".to_string()));
}

#[test]
fn test_select_compiler_first_found() {
    let results = vec![None, Some("/usr/bin/flow".to_string()), Some("/other".to_string())];
    assert_eq!(select_compiler(&results).unwrap(), "/usr/bin/flow");
}

#[test]
fn test_select_compiler_none_found() {
    let results: Vec<Option<String>> = vec![None, None];
    assert_eq!(select_compiler(&results).unwrap_err(), RiverError::CompilerNotFound);
}

#[test]
fn test_choose_c_compiler() {
    assert_eq!(
        choose_c_compiler(Some("tcc".to_string()), false, false, false).unwrap(),
        "tcc"
    );
    assert_eq!(choose_c_compiler(None, true, true, true).unwrap(), "cc");
    assert_eq!(choose_c_compiler(None, false, true, true).unwrap(), "gcc");
    assert_eq!(choose_c_compiler(None, false, false, true).unwrap(), "clang");
    assert_eq!(
        choose_c_compiler(None, false, false, false).unwrap_err(),
        RiverError::CompilerNotFound
    );
}

#[test]
fn test_compile_outcome() {
    let pkg = package_of(PackageType::Bin, "foo");
    assert_eq!(compile_outcome(&pkg, true).unwrap(), "./target/foo");
    assert_eq!(compile_outcome(&pkg, false).unwrap_err(), RiverError::CompilationFailed);
}

#[test]
fn test_flow_compile_args_library_flag() {
    let args = flow_compile_args("e.flow", "out", true, &vec!["x.o".to_string()], &vec![]);
    assert_eq!(
        args,
        vec!["e.flow".to_string(), "-c".to_string(), "-o".to_string(), "out".to_string()]
    );
}
