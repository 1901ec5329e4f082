use river::config::Config;
use river::error::RiverError;
use river::manifest::{Manifest, PackageType};
use river::package::{manifest_path, Package};

fn handle(kind: PackageType, name: &str, root: &str) -> Package {
    Package { manifest: Manifest::new(name.to_string(), kind), root_dir: root.to_string() }
}

#[test]
fn test_directories() {
    let pkg = handle(PackageType::Bin, "foo", "/work/foo");
    assert_eq!(pkg.src_dir(), "/work/foo/src");
    assert_eq!(pkg.build_dir(), "/work/foo/target");
    assert_eq!(manifest_path("/work/foo"), "/work/foo/River.toml");
}

#[test]
fn test_entry_point_from_manifest() {
    let pkg = handle(PackageType::Bin, "foo", "/w");
    assert_eq!(pkg.entry_point(), "/w/src/main.flow");
    let mut custom = handle(PackageType::Bin, "foo", "/w");
    custom.manifest.package.entry = Some("alt/main.flow".to_string());
    assert_eq!(custom.entry_point(), "/w/alt/main.flow");
}

#[test]
fn test_entry_point_defaults_by_kind() {
    let mut pkg = handle(PackageType::Lib, "foo", "/w");
    pkg.manifest.package.entry = None;
    assert_eq!(pkg.entry_point(), "/w/src/lib.flow");
    pkg.manifest.package.package_type = PackageType::Native;
    assert_eq!(pkg.entry_point(), "/w/src/lib.c");
    pkg.manifest.package.package_type = PackageType::Bin;
    assert_eq!(pkg.entry_point(), "/w/src/main.flow");
}

#[test]
fn test_kind_predicates() {
    let bin = handle(PackageType::Bin, "b", "/w");
    assert!(bin.is_binary() && !bin.is_library() && !bin.is_native());
    let lib = handle(PackageType::Lib, "l", "/w");
    assert!(lib.is_library() && !lib.is_binary() && !lib.is_native());
    let nat = handle(PackageType::Native, "n", "/w");
    assert!(nat.is_native() && !nat.is_binary() && !nat.is_library());
}

#[test]
fn test_binary_name_by_kind() {
    assert_eq!(handle(PackageType::Bin, "foo", "/w").binary_name(), "foo");
    assert_eq!(handle(PackageType::Lib, "foo", "/w").binary_name(), "libfoo");
    assert_eq!(handle(PackageType::Native, "foo", "/w").binary_name(), "libfoo.o");
}

#[test]
fn test_output_path() {
    assert_eq!(handle(PackageType::Bin, "foo", "/w").output_path(), "/w/target/foo");
    assert_eq!(handle(PackageType::Native, "foo", "/w").output_path(), "/w/target/libfoo.o");
}

#[test]
fn test_load_missing_manifest() {
    let err = Package::load("/w/app".to_string(), &None).unwrap_err();
    assert_eq!(err, RiverError::ManifestMissing { path: "/w/app/River.toml".to_string() });
}

#[test]
fn test_load_invalid_manifest() {
    let err = Package::load("/w/app".to_string(), &Some("garbage".to_string())).unwrap_err();
    assert_eq!(err, RiverError::ManifestInvalid { path: "/w/app/River.toml".to_string() });
}

#[test]
fn test_load_round_trips_manifest() {
    let manifest = Manifest::new("app".to_string(), PackageType::Lib);
    let text = manifest.to_text();
    let pkg = Package::load("/w/app".to_string(), &Some(text)).expect("loads");
    assert_eq!(pkg.manifest, manifest);
    assert_eq!(pkg.root_dir, "/w/app");
}

#[test]
fn test_default_config_paths() {
    let cfg = Config::default_with("/home/u", None);
    assert_eq!(cfg.registry.url, "https://registry.flowc.dev");
    assert_eq!(cfg.registry.token, None);
    assert_eq!(cfg.paths.packages, "/home/u/.river/packages");
    assert_eq!(cfg.paths.cache, "/home/u/.river/cache");
}

#[test]
fn test_default_config_with_override() {
    let cfg = Config::default_with("/home/u", Some("https://mirror.example".to_string()));
    assert_eq!(cfg.registry.url, "https://mirror.example");
}
