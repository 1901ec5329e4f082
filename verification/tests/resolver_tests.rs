use river::config::{Config, PathsConfig, RegistryConfig};
use river::error::RiverError;
use river::manifest::{Dependency, Manifest, PackageType};
use river::package::Package;
use river::resolver::{DepProbe, Resolver};

fn test_config() -> Config {
    Config {
        registry: RegistryConfig { url: "https://registry.flowc.dev".to_string(), token: None },
        paths: PathsConfig {
            packages: "/home/u/.river/packages".to_string(),
            cache: "/home/u/.river/cache".to_string(),
        },
    }
}

fn package_with(deps: Vec<(String, Dependency)>) -> Package {
    let mut manifest = Manifest::new("app".to_string(), PackageType::Bin);
    manifest.dependencies = deps;
    Package { manifest, root_dir: "/work/app".to_string() }
}

#[test]
fn test_resolve_no_dependencies() {
    let pkg = package_with(vec![]);
    let resolver = Resolver::new(&pkg);
    let resolved = resolver.resolve(&test_config(), &vec![]).expect("no deps resolve");
    assert!(resolved.is_empty());
}

#[test]
fn test_resolve_missing_version_dep_fails_offline() {
    let pkg = package_with(vec![(
        "util".to_string(),
        Dependency::Version("1.0.0".to_string()),
    )]);
    let resolver = Resolver::new(&pkg);
    let probes = vec![DepProbe { exists: false, has_target: false }];
    let err = resolver.resolve(&test_config(), &probes).unwrap_err();
    assert_eq!(
        err,
        RiverError::DependencyNotFound { name: "util".to_string(), version: "1.0.0".to_string() }
    );
}

#[test]
fn test_resolve_version_dep_with_target() {
    let pkg = package_with(vec![(
        "util".to_string(),
        Dependency::Version("1.0.0".to_string()),
    )]);
    let resolver = Resolver::new(&pkg);
    let probes = vec![DepProbe { exists: true, has_target: true }];
    let resolved = resolver.resolve(&test_config(), &probes).expect("should resolve");
    assert_eq!(resolved.len(), 1);
    assert_eq!(resolved[0].name, "util");
    assert_eq!(resolved[0].version, "1.0.0");
    assert_eq!(resolved[0].path, "/home/u/.river/packages/util-1.0.0");
    assert_eq!(
        resolved[0].lib_path,
        Some("/home/u/.river/packages/util-1.0.0/target".to_string())
    );
}

#[test]
fn test_resolve_version_dep_without_target() {
    let pkg = package_with(vec![(
        "util".to_string(),
        Dependency::Version("1.0.0".to_string()),
    )]);
    let resolver = Resolver::new(&pkg);
    let probes = vec![DepProbe { exists: true, has_target: false }];
    let resolved = resolver.resolve(&test_config(), &probes).expect("should resolve");
    assert_eq!(resolved[0].lib_path, None);
}

#[test]
fn test_resolve_path_dep() {
    let pkg = package_with(vec![(
        "local".to_string(),
        Dependency::Path { path: "vendor/local".to_string() },
    )]);
    let resolver = Resolver::new(&pkg);
    let probes = vec![DepProbe { exists: true, has_target: true }];
    let resolved = resolver.resolve(&test_config(), &probes).expect("should resolve");
    assert_eq!(resolved[0].version, "local");
    assert_eq!(resolved[0].path, "/work/app/vendor/local");
    assert_eq!(resolved[0].lib_path, Some("/work/app/vendor/local/target".to_string()));
}

#[test]
fn test_resolve_path_dep_missing() {
    let pkg = package_with(vec![(
        "local".to_string(),
        Dependency::Path { path: "vendor/local".to_string() },
    )]);
    let resolver = Resolver::new(&pkg);
    let probes = vec![DepProbe { exists: false, has_target: false }];
    let err = resolver.resolve(&test_config(), &probes).unwrap_err();
    assert_eq!(
        err,
        RiverError::PathDependencyNotFound { path: "/work/app/vendor/local".to_string() }
    );
}

#[test]
fn test_resolve_git_dep() {
    let pkg = package_with(vec![(
        "remote".to_string(),
        Dependency::Git {
            git: "https://example.com/r.git".to_string(),
            branch: None,
            tag: None,
            rev: None,
        },
    )]);
    let resolver = Resolver::new(&pkg);
    let probes = vec![DepProbe { exists: true, has_target: false }];
    let resolved = resolver.resolve(&test_config(), &probes).expect("should resolve");
    assert_eq!(resolved[0].version, "git+https://example.com/r.git");
    assert_eq!(resolved[0].path, "/home/u/.river/cache/remote-git");
}

#[test]
fn test_resolve_git_dep_not_cloned() {
    let pkg = package_with(vec![(
        "remote".to_string(),
        Dependency::Git {
            git: "https://example.com/r.git".to_string(),
            branch: None,
            tag: None,
            rev: None,
        },
    )]);
    let resolver = Resolver::new(&pkg);
    let probes = vec![DepProbe { exists: false, has_target: false }];
    let err = resolver.resolve(&test_config(), &probes).unwrap_err();
    assert_eq!(err, RiverError::GitDependencyNotCloned { name: "remote".to_string() });
}

#[test]
fn test_resolve_detailed_dep_uses_version() {
    let pkg = package_with(vec![(
        "extra".to_string(),
        Dependency::Detailed {
            version: "2.0.0".to_string(),
            optional: true,
            features: vec!["x".to_string()],
        },
    )]);
    let resolver = Resolver::new(&pkg);
    let probes = vec![DepProbe { exists: true, has_target: false }];
    let resolved = resolver.resolve(&test_config(), &probes).expect("should resolve");
    assert_eq!(resolved[0].version, "2.0.0");
    assert_eq!(resolved[0].path, "/home/u/.river/packages/extra-2.0.0");
}

#[test]
fn test_resolve_stops_at_first_missing() {
    let pkg = package_with(vec![
        ("a".to_string(), Dependency::Version("1".to_string())),
        ("b".to_string(), Dependency::Version("2".to_string())),
        ("c".to_string(), Dependency::Version("3".to_string())),
    ]);
    let resolver = Resolver::new(&pkg);
    let probes = vec![
        DepProbe { exists: true, has_target: false },
        DepProbe { exists: false, has_target: false },
        DepProbe { exists: false, has_target: false },
    ];
    let err = resolver.resolve(&test_config(), &probes).unwrap_err();
    assert_eq!(
        err,
        RiverError::DependencyNotFound { name: "b".to_string(), version: "2".to_string() }
    );
}

#[test]
fn test_resolve_idempotent() {
    let pkg = package_with(vec![
        ("a".to_string(), Dependency::Version("1".to_string())),
        ("local".to_string(), Dependency::Path { path: "sub".to_string() }),
    ]);
    let resolver = Resolver::new(&pkg);
    let probes = vec![
        DepProbe { exists: true, has_target: true },
        DepProbe { exists: true, has_target: false },
    ];
    let first = resolver.resolve(&test_config(), &probes).expect("resolves");
    let second = resolver.resolve(&test_config(), &probes).expect("resolves");
    assert_eq!(first, second);
}

#[test]
fn test_candidate_paths() {
    let pkg = package_with(vec![
        ("a".to_string(), Dependency::Version("1".to_string())),
        ("local".to_string(), Dependency::Path { path: "sub".to_string() }),
        (
            "g".to_string(),
            Dependency::Git {
                git: "u".to_string(),
                branch: None,
                tag: None,
                rev: None,
            },
        ),
    ]);
    let resolver = Resolver::new(&pkg);
    let paths = resolver.candidate_paths(&test_config());
    assert_eq!(
        paths,
        vec![
            "/home/u/.river/packages/a-1".to_string(),
            "/work/app/sub".to_string(),
            "/home/u/.river/cache/g-git".to_string(),
        ]
    );
}

#[test]
fn test_resolve_dependency_single() {
    let pkg = package_with(vec![]);
    let resolver = Resolver::new(&pkg);
    let cfg = test_config();
    let ok = resolver
        .resolve_dependency(
            &"util".to_string(),
            &Dependency::Version("1.0.0".to_string()),
            &cfg,
            DepProbe { exists: true, has_target: true },
        )
        .expect("resolves");
    assert_eq!(ok.path, "/home/u/.river/packages/util-1.0.0");
    let err = resolver
        .resolve_dependency(
            &"util".to_string(),
            &Dependency::Version("1.0.0".to_string()),
            &cfg,
            DepProbe { exists: false, has_target: false },
        )
        .unwrap_err();
    assert_eq!(
        err,
        RiverError::DependencyNotFound { name: "util".to_string(), version: "1.0.0".to_string() }
    );
}
