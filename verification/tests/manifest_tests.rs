use river::manifest::{Dependency, Manifest, PackageType};

fn sample_manifest() -> Manifest {
    let mut m = Manifest::new("demo".to_string(), PackageType::Bin);
    m.package.description = Some("a demo package".to_string());
    m.package.repository = Some("https://example.com/demo.git".to_string());
    m.add_dependency("util".to_string(), "1.0.0".to_string());
    m.dependencies.push((
        "extra".to_string(),
        Dependency::Detailed {
            version: "2.1.0".to_string(),
            optional: true,
            features: vec!["json".to_string(), "fast, safe".to_string()],
        },
    ));
    m.dependencies.push((
        "local".to_string(),
        Dependency::Path { path: "../local".to_string() },
    ));
    m.dependencies.push((
        "remote".to_string(),
        Dependency::Git {
            git: "https://example.com/remote.git".to_string(),
            branch: Some("main".to_string()),
            tag: None,
            rev: Some("abc123".to_string()),
        },
    ));
    m.dev_dependencies.push((
        "testkit".to_string(),
        Dependency::Version("0.3.0".to_string()),
    ));
    m
}

#[test]
fn test_new_manifest_defaults() {
    let m = Manifest::new("demo".to_string(), PackageType::Bin);
    assert_eq!(m.package.name, "demo");
    assert_eq!(m.package.version, "0.1.0");
    assert_eq!(m.package.authors, vec!["Your Name <you@example.com>".to_string()]);
    assert_eq!(m.package.description, None);
    assert_eq!(m.package.license, Some("MIT".to_string()));
    assert_eq!(m.package.repository, None);
    assert_eq!(m.package.package_type, PackageType::Bin);
    assert_eq!(m.package.entry, Some("src/main.flow".to_string()));
    assert!(m.dependencies.is_empty());
    assert!(m.dev_dependencies.is_empty());
}

#[test]
fn test_new_manifest_entries_by_kind() {
    let lib = Manifest::new("l".to_string(), PackageType::Lib);
    assert_eq!(lib.package.entry, Some("src/lib.flow".to_string()));
    let native = Manifest::new("n".to_string(), PackageType::Native);
    assert_eq!(native.package.entry, Some("src/lib.c".to_string()));
}

#[test]
fn test_add_dependency_overwrites() {
    let mut m = Manifest::new("demo".to_string(), PackageType::Bin);
    m.add_dependency("util".to_string(), "1.0.0".to_string());
    m.add_dependency("other".to_string(), "0.2.0".to_string());
    m.add_dependency("util".to_string(), "1.1.0".to_string());
    let deps = m.all_dependencies();
    assert_eq!(deps.len(), 2);
    assert_eq!(deps[0].0, "util");
    assert_eq!(deps[0].1, Dependency::Version("1.1.0".to_string()));
    assert_eq!(deps[1].0, "other");
}

#[test]
fn test_remove_dependency() {
    let mut m = Manifest::new("demo".to_string(), PackageType::Bin);
    m.add_dependency("util".to_string(), "1.0.0".to_string());
    assert!(m.remove_dependency("util"));
    assert!(!m.remove_dependency("util"));
    assert!(m.all_dependencies().is_empty());
}

#[test]
fn test_to_text_exact() {
    let m = Manifest::new("demo".to_string(), PackageType::Bin);
    let expected = "[package]\n\
                    name = \"demo\"\n\
                    version = \"0.1.0\"\n\
                    authors = [\"Your Name <you@example.com>\"]\n\
                    license = \"MIT\"\n\
                    type = \"bin\"\n\
                    entry = \"src/main.flow\"\n";
    assert_eq!(m.to_text(), expected);
}

#[test]
fn test_round_trip_full() {
    let m = sample_manifest();
    let text = m.to_text();
    let back = Manifest::from_text(&text).expect("round trip should parse");
    assert_eq!(back, m);
}

#[test]
fn test_round_trip_minimal() {
    let mut m = Manifest::new("tiny".to_string(), PackageType::Lib);
    m.package.license = None;
    m.package.entry = None;
    let text = m.to_text();
    let back = Manifest::from_text(&text).expect("round trip should parse");
    assert_eq!(back, m);
}

#[test]
fn test_from_text_defaults_for_absent_fields() {
    let text = "[package]\n\
                name = \"bare\"\n\
                version = \"0.2.0\"\n\
                authors = []\n\
                type = \"lib\"\n";
    let m = Manifest::from_text(text).expect("minimal manifest should parse");
    assert_eq!(m.package.name, "bare");
    assert_eq!(m.package.version, "0.2.0");
    assert!(m.package.authors.is_empty());
    assert_eq!(m.package.description, None);
    assert_eq!(m.package.license, None);
    assert_eq!(m.package.repository, None);
    assert_eq!(m.package.entry, None);
    assert!(m.dependencies.is_empty());
    assert!(m.dev_dependencies.is_empty());
}

#[test]
fn test_from_text_detailed_defaults() {
    let text = "[package]\n\
                name = \"p\"\n\
                version = \"1.0.0\"\n\
                authors = []\n\
                type = \"bin\"\n\
                [dependencies.x]\n\
                version = \"2.0.0\"\n\
                optional = true\n";
    let m = Manifest::from_text(text).expect("should parse");
    assert_eq!(
        m.dependencies[0].1,
        Dependency::Detailed {
            version: "2.0.0".to_string(),
            optional: true,
            features: vec![],
        }
    );
}

#[test]
fn test_from_text_rejects_missing_name() {
    let text = "[package]\nversion = \"0.1.0\"\nauthors = []\ntype = \"bin\"\n";
    assert!(Manifest::from_text(text).is_none());
}

#[test]
fn test_from_text_rejects_bad_kind() {
    let text = "[package]\nname = \"x\"\nversion = \"0.1.0\"\nauthors = []\ntype = \"exe\"\n";
    assert!(Manifest::from_text(text).is_none());
}

#[test]
fn test_from_text_rejects_duplicate_dependency() {
    let text = "[package]\n\
                name = \"p\"\n\
                version = \"1.0.0\"\n\
                authors = []\n\
                type = \"bin\"\n\
                [dependencies.x]\n\
                version = \"1.0.0\"\n\
                [dependencies.x]\n\
                version = \"2.0.0\"\n";
    assert!(Manifest::from_text(text).is_none());
}

#[test]
fn test_from_text_rejects_trailing_garbage() {
    let text = "[package]\nname = \"x\"\nversion = \"0.1.0\"\nauthors = []\ntype = \"bin\"\nnot a binding\n";
    assert!(Manifest::from_text(text).is_none());
}

#[test]
fn test_package_type_default() {
    assert_eq!(PackageType::default(), PackageType::Bin);
}

#[test]
fn test_parse_package_kind() {
    assert_eq!(river::manifest::parse_package_kind("bin"), Some(PackageType::Bin));
    assert_eq!(river::manifest::parse_package_kind("binary"), Some(PackageType::Bin));
    assert_eq!(river::manifest::parse_package_kind("executable"), Some(PackageType::Bin));
    assert_eq!(river::manifest::parse_package_kind("lib"), Some(PackageType::Lib));
    assert_eq!(river::manifest::parse_package_kind("library"), Some(PackageType::Lib));
    assert_eq!(river::manifest::parse_package_kind("native"), Some(PackageType::Native));
    assert_eq!(river::manifest::parse_package_kind("exe"), None);
}
