use river::checksum::{calculate_checksum, verify_checksum, verify_download};
use river::error::RiverError;
use river::manifest::{Manifest, PackageType};
use river::registry::{
    download_url, interpret_download_status, interpret_metadata_status, interpret_publish_response,
    interpret_search_response, interpret_versions_response, package_info_url, plan_publish,
    publish_url, search_url, store_dir, tarball_path, versions_url, SearchResult,
};

#[test]
fn test_urls() {
    let base = "https://registry.flowc.dev";
    assert_eq!(package_info_url(base, "util"), "https://registry.flowc.dev/packages/util");
    assert_eq!(
        download_url(base, "util", "1.0.0"),
        "https://registry.flowc.dev/packages/util/1.0.0/download"
    );
    assert_eq!(
        versions_url(base, "util"),
        "https://registry.flowc.dev/packages/util/versions"
    );
    assert_eq!(search_url(base, "json"), "https://registry.flowc.dev/search?q=json&limit=20");
    assert_eq!(publish_url(base), "https://registry.flowc.dev/publish");
}

#[test]
fn test_store_and_cache_paths() {
    assert_eq!(store_dir("/s", "util", "1.0.0"), "/s/util-1.0.0");
    assert_eq!(tarball_path("/c", "util", "1.0.0"), "/c/util-1.0.0.tar.gz");
}

#[test]
fn test_metadata_status() {
    assert!(interpret_metadata_status(200, "util").is_ok());
    assert_eq!(
        interpret_metadata_status(404, "util").unwrap_err(),
        RiverError::PackageNotFound { name: "util".to_string() }
    );
    assert_eq!(
        interpret_metadata_status(500, "util").unwrap_err(),
        RiverError::RegistryError { status: 500, detail: String::new() }
    );
}

#[test]
fn test_download_status() {
    assert!(interpret_download_status(204).is_ok());
    assert_eq!(
        interpret_download_status(403).unwrap_err(),
        RiverError::RegistryError { status: 403, detail: String::new() }
    );
}

#[test]
fn test_search_empty_is_not_an_error() {
    let results: Vec<SearchResult> = vec![];
    let out = interpret_search_response(200, results).expect("empty search is fine");
    assert!(out.is_empty());
}

#[test]
fn test_search_passes_results_through() {
    let results = vec![SearchResult {
        name: "util".to_string(),
        version: "1.0.0".to_string(),
        description: None,
        downloads: 7,
    }];
    let out = interpret_search_response(200, results.clone()).expect("ok");
    assert_eq!(out, results);
    assert_eq!(
        interpret_search_response(500, vec![]).unwrap_err(),
        RiverError::RegistryError { status: 500, detail: String::new() }
    );
}

#[test]
fn test_versions_response() {
    let versions = vec!["1.0.0".to_string(), "1.1.0".to_string()];
    assert_eq!(interpret_versions_response(200, "u", versions.clone()).unwrap(), versions);
    assert_eq!(
        interpret_versions_response(404, "u", vec![]).unwrap_err(),
        RiverError::PackageNotFound { name: "u".to_string() }
    );
}

#[test]
fn test_publish_response() {
    assert!(interpret_publish_response(200, String::new()).is_ok());
    assert_eq!(
        interpret_publish_response(400, "bad archive".to_string()).unwrap_err(),
        RiverError::RegistryError { status: 400, detail: "bad archive".to_string() }
    );
}

#[test]
fn test_known_checksum() {
    // SHA-256 of "abc"
    assert_eq!(
        calculate_checksum(b"abc"),
        "ba7816bf8f01cfea414140de5dae2223b00361a396177a9cb410ff61f20015ad"
    );
}

fn reference_checksum(data: &[u8]) -> String {
    // computed independently with the digest crate's own interface
    let out = <sha2::Sha256 as sha2::Digest>::digest(data);
    let mut hex = String::new();
    for b in out.as_slice() {
        hex.push_str(&format!("{:02x}", b));
    }
    hex
}

#[test]
fn test_checksum_matches_reference() {
    let data = b"river package payload";
    let expected = reference_checksum(data);
    assert!(verify_checksum(data, &expected));
    assert_eq!(calculate_checksum(data), expected);
}

#[test]
fn test_checksum_mismatch_rejects_download() {
    let data = b"river package payload";
    let good = reference_checksum(data);
    // flip one hexadecimal character
    let mut bad = good.clone().into_bytes();
    bad[0] = if bad[0] == b'0' { b'1' } else { b'0' };
    let bad = String::from_utf8(bad).unwrap();

    let ok = verify_download(data, &Some(good.clone())).expect("matching digest passes");
    assert_eq!(ok, good);
    let err = verify_download(data, &Some(bad.clone())).unwrap_err();
    assert_eq!(err, RiverError::ChecksumMismatch { expected: bad, computed: good });
}

#[test]
fn test_download_without_declared_checksum() {
    let data = b"payload";
    let computed = verify_download(data, &None).expect("nothing to verify");
    assert_eq!(computed, reference_checksum(data));
}

#[test]
fn test_publish_requires_token() {
    let manifest = Manifest::new("demo".to_string(), PackageType::Bin);
    let err = plan_publish(&manifest, "https://r", &None, "/s", "/c", true).unwrap_err();
    assert_eq!(err, RiverError::AuthenticationRequired);
}

#[test]
fn test_publish_requires_store_dir() {
    let manifest = Manifest::new("demo".to_string(), PackageType::Bin);
    let token = Some("tok123".to_string());
    let err = plan_publish(&manifest, "https://r", &token, "/s", "/c", false).unwrap_err();
    assert_eq!(err, RiverError::PackageDirMissing { path: "/s/demo-0.1.0".to_string() });
}

#[test]
fn test_publish_plan_fields() {
    let mut manifest = Manifest::new("demo".to_string(), PackageType::Bin);
    manifest.package.description = Some("a demo".to_string());
    manifest.package.repository = Some("https://example.com/demo".to_string());
    let token = Some("tok123".to_string());
    let plan = plan_publish(&manifest, "https://r", &token, "/s", "/c", true).expect("plans");
    assert_eq!(plan.url, "https://r/publish");
    assert_eq!(plan.package_dir, "/s/demo-0.1.0");
    assert_eq!(plan.tarball, "/c/demo-0.1.0.tar.gz");
    assert_eq!(plan.fields.name, "demo");
    assert_eq!(plan.fields.version, "0.1.0");
    assert_eq!(plan.fields.description, "a demo");
    assert_eq!(plan.fields.author, "Your Name <you@example.com>");
    assert_eq!(plan.fields.license, "MIT");
    assert_eq!(plan.fields.repository, "https://example.com/demo");
    assert_eq!(plan.fields.homepage, "https://example.com/demo");
}

#[test]
fn test_publish_plan_defaults() {
    let mut manifest = Manifest::new("demo".to_string(), PackageType::Bin);
    manifest.package.authors = vec![];
    manifest.package.license = None;
    let token = Some("tok123".to_string());
    let plan = plan_publish(&manifest, "https://r", &token, "/s", "/c", true).expect("plans");
    assert_eq!(plan.fields.description, "");
    assert_eq!(plan.fields.author, "Unknown");
    assert_eq!(plan.fields.license, "MIT");
    assert_eq!(plan.fields.repository, "");
}
