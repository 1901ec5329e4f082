use vstd::prelude::*;
use crate::error::{ErrView, RiverError};
use crate::manifest::Manifest;
use crate::strutil::{concat2, concat3, concat4, path_join};

verus! {

/// Package metadata as the registry reports it.
#[derive(Debug, Clone, PartialEq, Eq)]
pub struct PackageInfo {
    pub name: String,
    pub version: String,
    pub description: Option<String>,
    pub author: String,
    pub license: Option<String>,
    pub download_url: String,
    pub checksum: Option<String>,
    pub dependencies: Vec<String>,
    pub repository: Option<String>,
    pub homepage: Option<String>,
    pub keywords: Vec<String>,
    pub published_at: Option<String>,
}

/// One line of a search answer.
#[derive(Debug, Clone, PartialEq, Eq)]
pub struct SearchResult {
    pub name: String,
    pub version: String,
    pub description: Option<String>,
    pub downloads: u64,
}

/// Whether an HTTP status code reports success.
pub open spec fn http_success(status: u16) -> bool {
    200 <= status < 300
}

/// `<base>/packages/<name>`
pub fn package_info_url(base: &str, name: &str) -> (r: String)
    ensures
        r@ == base@ + "/packages/"@ + name@,
{
    concat3(base, "/packages/", name)
}

/// `<base>/packages/<name>/<version>/download`
pub fn download_url(base: &str, name: &str, version: &str) -> (r: String)
    ensures
        r@ == base@ + "/packages/"@ + name@ + "/"@ + version@ + "/download"@,
{
    let head = concat4(base, "/packages/", name, "/");
    concat3(head.as_str(), version, "/download")
}

/// `<base>/packages/<name>/versions`
pub fn versions_url(base: &str, name: &str) -> (r: String)
    ensures
        r@ == base@ + "/packages/"@ + name@ + "/versions"@,
{
    concat4(base, "/packages/", name, "/versions")
}

/// `<base>/search?q=<query>&limit=20`
pub fn search_url(base: &str, query: &str) -> (r: String)
    ensures
        r@ == base@ + "/search?q="@ + query@ + "&limit=20"@,
{
    concat4(base, "/search?q=", query, "&limit=20")
}

/// `<base>/publish`
pub fn publish_url(base: &str) -> (r: String)
    ensures
        r@ == base@ + "/publish"@,
{
    concat2(base, "/publish")
}

/// The store directory a package of this name and version installs into.
pub fn store_dir(packages: &str, name: &str, version: &str) -> (r: String)
    ensures
        r@ == path_join(packages@, name@ + "-"@ + version@),
{
    let stem = concat3(name, "-", version);
    crate::strutil::join_path(packages, stem.as_str())
}

/// The transient archive file a download or publish goes through.
pub fn tarball_path(cache: &str, name: &str, version: &str) -> (r: String)
    ensures
        r@ == path_join(cache@, name@ + "-"@ + version@ + ".tar.gz"@),
{
    let stem = concat4(name, "-", version, ".tar.gz");
    crate::strutil::join_path(cache, stem.as_str())
}

/// The metadata answer, decided by status code: success hands the body
/// on; 404 means this name is unknown to the registry (possibly misspelled
/// or unpublished); anything else is a registry failure with its code.
pub fn interpret_metadata_status(status: u16, name: &str) -> (r: Result<(), RiverError>)
    ensures
        http_success(status) ==> r is Ok,
        !http_success(status) && status == 404 ==> (r matches Err(e) && e@
            == (ErrView::PackageNotFound { name: name@ })),
        !http_success(status) && status != 404 ==> (r matches Err(e) && e@
            == (ErrView::RegistryError { status: status, detail: Seq::<char>::empty() })),
{
    if 200 <= status && status < 300 {
        Ok(())
    } else if status == 404 {
        Err(RiverError::PackageNotFound { name: name.to_owned() })
    } else {
        Err(RiverError::RegistryError { status, detail: String::new() })
    }
}

/// The download answer, decided by status code: any non-success status is
/// a registry failure carrying the code.
pub fn interpret_download_status(status: u16) -> (r: Result<(), RiverError>)
    ensures
        http_success(status) ==> r is Ok,
        !http_success(status) ==> (r matches Err(e) && e@ == (ErrView::RegistryError {
            status: status,
            detail: Seq::<char>::empty(),
        })),
{
    if 200 <= status && status < 300 {
        Ok(())
    } else {
        Err(RiverError::RegistryError { status, detail: String::new() })
    }
}

/// The search answer: on success exactly the results the registry sent,
/// unchanged and in order; an empty list is a normal outcome meaning no
/// matches, never an error.
pub fn interpret_search_response(status: u16, results: Vec<SearchResult>) -> (r: Result<
    Vec<SearchResult>,
    RiverError,
>)
    ensures
        http_success(status) ==> (r matches Ok(v) && v == results),
        !http_success(status) ==> (r matches Err(e) && e@ == (ErrView::RegistryError {
            status: status,
            detail: Seq::<char>::empty(),
        })),
{
    if 200 <= status && status < 300 {
        Ok(results)
    } else {
        Err(RiverError::RegistryError { status, detail: String::new() })
    }
}

/// The versions answer: on success exactly the version strings the
/// registry sent; 404 means the package name is unknown.
pub fn interpret_versions_response(status: u16, name: &str, versions: Vec<String>) -> (r: Result<
    Vec<String>,
    RiverError,
>)
    ensures
        http_success(status) ==> (r matches Ok(v) && v == versions),
        !http_success(status) && status == 404 ==> (r matches Err(e) && e@
            == (ErrView::PackageNotFound { name: name@ })),
        !http_success(status) && status != 404 ==> (r matches Err(e) && e@
            == (ErrView::RegistryError { status: status, detail: Seq::<char>::empty() })),
{
    if 200 <= status && status < 300 {
        Ok(versions)
    } else if status == 404 {
        Err(RiverError::PackageNotFound { name: name.to_owned() })
    } else {
        Err(RiverError::RegistryError { status, detail: String::new() })
    }
}

/// The publish upload answer: a non-success status is a registry failure
/// carrying the status and the error text of the body.
pub fn interpret_publish_response(status: u16, body: String) -> (r: Result<(), RiverError>)
    ensures
        http_success(status) ==> r is Ok,
        !http_success(status) ==> (r matches Err(e) && e@ == (ErrView::RegistryError {
            status: status,
            detail: body@,
        })),
{
    if 200 <= status && status < 300 {
        Ok(())
    } else {
        Err(RiverError::RegistryError { status, detail: body })
    }
}

/// The descriptive fields a publish upload carries, with their documented
/// fallbacks filled in.
#[derive(Debug, Clone, PartialEq, Eq)]
pub struct PublishFields {
    pub name: String,
    pub version: String,
    pub description: String,
    pub author: String,
    pub license: String,
    pub repository: String,
    pub homepage: String,
}

/// A fully decided publish: where to upload, as whom, and what to say.
/// The archive at `tarball` is created by the caller only after this plan
/// exists, so a refused publish leaves no archive behind.
#[derive(Debug, Clone, PartialEq, Eq)]
pub struct PublishPlan {
    pub token: String,
    pub url: String,
    pub package_dir: String,
    pub tarball: String,
    pub fields: PublishFields,
}

/// The description text an upload carries: the manifest's, or empty.
pub open spec fn pub_description(m: crate::manifest::ManifestView) -> Seq<char> {
    match m.package.description {
        Some(d) => d,
        None => Seq::empty(),
    }
}

/// The author an upload carries: the first listed, or "Unknown".
pub open spec fn pub_author(m: crate::manifest::ManifestView) -> Seq<char> {
    if m.package.authors.len() > 0 {
        m.package.authors[0]
    } else {
        "Unknown"@
    }
}

/// The license an upload carries: the manifest's, or "MIT".
pub open spec fn pub_license(m: crate::manifest::ManifestView) -> Seq<char> {
    match m.package.license {
        Some(l) => l,
        None => "MIT"@,
    }
}

/// The repository an upload carries: the manifest's, or empty. The
/// homepage field repeats it.
pub open spec fn pub_repository(m: crate::manifest::ManifestView) -> Seq<char> {
    match m.package.repository {
        Some(r) => r,
        None => Seq::empty(),
    }
}

/// Decide a publish before any network or filesystem work. A missing
/// bearer token refuses immediately, before anything else is examined; a
/// missing store directory for the package refuses next; otherwise the
/// plan fixes the upload address, the archive path, and every field.
pub fn plan_publish(
    manifest: &Manifest,
    base: &str,
    token: &Option<String>,
    packages: &str,
    cache: &str,
    package_dir_exists: bool,
) -> (r: Result<PublishPlan, RiverError>)
    ensures
        token is None ==> (r matches Err(e) && e@ == ErrView::AuthenticationRequired),
        token is Some && !package_dir_exists ==> (r matches Err(e) && e@
            == (ErrView::PackageDirMissing {
            path: path_join(packages@, manifest@.package.name + "-"@ + manifest@.package.version),
        })),
        token matches Some(t) ==> package_dir_exists ==> (r matches Ok(p) && (
        {
            &&& p.token@ == t@
            &&& p.url@ == base@ + "/publish"@
            &&& p.package_dir@ == path_join(
                packages@,
                manifest@.package.name + "-"@ + manifest@.package.version,
            )
            &&& p.tarball@ == path_join(
                cache@,
                manifest@.package.name + "-"@ + manifest@.package.version + ".tar.gz"@,
            )
            &&& p.fields.name@ == manifest@.package.name
            &&& p.fields.version@ == manifest@.package.version
            &&& p.fields.description@ == pub_description(manifest@)
            &&& p.fields.author@ == pub_author(manifest@)
            &&& p.fields.license@ == pub_license(manifest@)
            &&& p.fields.repository@ == pub_repository(manifest@)
            &&& p.fields.homepage@ == pub_repository(manifest@)
        })),
{
    let token = match token {
        Some(t) => t.clone(),
        None => {
            return Err(RiverError::AuthenticationRequired);
        },
    };
    let name = manifest.package.name.as_str();
    let version = manifest.package.version.as_str();
    let package_dir = store_dir(packages, name, version);
    if !package_dir_exists {
        return Err(RiverError::PackageDirMissing { path: package_dir });
    }
    let description = match &manifest.package.description {
        Some(d) => d.clone(),
        None => String::new(),
    };
    let author = if manifest.package.authors.len() > 0 {
        let a = manifest.package.authors[0].clone();
        proof {
            assert(a@ == manifest@.package.authors[0]);
        }
        a
    } else {
        "Unknown".to_owned()
    };
    let license = match &manifest.package.license {
        Some(l) => l.clone(),
        None => "MIT".to_owned(),
    };
    let repository = match &manifest.package.repository {
        Some(r) => r.clone(),
        None => String::new(),
    };
    let homepage = repository.clone();
    Ok(PublishPlan {
        token,
        url: publish_url(base),
        package_dir,
        tarball: tarball_path(cache, name, version),
        fields: PublishFields {
            name: manifest.package.name.clone(),
            version: manifest.package.version.clone(),
            description,
            author,
            license,
            repository,
            homepage,
        },
    })
}

} // verus!
