use vstd::prelude::*;

verus! {

/// Where the registry lives and, once logged in, the bearer token for it.
#[derive(Debug, Clone, PartialEq, Eq)]
pub struct RegistryConfig {
    pub url: String,
    pub token: Option<String>,
}

/// Where installed packages and transient downloads are kept.
#[derive(Debug, Clone, PartialEq, Eq)]
pub struct PathsConfig {
    pub packages: String,
    pub cache: String,
}

/// Tool configuration: registry location and the local directory layout.
#[derive(Debug, Clone, PartialEq, Eq)]
pub struct Config {
    pub registry: RegistryConfig,
    pub paths: PathsConfig,
}

impl Config {
    /// The stock configuration rooted under the given home directory.
    /// An explicit registry address wins over the built-in one.
    pub fn default_with(home: &str, registry_url: Option<String>) -> (r: Config)
        ensures
            r.registry.url@ == match registry_url {
                Some(u) => u@,
                None => "https://registry.flowc.dev"@,
            },
            r.registry.token is None,
            r.paths.packages@ == home@ + "/.river/packages"@,
            r.paths.cache@ == home@ + "/.river/cache"@,
    {
        let url = match registry_url {
            Some(u) => u,
            None => "https://registry.flowc.dev".to_owned(),
        };
        Config {
            registry: RegistryConfig { url, token: None },
            paths: PathsConfig {
                packages: crate::strutil::concat2(home, "/.river/packages"),
                cache: crate::strutil::concat2(home, "/.river/cache"),
            },
        }
    }
}

} // verus!
