use vstd::prelude::*;
use crate::route::copy_opt;

verus! {

/// Optional extensions of the API information block.
#[derive(Debug, PartialEq, Eq)]
pub struct ServerConfig {
    pub desc: Option<String>,
    pub summary: Option<String>,
}

impl ServerConfig {
    /// A configuration with neither extension set.
    pub fn new() -> (r: Self)
        ensures
            r.desc is None,
            r.summary is None,
    {
        ServerConfig { desc: None, summary: None }
    }
}

impl Default for ServerConfig {
    fn default() -> (r: Self)
        ensures
            r.desc is None,
            r.summary is None,
    {
        ServerConfig::new()
    }
}

/// The information block placed at the root of the generated document.
#[derive(Debug, PartialEq, Eq)]
pub struct ApiInfo {
    pub title: String,
    pub version: String,
    pub description: Option<String>,
    pub summary: Option<String>,
}

impl ApiInfo {
    /// The information block for an API with this title and version, carrying
    /// the configuration's optional description and summary.
    pub fn from_config(title: &str, version: &str, config: ServerConfig) -> (r: Self)
        ensures
            r.title@ == title@,
            r.version@ == version@,
            r.description == config.desc,
            r.summary == config.summary,
    {
        ApiInfo {
            title: String::from_str(title),
            version: String::from_str(version),
            description: config.desc,
            summary: config.summary,
        }
    }

    /// An equal copy of this block.
    pub fn duplicate(&self) -> (r: Self)
        ensures
            r == *self,
    {
        ApiInfo {
            title: self.title.clone(),
            version: self.version.clone(),
            description: copy_opt(&self.description),
            summary: copy_opt(&self.summary),
        }
    }
}

/// What the startup banner shows.
pub struct BannerConfig<'a> {
    pub name: &'a str,
    pub version: &'a str,
    pub tagline: &'a str,
    pub addr: &'a str,
}

} // verus!
