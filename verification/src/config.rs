//! The configuration of a site.
use vstd::prelude::*;
use crate::fs::Directory;

verus! {

/// The configuration as it is written: three paths.
#[derive(Debug)]
pub struct ConfigurationScheme {
    pub html_template_dir: String,
    pub article_md_dir: String,
    pub destination: String,
}

/// The configuration with each path found to be a directory.
#[derive(Debug)]
pub struct Configuration {
    pub html_template_dir: Directory,
    pub article_md_dir: Directory,
    pub destination: Directory,
}

impl Configuration {
    /// The configuration of the three directories.
    pub fn new(
        html_template_dir: Directory,
        article_md_dir: Directory,
        destination: Directory,
    ) -> (config: Configuration)
        ensures
            config.html_template_dir@ == html_template_dir@,
            config.article_md_dir@ == article_md_dir@,
            config.destination@ == destination@,
    {
        Configuration { html_template_dir, article_md_dir, destination }
    }
}

} // verus!
