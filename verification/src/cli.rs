//! What the command line asks for.
use vstd::prelude::*;
use crate::cmd::watch::WatchParam;
use crate::model::GenerationContext;

verus! {

/// What `build` was called with.
#[derive(Debug)]
pub struct BuildArgs {
    /// The path of the configuration.
    pub config: String,
    /// Whether to build for release.
    pub release: bool,
}

/// What `watch` was called with.
#[derive(Debug)]
pub struct WatchArgs {
    /// The path of the configuration.
    pub config: String,
    /// Whether to build everything before watching.
    pub build_first: bool,
    /// Whether to build for release.
    pub release: bool,
}

/// The command given.
#[derive(Debug)]
pub enum Commands {
    Build(BuildArgs),
    Watch(WatchArgs),
}

impl Commands {
    /// The path of the configuration that the command names.
    pub fn config(&self) -> (path: &str)
        ensures
            path@ == match self {
                Commands::Build(args) => args.config@,
                Commands::Watch(args) => args.config@,
            },
    {
        match self {
            Commands::Build(build_args) => build_args.config.as_str(),
            Commands::Watch(watch_args) => watch_args.config.as_str(),
        }
    }

    /// Whether the command asks for a release build.
    pub fn release(&self) -> (release: bool)
        ensures
            release == match self {
                Commands::Build(args) => args.release,
                Commands::Watch(args) => args.release,
            },
    {
        match self {
            Commands::Build(build_args) => build_args.release,
            Commands::Watch(watch_args) => watch_args.release,
        }
    }

    /// For what the command wants pages generated.
    pub fn generation_context(&self) -> (ctx: GenerationContext)
        ensures
            ctx.release == match self {
                Commands::Build(args) => args.release,
                Commands::Watch(args) => args.release,
            },
    {
        GenerationContext { release: self.release() }
    }
}

impl WatchArgs {
    /// How to watch.
    pub fn watch_param(&self) -> (param: WatchParam)
        ensures
            param.build_first == self.build_first,
    {
        WatchParam { build_first: self.build_first }
    }
}

} // verus!
