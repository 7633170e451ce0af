//! Where the sessions are, from the configuration or without it.

use vstd::prelude::*;

verus! {

/// What the monitor takes from the configuration: the home directory, at a place
/// of type `P`, and the model provider.
#[derive(Debug)]
pub struct MonitorConfig<P> {
    pub codex_home: P,
    pub default_provider: String,
}

/// What is to be done once the configuration was looked for.
#[derive(Debug)]
pub enum ConfigStep<P, E> {
    /// Go by this.
    Use(MonitorConfig<P>),
    /// Tell the error, then look for the home directory alone.
    FallBack(E),
}

/// Takes in the configuration. If it could not be loaded, the monitor does
/// without it.
pub fn on_config_loaded<P, E>(loaded: Result<MonitorConfig<P>, E>) -> (step: ConfigStep<P, E>)
    ensures
        match loaded {
            Ok(config) => step == ConfigStep::<P, E>::Use(config),
            Err(error) => step == ConfigStep::<P, E>::FallBack(error),
        },
{
    match loaded {
        Ok(config) => ConfigStep::Use(config),
        Err(error) => ConfigStep::FallBack(error),
    }
}

/// There is neither a configuration nor a home directory, and why.
#[derive(Debug)]
pub struct HomeError<E> {
    pub error: E,
}

impl<E> HomeError<E> {
    /// Says what failed; why it failed, the error says itself.
    pub fn message(&self) -> (message: String)
        ensures
            message@ == "failed to resolve CODEX_HOME"@,
    {
        "failed to resolve CODEX_HOME".to_string()
    }
}

/// Takes in the home directory where there is no configuration. The provider is
/// then the default one. Without a home directory the monitor cannot run.
pub fn on_home_found<P, E>(home: Result<P, E>) -> (config: Result<MonitorConfig<P>, HomeError<E>>)
    ensures
        match home {
            Ok(path) => config matches Ok(c) && c.codex_home == path && c.default_provider@
                == "openai"@,
            Err(error) => config == Err::<MonitorConfig<P>, HomeError<E>>(HomeError { error }),
        },
{
    match home {
        Ok(path) => Ok(
            MonitorConfig { codex_home: path, default_provider: "openai".to_string() },
        ),
        Err(error) => Err(HomeError { error }),
    }
}

} // verus!
