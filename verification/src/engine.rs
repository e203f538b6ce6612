//! The engine: the entry point through which every consumer runs, owning
//! the resolved configuration.
use vstd::prelude::*;

use crate::config::Config;

verus! {

/// The engine, with the configuration it runs with.
pub struct Engine {
    config: Config,
}

impl Engine {
    /// An engine with an explicit configuration.
    pub fn new(config: Config) -> (r: Self)
        ensures
            r.configuration() == config,
    {
        Engine { config }
    }

    /// The configuration this engine runs with.
    pub closed spec fn configuration(&self) -> Config {
        self.config
    }

    /// The resolved configuration.
    pub fn config(&self) -> (r: &Config)
        ensures
            *r == self.configuration(),
    {
        &self.config
    }
}

/// How a command's result is asked to be shown.
#[derive(Debug, Clone, Copy, PartialEq, Eq, Structural)]
pub enum OutputMode {
    Prompt,
    Text,
    Json,
}

/// Which rendering of a result is written out.
#[derive(Debug, Clone, Copy, PartialEq, Eq, Structural)]
pub enum Rendering {
    Prompt,
    Text,
    Json,
}

/// The rendering written for a result: its prompt when prompts are asked
/// for and it has one, its text when text is asked for and it has some,
/// else its JSON form.
pub open spec fn rendering_for(mode: OutputMode, has_prompt: bool, has_text: bool) -> Rendering {
    if mode == OutputMode::Prompt && has_prompt {
        Rendering::Prompt
    } else if mode == OutputMode::Text && has_text {
        Rendering::Text
    } else {
        Rendering::Json
    }
}

/// The rendering written for a result.
pub fn choose_rendering(mode: OutputMode, has_prompt: bool, has_text: bool) -> (r: Rendering)
    ensures
        r == rendering_for(mode, has_prompt, has_text),
{
    match (mode, has_prompt, has_text) {
        (OutputMode::Prompt, true, _) => Rendering::Prompt,
        (OutputMode::Text, _, true) => Rendering::Text,
        (OutputMode::Json, _, _) | (_, false, _) | (_, _, false) => Rendering::Json,
    }
}

/// What is written for a command's result: nothing for a silent result,
/// which has already produced its own output, else its chosen rendering.
pub fn result_rendering(silent: bool, mode: OutputMode, has_prompt: bool, has_text: bool) -> (r:
    Option<Rendering>)
    ensures
        r == (if silent {
            None
        } else {
            Some(rendering_for(mode, has_prompt, has_text))
        }),
{
    if silent {
        None
    } else {
        Some(choose_rendering(mode, has_prompt, has_text))
    }
}

} // verus!
