//! Prompt configuration: the system instruction handed to the trend analyzer.
//! How the text is reloaded at runtime is a collaborator's concern; the
//! pipeline only ever reads the current instruction text.

use vstd::prelude::*;
use vstd::string::StrSliceExecFns;
use vstd::string::StringExecFns;

verus! {

/// The instruction text used when no configuration supplies one.
pub open spec fn default_system_prompt_chars() -> Seq<char> {
    "You are an emoji trend analyzer. Provide a brief, one-line insight about the current emoji usage patterns in Bluesky. Be concise, witty, and insightful. Maximum 100 characters."@
}

/// The prompt text as configured.
pub struct Prompts {
    pub system_prompt: String,
}

impl Default for Prompts {
    /// The built-in instruction text.
    fn default() -> (r: Prompts)
        ensures
            r.system_prompt@ == default_system_prompt_chars(),
    {
        Prompts {
            system_prompt: "You are an emoji trend analyzer. Provide a brief, one-line insight about the current emoji usage patterns in Bluesky. Be concise, witty, and insightful. Maximum 100 characters.".to_owned(),
        }
    }
}

/// The current prompt configuration, read by the enrichment relay at call
/// time.
pub struct PromptConfig {
    pub prompts: Prompts,
}

impl Default for PromptConfig {
    /// A configuration holding the built-in instruction text.
    fn default() -> (r: PromptConfig)
        ensures
            r.prompts.system_prompt@ == default_system_prompt_chars(),
    {
        PromptConfig { prompts: Prompts::default() }
    }
}

impl PromptConfig {
    /// A configuration holding the given prompt text.
    pub fn new(prompts: Prompts) -> (r: PromptConfig)
        ensures
            r.prompts == prompts,
    {
        PromptConfig { prompts }
    }

    /// The current system instruction text.
    pub fn get_system_prompt(&self) -> (r: String)
        ensures
            r@ == self.prompts.system_prompt@,
    {
        self.prompts.system_prompt.clone()
    }

    /// Installs newly loaded prompt text, replacing the old.
    pub fn apply(&mut self, data: Prompts)
        ensures
            final(self).prompts == data,
    {
        self.prompts = data;
    }
}

} // verus!
