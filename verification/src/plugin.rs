//! What a provider declares of itself.

use vstd::prelude::*;

verus! {

/// The priority of a provider that declares none.
pub const DEFAULT_PRIORITY: i32 = 100;

/// What a provider declares of itself: its name, and what the launcher needs
/// to order it and to route queries to it.
pub struct PluginConfig {
    pub name: String,
    pub priority: i32,
    pub description: Option<String>,
    pub prefix: Option<String>,
    pub by_prefix_only: bool,
}

impl PluginConfig {
    /// The declaration of a provider of which only the name is known: the
    /// default priority, no description, no prefix, and part of every query.
    pub fn new(name: &str) -> (config: Self)
        ensures
            config.name@ == name@,
            config.priority == DEFAULT_PRIORITY,
            config.description.is_none(),
            config.prefix.is_none(),
            !config.by_prefix_only,
    {
        PluginConfig {
            name: name.to_owned(),
            priority: DEFAULT_PRIORITY,
            description: None,
            prefix: None,
            by_prefix_only: false,
        }
    }

    /// The same declaration with this priority.
    pub fn with_priority(self, priority: i32) -> (config: Self)
        ensures
            config == (PluginConfig { priority, ..self }),
    {
        PluginConfig { priority, ..self }
    }

    /// The same declaration with this description.
    pub fn with_description(self, description: &str) -> (config: Self)
        ensures
            config.description.is_some(),
            config.description.unwrap()@ == description@,
            config.name == self.name,
            config.priority == self.priority,
            config.prefix == self.prefix,
            config.by_prefix_only == self.by_prefix_only,
    {
        PluginConfig { description: Some(description.to_owned()), ..self }
    }

    /// The same declaration with this prefix.
    pub fn with_prefix(self, prefix: &str) -> (config: Self)
        ensures
            config.prefix.is_some(),
            config.prefix.unwrap()@ == prefix@,
            config.name == self.name,
            config.priority == self.priority,
            config.description == self.description,
            config.by_prefix_only == self.by_prefix_only,
    {
        PluginConfig { prefix: Some(prefix.to_owned()), ..self }
    }

    /// The same declaration, reserved to its prefix or not.
    pub fn with_by_prefix_only(self, by_prefix_only: bool) -> (config: Self)
        ensures
            config == (PluginConfig { by_prefix_only, ..self }),
    {
        PluginConfig { by_prefix_only, ..self }
    }
}

} // verus!
