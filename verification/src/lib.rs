//! The core of an application launcher: result providers behind one ranked,
//! searchable list, with prefix routing and execution by identifier.

pub mod cache;
pub mod calculator;
pub mod config;
pub mod drun;
pub mod file_search;
pub mod fuzzy;
pub mod icons;
pub mod ipc;
pub mod launcher;
pub mod plugin;
pub mod projects;
pub mod protocol;
pub mod ranking;
pub mod seqs;
pub mod spawn;
pub mod text;
pub mod ui;

use vstd::prelude::*;

verus! {

/// Why an item could not be executed.
#[derive(Debug, Clone, PartialEq, Eq)]
pub enum LaunchError {
    CouldNotLaunch(String),
}

impl LaunchError {
    /// The text that the error carries.
    pub open spec fn text(&self) -> Seq<char> {
        match self {
            LaunchError::CouldNotLaunch(message) => message@,
        }
    }

    /// The text that the error carries.
    pub fn message(&self) -> (r: String)
        ensures
            r@ == self.text(),
    {
        match self {
            LaunchError::CouldNotLaunch(message) => message.clone(),
        }
    }
}

/// The text of an optional string.
pub open spec fn optional_text(s: Option<String>) -> Option<Seq<char>> {
    match s {
        Some(t) => Some(t@),
        None => None,
    }
}

/// One entry of the result list: what is shown of it, and how it is executed.
///
/// A type says what its items answer by the predicates of this trait. A type
/// that says nothing leaves every answer open.
pub trait LauncherListItem: Send + Sync {
    /// Whether a text is the identifier of the item.
    open spec fn has_id(&self, id: Seq<char>) -> bool {
        true
    }

    /// Whether a text is the title of the item.
    open spec fn has_title(&self, title: Seq<char>) -> bool {
        true
    }

    /// Whether this is the description of the item.
    open spec fn has_description(&self, description: Option<Seq<char>>) -> bool {
        true
    }

    /// Whether a text may be the icon of the item.
    open spec fn has_icon(&self, icon: Seq<char>) -> bool {
        true
    }

    /// Whether executing the item may come out like this.
    open spec fn launches(&self, outcome: Result<(), LaunchError>) -> bool {
        true
    }

    /// A text that names the item among the results of its provider.
    fn id(&self) -> (id: String)
        ensures
            self.has_id(id@),
    ;

    /// The name that is shown.
    fn title(&self) -> (title: String)
        ensures
            self.has_title(title@),
    ;

    /// A second line, such as a path.
    fn description(&self) -> (description: Option<String>)
        ensures
            self.has_description(optional_text(description)),
    ;

    /// The name of a theme icon, or the path of an image file.
    fn icon(&self) -> (icon: String)
        ensures
            self.has_icon(icon@),
    ;

    /// Launches what the item stands for.
    fn execute(&self) -> (outcome: Result<(), LaunchError>)
        ensures
            self.launches(outcome),
    ;
}

/// A provider of results.
///
/// A type says what its providers declare by the predicates of this trait. A
/// type that says nothing leaves every answer open.
pub trait LauncherPlugin: Send + Sync {
    /// Whether this is the priority of the provider.
    open spec fn has_priority(&self, priority: i32) -> bool {
        true
    }

    /// Whether this is the prefix of the provider.
    open spec fn has_prefix(&self, prefix: Option<Seq<char>>) -> bool {
        true
    }

    /// Whether this says rightly if the provider is reserved to its prefix.
    open spec fn is_by_prefix_only(&self, reserved: bool) -> bool {
        true
    }

    /// Whether these may be the items that are shown while there is no
    /// query.
    open spec fn lists(&self, items: Seq<Box<dyn LauncherListItem>>) -> bool {
        true
    }

    /// Whether these may be the items that match a query.
    open spec fn finds(&self, query: Seq<char>, items: Seq<Box<dyn LauncherListItem>>) -> bool {
        true
    }

    /// Called once at startup, before the first query. Slow work is started
    /// here and goes on in the background.
    fn init(&self);

    fn name(&self) -> String;

    /// Providers with a higher priority come first in the result list.
    fn priority(&self) -> (priority: i32)
        ensures
            self.has_priority(priority),
    ;

    fn description(&self) -> Option<String>;

    /// The word that, in front of a query, sends it to this provider alone.
    fn prefix(&self) -> (prefix: Option<String>)
        ensures
            self.has_prefix(optional_text(prefix)),
    ;

    /// Whether the provider is asked only when its prefix was typed.
    fn by_prefix_only(&self) -> (reserved: bool)
        ensures
            self.is_by_prefix_only(reserved),
    ;

    /// The items that are shown while there is no query.
    fn default_list(&self) -> (items: Vec<Box<dyn LauncherListItem>>)
        ensures
            self.lists(items@),
    ;

    /// The items that match a query. For the empty query these are the items
    /// of `default_list`.
    fn filter(&self, query: &str) -> (items: Vec<Box<dyn LauncherListItem>>)
        ensures
            self.finds(query@, items@),
    ;
}

} // verus!
