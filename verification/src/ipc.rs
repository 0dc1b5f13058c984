//! The launcher as a service: what it answers to a front end in another
//! process.

use crate::launcher::{route_of, RoutePlan, WaycastLauncher};
use crate::{optional_text, LaunchError, LauncherListItem};
use vstd::prelude::*;
use vstd::string::StringExecFns;

verus! {

/// An item of the result list as it is sent: what is shown of it.
#[derive(Debug, Clone)]
pub struct LauncherItem {
    pub id: String,
    pub title: String,
    pub description: Option<String>,
    pub icon: String,
}

/// Whether each item sent holds what the result at the same position shows:
/// its identifier, title, description and icon.
pub open spec fn all_show(
    items: Seq<LauncherItem>,
    results: Seq<Box<dyn LauncherListItem>>,
) -> bool {
    &&& items.len() == results.len()
    &&& forall|i: int|
        0 <= i < items.len() ==> {
            &&& results[i].has_id((#[trigger] items[i]).id@)
            &&& results[i].has_title(items[i].title@)
            &&& results[i].has_description(optional_text(items[i].description))
            &&& results[i].has_icon(items[i].icon@)
        }
}

impl LauncherItem {
    /// What is shown of an item of the result list.
    pub fn from_item(value: &Box<dyn LauncherListItem>) -> (item: Self)
        ensures
            value.has_id(item.id@),
            value.has_title(item.title@),
            value.has_description(optional_text(item.description)),
            value.has_icon(item.icon@),
    {
        LauncherItem {
            id: value.id(),
            title: value.title(),
            description: value.description(),
            icon: value.icon(),
        }
    }
}

/// What a response is.
#[derive(Debug, Clone, Copy, PartialEq, Eq, Structural)]
pub enum ResponseType {
    Items,
    Success,
    Error,
}

/// What the service answers: a list of items, success, or an error with its
/// message.
#[derive(Debug, Clone)]
pub struct Response {
    pub response_type: ResponseType,
    pub items: Option<Vec<LauncherItem>>,
    pub error: Option<String>,
}

impl Response {
    /// The answer that a request succeeded.
    pub fn success() -> (response: Self)
        ensures
            response.response_type == ResponseType::Success,
            response.items.is_none(),
            response.error.is_none(),
    {
        Response { response_type: ResponseType::Success, items: None, error: None }
    }

    /// The answer that a request failed.
    pub fn error(message: String) -> (response: Self)
        ensures
            response.response_type == ResponseType::Error,
            response.items.is_none(),
            response.error == Some(message),
    {
        Response { response_type: ResponseType::Error, items: None, error: Some(message) }
    }

    /// The answer that carries a result list: one item for each result, in
    /// the order of the list.
    pub fn from_results(value: &Vec<Box<dyn LauncherListItem>>) -> (response: Self)
        ensures
            response.response_type == ResponseType::Items,
            response.error.is_none(),
            response.items.is_some(),
            all_show(response.items.unwrap()@, value@),
    {
        let mut items: Vec<LauncherItem> = Vec::new();
        let mut i: usize = 0;
        while i < value.len()
            invariant
                0 <= i <= value@.len(),
                items@.len() == i,
                all_show(items@, value@.take(i as int)),
            decreases value@.len() - i,
        {
            items.push(LauncherItem::from_item(&value[i]));
            i = i + 1;
        }
        Response { response_type: ResponseType::Items, items: Some(items), error: None }
    }
}

/// The launcher as a service.
pub struct WaycastService {
    launcher: WaycastLauncher,
}

impl WaycastService {
    /// The launcher that answers.
    pub closed spec fn launcher(&self) -> WaycastLauncher {
        self.launcher
    }

    /// A service for a launcher.
    pub fn new(launcher: WaycastLauncher) -> (service: Self)
        ensures
            service.launcher() == launcher,
    {
        WaycastService { launcher }
    }

    /// Answers a query with its results.
    pub fn search(&mut self, query: &str) -> (response: Response)
        requires
            old(self).launcher().wf(),
        ensures
            final(self).launcher().wf(),
            final(self).launcher().providers() == old(self).launcher().providers(),
            final(self).launcher().order() == old(self).launcher().order(),
            final(self).launcher().holds_answer_to(
                route_of(old(self).launcher().providers(), query@),
            ),
            final(self).launcher().answers(
                route_of(old(self).launcher().providers(), query@),
                query@,
            ),
            response.response_type == ResponseType::Items,
            response.error.is_none(),
            response.items.is_some(),
            all_show(response.items.unwrap()@, final(self).launcher().results()),
    {
        self.launcher.search(query);
        Response::from_results(self.launcher.current_results())
    }

    /// Answers with the default results.
    pub fn default_list(&mut self) -> (response: Response)
        requires
            old(self).launcher().wf(),
        ensures
            final(self).launcher().wf(),
            final(self).launcher().providers() == old(self).launcher().providers(),
            final(self).launcher().order() == old(self).launcher().order(),
            final(self).launcher().holds_answer_to(RoutePlan::Default),
            final(self).launcher().answers(RoutePlan::Default, Seq::empty()),
            response.response_type == ResponseType::Items,
            response.error.is_none(),
            response.items.is_some(),
            all_show(response.items.unwrap()@, final(self).launcher().results()),
    {
        self.launcher.get_default_results();
        Response::from_results(self.launcher.current_results())
    }

    /// Executes the current result with an identifier, and answers whether
    /// that worked. An identifier that is not among the current results is
    /// answered with an error.
    pub fn execute(&self, id: &str) -> (response: Response)
        requires
            self.launcher().wf(),
        ensures
            response.response_type != ResponseType::Items,
            response.items.is_none(),
            response.response_type == ResponseType::Error ==> response.error.is_some()
                && response.error.unwrap()@ == "Failed to launch item: "@ + id@,
            response.response_type == ResponseType::Success ==> response.error.is_none(),
            !self.launcher().knows(id@) ==> response.response_type == ResponseType::Error,
            self.launcher().knows(id@) ==> exists|outcome: Result<(), LaunchError>|
                {
                    &&& (#[trigger] self.launcher().results()[self.launcher().position_of(
                        id@,
                    )].launches(outcome))
                    &&& outcome.is_ok() <==> response.response_type == ResponseType::Success
                },
    {
        let outcome = self.launcher.execute_item_by_id(id);
        proof {
            if self.launcher().knows(id@) {
                assert(self.launcher().results()[self.launcher().position_of(id@)].launches(
                    outcome,
                ));
            }
        }
        match outcome {
            Ok(_) => Response::success(),
            Err(_) => Response::error(String::from_str("Failed to launch item: ").concat(id)),
        }
    }
}

} // verus!
