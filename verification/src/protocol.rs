//! The requests and responses that a front end and the launcher exchange, and
//! how a request is answered.

use crate::launcher::{route_of, RoutePlan, WaycastLauncher};
use crate::{optional_text, LaunchError, LauncherListItem};
use vstd::prelude::*;
use vstd::string::StringExecFns;

verus! {

/// Where request identifiers come from: each is one more than the one
/// before, starting at 1.
pub struct RequestIds {
    next: u64,
}

impl RequestIds {
    /// The identifier that is handed out next.
    pub closed spec fn upcoming(&self) -> u64 {
        self.next
    }

    /// A source whose first identifier is 1.
    pub fn new() -> (ids: Self)
        ensures
            ids.upcoming() == 1,
    {
        RequestIds { next: 1 }
    }
}

/// The identifier that follows `id`: one more, and 0 after the largest.
pub open spec fn following(id: u64) -> u64 {
    if id == u64::MAX {
        0
    } else {
        (id + 1) as u64
    }
}

/// Hands out the next request identifier.
pub fn next_request_id(ids: &mut RequestIds) -> (id: u64)
    ensures
        id == old(ids).upcoming(),
        final(ids).upcoming() == following(id),
{
    let id = ids.next;
    ids.next = if id == u64::MAX {
        0
    } else {
        id + 1
    };
    id
}

/// What a front end asks for.
#[derive(Debug, Clone)]
pub enum Method {
    Search(String),
    DefaultList,
    Execute(String),
}

/// A request, with the identifier by which its response is told.
#[derive(Debug, Clone)]
pub struct Request {
    pub id: u64,
    pub method: Method,
}

impl Request {
    /// A request with the next identifier of `ids`.
    pub fn new(ids: &mut RequestIds, method: Method) -> (request: Self)
        ensures
            request.id == old(ids).upcoming(),
            request.method == method,
            final(ids).upcoming() == following(request.id),
    {
        Request { id: next_request_id(ids), method }
    }
}

/// An item of the result list as it crosses to a front end: what is shown
/// of it. It is executed by its identifier.
#[derive(Debug, Clone)]
pub struct LauncherItem {
    pub id: String,
    pub title: String,
    pub description: Option<String>,
    pub icon: String,
}

/// What a successful response carries.
#[derive(Debug, Clone)]
pub enum ResponseData {
    Items(Vec<LauncherItem>),
    Success,
}

/// The response to the request with the same identifier.
#[derive(Debug)]
pub struct Response {
    pub id: u64,
    pub result: Result<ResponseData, String>,
}

impl Response {
    /// The response that a request succeeded.
    pub fn success(id: u64, data: ResponseData) -> (response: Self)
        ensures
            response.id == id,
            response.result == Ok::<ResponseData, String>(data),
    {
        Response { id, result: Ok(data) }
    }

    /// The response that a request failed.
    pub fn error(id: u64, message: String) -> (response: Self)
        ensures
            response.id == id,
            response.result == Err::<ResponseData, String>(message),
    {
        Response { id, result: Err(message) }
    }
}

/// What can go wrong between a front end and the launcher.
#[derive(Debug, Clone, PartialEq, Eq)]
pub enum ProtocolError {
    Connection(String),
    Serialization(String),
    Request(String),
    DaemonNotRunning,
    InvalidResponseId,
}

impl ProtocolError {
    /// The error in words.
    pub open spec fn description(&self) -> Seq<char> {
        match self {
            ProtocolError::Connection(e) => "Connection failed: "@ + e@,
            ProtocolError::Serialization(e) => "Serialization failed: "@ + e@,
            ProtocolError::Request(e) => "Request failed: "@ + e@,
            ProtocolError::DaemonNotRunning => "Daemon not running"@,
            ProtocolError::InvalidResponseId => "Invalid response ID"@,
        }
    }

    /// The error in words.
    pub fn describe(&self) -> (text: String)
        ensures
            text@ == self.description(),
    {
        match self {
            ProtocolError::Connection(e) => String::from_str("Connection failed: ").concat(
                e.as_str(),
            ),
            ProtocolError::Serialization(e) => String::from_str("Serialization failed: ").concat(
                e.as_str(),
            ),
            ProtocolError::Request(e) => String::from_str("Request failed: ").concat(e.as_str()),
            ProtocolError::DaemonNotRunning => String::from_str("Daemon not running"),
            ProtocolError::InvalidResponseId => String::from_str("Invalid response ID"),
        }
    }
}

/// What the launcher's side answers requests with.
///
/// A type says what its handlers answer by the predicates of this trait,
/// each of the handler as it is before the request. A type that says nothing
/// leaves every answer open.
pub trait RequestHandler {
    /// Whether this may be the answer to a query.
    open spec fn search_gives(
        &self,
        query: Seq<char>,
        outcome: Result<Vec<LauncherItem>, String>,
    ) -> bool {
        true
    }

    /// Whether this may be the answer to a request for the default list.
    open spec fn default_list_gives(&self, outcome: Result<Vec<LauncherItem>, String>) -> bool {
        true
    }

    /// Whether this may be the answer to a request to execute.
    open spec fn execute_gives(&self, id: Seq<char>, outcome: Result<(), String>) -> bool {
        true
    }

    fn search(&mut self, query: &str) -> (outcome: Result<Vec<LauncherItem>, String>)
        ensures
            old(self).search_gives(query@, outcome),
    ;

    fn default_list(&mut self) -> (outcome: Result<Vec<LauncherItem>, String>)
        ensures
            old(self).default_list_gives(outcome),
    ;

    fn execute(&mut self, id: &str) -> (outcome: Result<(), String>)
        ensures
            old(self).execute_gives(id@, outcome),
    ;
}

/// What a response carries for a list of items or a failure.
pub open spec fn items_result(outcome: Result<Vec<LauncherItem>, String>) -> Result<
    ResponseData,
    String,
> {
    match outcome {
        Ok(items) => Ok(ResponseData::Items(items)),
        Err(e) => Err(e),
    }
}

/// What a response carries for a success or a failure.
pub open spec fn success_result(outcome: Result<(), String>) -> Result<ResponseData, String> {
    match outcome {
        Ok(_) => Ok(ResponseData::Success),
        Err(e) => Err(e),
    }
}

/// The response to a request whose handling gave a list of items or failed.
pub fn items_response(id: u64, outcome: Result<Vec<LauncherItem>, String>) -> (response: Response)
    ensures
        response.id == id,
        response.result == items_result(outcome),
{
    match outcome {
        Ok(items) => Response::success(id, ResponseData::Items(items)),
        Err(e) => Response::error(id, e),
    }
}

/// The response to a request whose handling gave nothing or failed.
pub fn success_response(id: u64, outcome: Result<(), String>) -> (response: Response)
    ensures
        response.id == id,
        response.result == success_result(outcome),
{
    match outcome {
        Ok(_) => Response::success(id, ResponseData::Success),
        Err(e) => Response::error(id, e),
    }
}

/// Answers a request: hands it to the handler by its method, and wraps what
/// the handler gives, or its failure, in the response with the request's
/// identifier.
pub fn handle_request<H: RequestHandler>(request: &Request, handler: &mut H) -> (response: Response)
    ensures
        response.id == request.id,
        match request.method {
            Method::Search(query) => exists|outcome: Result<Vec<LauncherItem>, String>| #[trigger]
                old(handler).search_gives(query@, outcome) && response.result == items_result(
                    outcome,
                ),
            Method::DefaultList => exists|outcome: Result<Vec<LauncherItem>, String>| #[trigger]
                old(handler).default_list_gives(outcome) && response.result == items_result(
                    outcome,
                ),
            Method::Execute(id) => exists|outcome: Result<(), String>| #[trigger]
                old(handler).execute_gives(id@, outcome) && response.result == success_result(
                    outcome,
                ),
        },
        response.result matches Ok(data) ==> (data is Success <==> request.method is Execute),
{
    match &request.method {
        Method::Search(query) => {
            let outcome = handler.search(query.as_str());
            proof {
                assert(old(handler).search_gives(query@, outcome));
            }
            items_response(request.id, outcome)
        },
        Method::DefaultList => {
            let outcome = handler.default_list();
            proof {
                assert(old(handler).default_list_gives(outcome));
            }
            items_response(request.id, outcome)
        },
        Method::Execute(id) => {
            let outcome = handler.execute(id.as_str());
            proof {
                assert(old(handler).execute_gives(id@, outcome));
            }
            success_response(request.id, outcome)
        },
    }
}

/// What a front end makes of the response to a request for items: the
/// items, or the failure that the response reports; a response that carries
/// no items is a failure too.
pub fn expect_items(response: Response) -> (r: Result<Vec<LauncherItem>, ProtocolError>)
    ensures
        match response.result {
            Ok(ResponseData::Items(items)) => r == Ok::<Vec<LauncherItem>, ProtocolError>(items),
            Ok(ResponseData::Success) => (r matches Err(ProtocolError::Request(m)) && m@
                == "Expected items response"@),
            Err(e) => r == Err::<Vec<LauncherItem>, ProtocolError>(ProtocolError::Request(e)),
        },
{
    match response.result {
        Ok(ResponseData::Items(items)) => Ok(items),
        Ok(ResponseData::Success) => Err(
            ProtocolError::Request("Expected items response".to_owned()),
        ),
        Err(e) => Err(ProtocolError::Request(e)),
    }
}

/// What a front end makes of the response to a request to execute: success,
/// or the failure that the response reports; a response that carries items
/// is a failure too.
pub fn expect_success(response: Response) -> (r: Result<(), ProtocolError>)
    ensures
        match response.result {
            Ok(ResponseData::Success) => r.is_ok(),
            Ok(ResponseData::Items(_)) => (r matches Err(ProtocolError::Request(m)) && m@
                == "Expected success response"@),
            Err(e) => r == Err::<(), ProtocolError>(ProtocolError::Request(e)),
        },
{
    match response.result {
        Ok(ResponseData::Success) => Ok(()),
        Ok(ResponseData::Items(_)) => Err(
            ProtocolError::Request("Expected success response".to_owned()),
        ),
        Err(e) => Err(ProtocolError::Request(e)),
    }
}

/// Whether each item holds what the result at the same position shows: its
/// identifier, title, description and icon.
pub open spec fn all_show(
    items: Seq<LauncherItem>,
    results: Seq<Box<dyn LauncherListItem>>,
) -> bool {
    &&& items.len() == results.len()
    &&& forall|i: int|
        0 <= i < items.len() ==> {
            &&& results[i].has_id((#[trigger] items[i]).id@)
            &&& results[i].has_title(items[i].title@)
            &&& results[i].has_description(optional_text(items[i].description))
            &&& results[i].has_icon(items[i].icon@)
        }
}

/// What is shown of each item of a result list, in the order of the list.
pub fn describe_items(results: &Vec<Box<dyn LauncherListItem>>) -> (items: Vec<LauncherItem>)
    ensures
        all_show(items@, results@),
{
    let mut items: Vec<LauncherItem> = Vec::new();
    let mut i: usize = 0;
    while i < results.len()
        invariant
            0 <= i <= results@.len(),
            items@.len() == i,
            all_show(items@, results@.take(i as int)),
        decreases results@.len() - i,
    {
        items.push(
            LauncherItem {
                id: results[i].id(),
                title: results[i].title(),
                description: results[i].description(),
                icon: results[i].icon(),
            },
        );
        i = i + 1;
    }
    items
}

/// A handler that answers requests from a launcher.
pub struct LauncherHandler {
    pub launcher: WaycastLauncher,
}

impl LauncherHandler {
    /// A handler for a launcher that is set up.
    pub fn new(launcher: WaycastLauncher) -> (handler: Self)
        ensures
            handler.launcher == launcher,
    {
        LauncherHandler { launcher }
    }
}

impl LauncherHandler {
    /// The results of a query, one item for each.
    pub fn search(&mut self, query: &str) -> (r: Result<Vec<LauncherItem>, String>)
        requires
            old(self).launcher.wf(),
        ensures
            final(self).launcher.wf(),
            final(self).launcher.providers() == old(self).launcher.providers(),
            final(self).launcher.order() == old(self).launcher.order(),
            final(self).launcher.holds_answer_to(route_of(old(self).launcher.providers(), query@)),
            final(self).launcher.answers(route_of(old(self).launcher.providers(), query@), query@),
            (r matches Ok(items) && all_show(items@, final(self).launcher.results())),
    {
        let results = self.launcher.search(query);
        Ok(describe_items(results))
    }

    /// The default results, one item for each.
    pub fn default_list(&mut self) -> (r: Result<Vec<LauncherItem>, String>)
        requires
            old(self).launcher.wf(),
        ensures
            final(self).launcher.wf(),
            final(self).launcher.providers() == old(self).launcher.providers(),
            final(self).launcher.order() == old(self).launcher.order(),
            final(self).launcher.holds_answer_to(RoutePlan::Default),
            final(self).launcher.answers(RoutePlan::Default, Seq::empty()),
            (r matches Ok(items) && all_show(items@, final(self).launcher.results())),
    {
        let results = self.launcher.get_default_results();
        Ok(describe_items(results))
    }

    /// Executes a current result by its identifier. The results stay as they
    /// are, whatever comes of it.
    pub fn execute(&mut self, id: &str) -> (r: Result<(), String>)
        requires
            old(self).launcher.wf(),
        ensures
            *final(self) == *old(self),
            !old(self).launcher.knows(id@) ==> (r matches Err(m) && m@
                == "Execute error: Item not found"@),
            old(self).launcher.knows(id@) ==> exists|outcome: Result<(), LaunchError>|
                {
                    &&& (#[trigger] old(self).launcher.results()[old(self).launcher.position_of(
                        id@,
                    )].launches(outcome))
                    &&& match outcome {
                        Ok(_) => r.is_ok(),
                        Err(e) => (r matches Err(m) && m@ == "Execute error: "@ + e.text()),
                    }
                },
    {
        let outcome = self.launcher.execute_item_by_id(id);
        proof {
            if old(self).launcher.knows(id@) {
                assert(old(self).launcher.results()[old(self).launcher.position_of(id@)].launches(
                    outcome,
                ));
            }
        }
        match outcome {
            Ok(_) => Ok(()),
            Err(e) => {
                proof {
                    reveal_strlit("Execute error: ");
                    reveal_strlit("Item not found");
                    reveal_strlit("Execute error: Item not found");
                }
                let text = String::from_str("Execute error: ").concat(e.message().as_str());
                proof {
                    if !old(self).launcher.knows(id@) {
                        assert(text@ =~= "Execute error: Item not found"@);
                    }
                }
                Err(text)
            },
        }
    }
}

} // verus!
