//! What a front end and the launcher tell each other, and what the launcher
//! does on each event of the front end.

use crate::launcher::{route_of, RoutePlan, WaycastLauncher};
use crate::text::{trim, trimmed};
use crate::{LaunchError, LauncherListItem, LauncherPlugin};
use vstd::prelude::*;

verus! {

/// What a front end offers to the launcher.
pub trait LauncherUI {
    /// Shows the launcher.
    fn show(&self);

    /// Takes the launcher from the screen.
    fn conceal(&self);

    /// Shows new results.
    fn set_results(&mut self, results: &Vec<Box<dyn LauncherListItem>>);

    /// Whether the launcher is to be seen.
    fn is_visible(&self) -> bool;
}

/// What happens in a front end.
#[derive(Debug, Clone)]
pub enum UIEvent {
    /// The user typed in the search box.
    SearchChanged(String),
    /// The user moved to an item.
    ItemSelected(usize),
    /// The user pressed enter on an item, or clicked it.
    ItemActivated(usize),
    /// The user asked to close the launcher.
    CloseRequested,
}

/// What the launcher tells a front end.
#[derive(Debug, Clone)]
pub enum ControllerEvent {
    /// The results have changed.
    ResultsUpdated,
    /// Something went wrong.
    Error(String),
    /// Close.
    Close,
}

/// A row of the result list as a front end keeps it: what is shown, and the
/// position in the current results by which the item is executed.
#[derive(Debug, Clone)]
pub struct LauncherItemObject {
    title: String,
    description: Option<String>,
    icon: String,
    index: usize,
}

impl LauncherItemObject {
    /// The title as a text.
    pub closed spec fn title_text(&self) -> Seq<char> {
        self.title@
    }

    /// The icon as a text.
    pub closed spec fn icon_text(&self) -> Seq<char> {
        self.icon@
    }

    /// The position in the current results.
    pub closed spec fn position(&self) -> usize {
        self.index
    }

    pub fn new(title: String, description: Option<String>, icon: String, index: usize) -> (row:
        Self)
        ensures
            row.title_text() == title@,
            row.icon_text() == icon@,
            row.position() == index,
    {
        LauncherItemObject { title, description, icon, index }
    }

    pub fn title(&self) -> (r: String)
        ensures
            r@ == self.title_text(),
    {
        self.title.clone()
    }

    pub fn icon(&self) -> (r: String)
        ensures
            r@ == self.icon_text(),
    {
        self.icon.clone()
    }

    pub fn index(&self) -> (r: usize)
        ensures
            r == self.position(),
    {
        self.index
    }
}

/// Collects providers for a launcher.
pub struct WaycastLauncherBuilder {
    pub plugins: Vec<Box<dyn LauncherPlugin>>,
}

impl WaycastLauncherBuilder {
    /// A builder without providers.
    pub fn new() -> (builder: Self)
        ensures
            builder.plugins@.len() == 0,
    {
        proof {
            crate::seqs::lemma_empty::<Box<dyn LauncherPlugin>>();
        }
        WaycastLauncherBuilder { plugins: Vec::new() }
    }

    /// The builder with one more provider, behind those it has.
    pub fn add_plugin<T: LauncherPlugin + 'static>(self, plugin: T) -> (builder: Self)
        ensures
            builder.plugins@.len() == self.plugins@.len() + 1,
    {
        let mut plugins = self.plugins;
        let boxed: Box<dyn LauncherPlugin> = Box::new(plugin);
        proof {
            crate::seqs::lemma_push(plugins@, boxed);
        }
        plugins.push(boxed);
        WaycastLauncherBuilder { plugins }
    }

    /// The launcher with the providers collected, registered in the order in
    /// which they were added, started, and ordered by priority.
    pub fn initialize(self) -> (launcher: WaycastLauncher)
        ensures
            launcher.wf(),
            launcher.providers().len() == self.plugins@.len(),
            launcher.order() == crate::ranking::ranked(
                crate::launcher::priorities(launcher.providers()),
            ),
            launcher.results().len() == 0,
    {
        let mut launcher = WaycastLauncher::new();
        let mut plugins = self.plugins;
        let ghost total = plugins@.len();
        // The providers are taken from the back, so they are turned round
        // first to keep the order in which they were added.
        let mut turned: Vec<Box<dyn LauncherPlugin>> = Vec::new();
        proof {
            crate::seqs::lemma_empty::<Box<dyn LauncherPlugin>>();
        }
        while plugins.len() > 0
            invariant
                plugins@.len() + turned@.len() == total,
            decreases plugins@.len(),
        {
            let ghost before = plugins@;
            let ghost held = turned@;
            match plugins.pop() {
                Some(p) => {
                    proof {
                        crate::seqs::lemma_push(held, p);
                        assert(plugins@.len() == before.len() - 1);
                    }
                    turned.push(p);
                },
                None => {},
            }
        }
        while turned.len() > 0
            invariant
                launcher.wf(),
                launcher.results().len() == 0,
                launcher.providers().len() + turned@.len() == total,
            decreases turned@.len(),
        {
            let ghost before = turned@;
            match turned.pop() {
                Some(p) => {
                    proof {
                        assert(turned@.len() == before.len() - 1);
                    }
                    launcher = launcher.add_plugin(p);
                },
                None => {},
            }
        }
        launcher.init()
    }
}

/// What the launcher does on the events of a front end.
pub struct LauncherController {
    launcher: WaycastLauncher,
}

/// Whether a query asks for nothing: it holds white space at most.
pub open spec fn is_blank(query: Seq<char>) -> bool {
    trimmed(query).len() == 0
}

impl LauncherController {
    /// The launcher that the controller drives.
    pub closed spec fn state(&self) -> WaycastLauncher {
        self.launcher
    }

    /// A controller for a launcher.
    pub fn new(launcher: WaycastLauncher) -> (controller: Self)
        ensures
            controller.state() == launcher,
    {
        LauncherController { launcher }
    }

    /// The launcher, for showing its results.
    pub fn launcher(&self) -> (r: &WaycastLauncher)
        ensures
            *r == self.state(),
    {
        &self.launcher
    }

    /// Fills the result list with the default results.
    pub fn initialize(&mut self)
        requires
            old(self).state().wf(),
        ensures
            final(self).state().wf(),
            final(self).state().providers() == old(self).state().providers(),
            final(self).state().order() == old(self).state().order(),
            final(self).state().plugins() == old(self).state().plugins(),
            final(self).state().holds_answer_to(RoutePlan::Default),
            final(self).state().answers(RoutePlan::Default, Seq::empty()),
    {
        self.launcher.get_default_results();
    }

    /// Acts on an event of the front end, and says what the front end is to
    /// do. A changed query renews the results: the default results for a
    /// blank query, the results of the query otherwise. An activated item is
    /// executed, and the launcher closes if that worked; if not, the failure
    /// is returned and the results stay. A request to close closes. A
    /// selection changes nothing.
    pub fn handle_event(&mut self, event: UIEvent) -> (r: Result<Option<ControllerEvent>, LaunchError>)
        requires
            old(self).state().wf(),
        ensures
            final(self).state().wf(),
            final(self).state().providers() == old(self).state().providers(),
            final(self).state().order() == old(self).state().order(),
            match event {
                UIEvent::SearchChanged(query) => {
                    &&& r == Ok::<Option<ControllerEvent>, LaunchError>(
                        Some(ControllerEvent::ResultsUpdated),
                    )
                    &&& final(self).state().holds_answer_to(
                        if is_blank(query@) {
                            RoutePlan::Default
                        } else {
                            route_of(old(self).state().providers(), query@)
                        },
                    )
                    &&& if is_blank(query@) {
                        final(self).state().answers(RoutePlan::Default, Seq::empty())
                    } else {
                        final(self).state().answers(
                            route_of(old(self).state().providers(), query@),
                            query@,
                        )
                    }
                },
                UIEvent::ItemActivated(index) => {
                    &&& final(self).state() == old(self).state()
                    &&& r matches Ok(told) ==> told == Some(ControllerEvent::Close)
                    &&& index >= old(self).state().results().len() ==> (r matches Err(e)
                        && e.text() == "Invalid index"@)
                    &&& index < old(self).state().results().len() ==> exists|
                        outcome: Result<(), LaunchError>,
                    |
                        {
                            &&& (#[trigger] old(self).state().results()[index as int].launches(
                                outcome,
                            ))
                            &&& match outcome {
                                Ok(_) => r.is_ok(),
                                Err(e) => r == Err::<Option<ControllerEvent>, LaunchError>(e),
                            }
                        }
                },
                UIEvent::ItemSelected(_) => final(self).state() == old(self).state() && r == Ok::<
                    Option<ControllerEvent>,
                    LaunchError,
                >(None),
                UIEvent::CloseRequested => final(self).state() == old(self).state() && r == Ok::<
                    Option<ControllerEvent>,
                    LaunchError,
                >(Some(ControllerEvent::Close)),
            },
    {
        match event {
            UIEvent::SearchChanged(query) => {
                if trim(query.as_str()).is_empty() {
                    self.launcher.get_default_results();
                } else {
                    self.launcher.search(query.as_str());
                }
                Ok(Some(ControllerEvent::ResultsUpdated))
            },
            UIEvent::ItemActivated(index) => {
                let outcome = self.launcher.execute_item(index);
                match outcome {
                    Ok(_) => {
                        proof {
                            if index < old(self).state().results().len() {
                                assert(old(self).state().results()[index as int].launches(
                                    outcome,
                                ));
                            }
                        }
                        Ok(Some(ControllerEvent::Close))
                    },
                    Err(e) => {
                        proof {
                            if index < old(self).state().results().len() {
                                assert(old(self).state().results()[index as int].launches(
                                    outcome,
                                ));
                            }
                        }
                        Err(e)
                    },
                }
            },
            UIEvent::ItemSelected(_) => Ok(None),
            UIEvent::CloseRequested => Ok(Some(ControllerEvent::Close)),
        }
    }
}

} // verus!
