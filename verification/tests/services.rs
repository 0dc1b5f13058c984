use waycast::calculator::CalculatorPlugin;
use waycast::config::{cache_dir, cache_path, config_dir, config_path, data_dir, Directories};
use waycast::ipc::{Response, ResponseType, WaycastService};
use waycast::launcher::WaycastLauncher;
use waycast::protocol::{
    expect_items, expect_success, handle_request, items_response, next_request_id,
    success_response, LauncherHandler, LauncherItem, Method, ProtocolError, Request,
    RequestHandler, RequestIds, ResponseData,
};
use waycast::spawn::{preserved_environment, session_variables};
use waycast::text::{
    chars_of, contains, same_text, starts_with_dot, text_between, text_from,
};
use waycast::ui::{
    ControllerEvent, LauncherController, LauncherItemObject, UIEvent, WaycastLauncherBuilder,
};
use waycast::{LaunchError, LauncherListItem, LauncherPlugin};

struct Word {
    text: String,
}

impl LauncherListItem for Word {
    fn id(&self) -> String {
        format!("word:{}", self.text)
    }

    fn title(&self) -> String {
        self.text.clone()
    }

    fn description(&self) -> Option<String> {
        Some("a word".to_string())
    }

    fn icon(&self) -> String {
        "text".to_string()
    }

    fn execute(&self) -> Result<(), LaunchError> {
        if self.text == "fail" {
            Err(LaunchError::CouldNotLaunch("could not launch".to_string()))
        } else {
            Ok(())
        }
    }
}

struct Words {
    priority: i32,
}

impl LauncherPlugin for Words {
    fn init(&self) {}

    fn name(&self) -> String {
        "words".to_string()
    }

    fn priority(&self) -> i32 {
        self.priority
    }

    fn description(&self) -> Option<String> {
        None
    }

    fn prefix(&self) -> Option<String> {
        Some("w".to_string())
    }

    fn by_prefix_only(&self) -> bool {
        false
    }

    fn default_list(&self) -> Vec<Box<dyn LauncherListItem>> {
        vec![Box::new(Word { text: "default".to_string() })]
    }

    fn filter(&self, query: &str) -> Vec<Box<dyn LauncherListItem>> {
        if query.is_empty() {
            return self.default_list();
        }
        let mut items: Vec<Box<dyn LauncherListItem>> = Vec::new();
        for part in query.split_whitespace() {
            items.push(Box::new(Word { text: part.to_string() }));
        }
        items
    }
}

fn launcher() -> WaycastLauncher {
    WaycastLauncher::new().add_plugin(Box::new(Words { priority: 1 })).init()
}

fn item_titles(items: &Vec<LauncherItem>) -> Vec<String> {
    let mut all = Vec::new();
    for i in items {
        all.push(i.title.clone());
    }
    all
}

#[test]
fn request_ids_count_up_from_one() {
    let mut ids = RequestIds::new();
    assert_eq!(next_request_id(&mut ids), 1);
    assert_eq!(next_request_id(&mut ids), 2);
    let third = Request::new(&mut ids, Method::DefaultList);
    assert_eq!(third.id, 3);
    assert!(matches!(third.method, Method::DefaultList));
    let fourth = Request::new(&mut ids, Method::Execute("x".to_string()));
    assert_eq!(fourth.id, 4);
    assert!(matches!(fourth.method, Method::Execute(id) if id == "x"));
}

#[test]
fn responses_carry_the_id_of_their_request() {
    let ok = waycast::protocol::Response::success(7, ResponseData::Success);
    assert_eq!(ok.id, 7);
    assert!(matches!(ok.result, Ok(ResponseData::Success)));
    let failed = waycast::protocol::Response::error(8, "no".to_string());
    assert_eq!(failed.id, 8);
    assert!(matches!(failed.result, Err(m) if m == "no"));
    let items = items_response(9, Ok(Vec::new()));
    assert_eq!(items.id, 9);
    assert!(matches!(items.result, Ok(ResponseData::Items(i)) if i.is_empty()));
    assert!(matches!(items_response(1, Err("e".to_string())).result, Err(m) if m == "e"));
    assert!(matches!(success_response(1, Ok(())).result, Ok(ResponseData::Success)));
    assert!(matches!(success_response(1, Err("e".to_string())).result, Err(m) if m == "e"));
}

struct Failing;

impl RequestHandler for Failing {
    fn search(&mut self, query: &str) -> Result<Vec<LauncherItem>, String> {
        Err(format!("cannot search {}", query))
    }

    fn default_list(&mut self) -> Result<Vec<LauncherItem>, String> {
        Ok(Vec::new())
    }

    fn execute(&mut self, id: &str) -> Result<(), String> {
        if id == "known" {
            Ok(())
        } else {
            Err(format!("no {}", id))
        }
    }
}

#[test]
fn a_request_is_answered_by_its_method() {
    let mut handler = Failing;
    let mut ids = RequestIds::new();
    let search = Request::new(&mut ids, Method::Search("q".to_string()));
    let answer = handle_request(&search, &mut handler);
    assert_eq!(answer.id, 1);
    assert!(matches!(answer.result, Err(m) if m == "cannot search q"));
    let list = Request::new(&mut ids, Method::DefaultList);
    let answer = handle_request(&list, &mut handler);
    assert_eq!(answer.id, 2);
    assert!(matches!(answer.result, Ok(ResponseData::Items(i)) if i.is_empty()));
    let run = Request::new(&mut ids, Method::Execute("known".to_string()));
    let answer = handle_request(&run, &mut handler);
    assert_eq!(answer.id, 3);
    assert!(matches!(answer.result, Ok(ResponseData::Success)));
    let run = Request::new(&mut ids, Method::Execute("other".to_string()));
    assert!(matches!(handle_request(&run, &mut handler).result, Err(m) if m == "no other"));
}

#[test]
fn what_a_front_end_makes_of_a_response() {
    let item = LauncherItem {
        id: "i".to_string(),
        title: "t".to_string(),
        description: None,
        icon: "c".to_string(),
    };
    let items = expect_items(items_response(1, Ok(vec![item]))).unwrap();
    assert_eq!(item_titles(&items), vec!["t".to_string()]);
    assert_eq!(
        expect_items(success_response(1, Ok(()))).unwrap_err(),
        ProtocolError::Request("Expected items response".to_string())
    );
    assert_eq!(
        expect_items(items_response(1, Err("down".to_string()))).unwrap_err(),
        ProtocolError::Request("down".to_string())
    );
    assert_eq!(expect_success(success_response(1, Ok(()))), Ok(()));
    assert_eq!(
        expect_success(items_response(1, Ok(Vec::new()))),
        Err(ProtocolError::Request("Expected success response".to_string()))
    );
    assert_eq!(
        expect_success(success_response(1, Err("down".to_string()))),
        Err(ProtocolError::Request("down".to_string()))
    );
}

#[test]
fn protocol_errors_in_words() {
    assert_eq!(
        ProtocolError::Connection("refused".to_string()).describe(),
        "Connection failed: refused"
    );
    assert_eq!(
        ProtocolError::Serialization("eof".to_string()).describe(),
        "Serialization failed: eof"
    );
    assert_eq!(ProtocolError::Request("no".to_string()).describe(), "Request failed: no");
    assert_eq!(ProtocolError::DaemonNotRunning.describe(), "Daemon not running");
    assert_eq!(ProtocolError::InvalidResponseId.describe(), "Invalid response ID");
}

#[test]
fn a_launcher_answers_requests() {
    let mut handler = LauncherHandler::new(launcher());
    let found = handler.search("one two").unwrap();
    assert_eq!(item_titles(&found), vec!["one".to_string(), "two".to_string()]);
    assert_eq!(found[0].id, "word:one");
    assert_eq!(found[0].description, Some("a word".to_string()));
    assert_eq!(found[0].icon, "text");
    assert_eq!(handler.execute("word:two"), Ok(()));
    assert_eq!(handler.execute("word:three"), Err("Execute error: Item not found".to_string()));
    let defaults = handler.default_list().unwrap();
    assert_eq!(item_titles(&defaults), vec!["default".to_string()]);
    assert_eq!(handler.execute("word:two"), Err("Execute error: Item not found".to_string()));
    handler.search("fail");
    assert_eq!(handler.execute("word:fail"), Err("Execute error: could not launch".to_string()));
    assert_eq!(handler.launcher.current_results().len(), 1);
}

#[test]
fn the_service_answers_with_items_success_or_error() {
    let mut service = WaycastService::new(launcher());
    let answer = service.search("one fail");
    assert_eq!(answer.response_type, ResponseType::Items);
    assert_eq!(answer.error, None);
    let items = answer.items.unwrap();
    assert_eq!(items.len(), 2);
    assert_eq!(items[0].id, "word:one");
    assert_eq!(items[0].title, "one");
    let ok = service.execute("word:one");
    assert_eq!(ok.response_type, ResponseType::Success);
    assert!(ok.items.is_none());
    assert_eq!(ok.error, None);
    let failed = service.execute("word:fail");
    assert_eq!(failed.response_type, ResponseType::Error);
    assert_eq!(failed.error, Some("Failed to launch item: word:fail".to_string()));
    let unknown = service.execute("word:none");
    assert_eq!(unknown.response_type, ResponseType::Error);
    assert_eq!(unknown.error, Some("Failed to launch item: word:none".to_string()));
    let defaults = service.default_list();
    assert_eq!(defaults.response_type, ResponseType::Items);
    assert_eq!(defaults.items.unwrap().len(), 1);
    let plain = Response::success();
    assert_eq!(plain.response_type, ResponseType::Success);
    let error = Response::error("bad".to_string());
    assert_eq!(error.response_type, ResponseType::Error);
    assert_eq!(error.error, Some("bad".to_string()));
    assert!(error.items.is_none());
}

#[test]
fn the_controller_acts_on_events() {
    let mut controller = LauncherController::new(launcher());
    controller.initialize();
    assert_eq!(controller.launcher().current_results().len(), 1);
    let told = controller.handle_event(UIEvent::SearchChanged("one two".to_string()));
    assert!(matches!(told, Ok(Some(ControllerEvent::ResultsUpdated))));
    assert_eq!(controller.launcher().current_results().len(), 2);
    assert!(matches!(controller.handle_event(UIEvent::ItemSelected(1)), Ok(None)));
    assert_eq!(controller.launcher().current_results().len(), 2);
    assert!(matches!(
        controller.handle_event(UIEvent::ItemActivated(1)),
        Ok(Some(ControllerEvent::Close))
    ));
    assert!(matches!(
        controller.handle_event(UIEvent::ItemActivated(2)),
        Err(LaunchError::CouldNotLaunch(m)) if m == "Invalid index"
    ));
    assert!(matches!(
        controller.handle_event(UIEvent::CloseRequested),
        Ok(Some(ControllerEvent::Close))
    ));
    controller.handle_event(UIEvent::SearchChanged("fail".to_string())).unwrap();
    assert!(matches!(
        controller.handle_event(UIEvent::ItemActivated(0)),
        Err(LaunchError::CouldNotLaunch(m)) if m == "could not launch"
    ));
    assert_eq!(controller.launcher().current_results().len(), 1);
}

#[test]
fn a_blank_query_gives_the_default_results() {
    let mut controller = LauncherController::new(launcher());
    controller.handle_event(UIEvent::SearchChanged("one two".to_string())).unwrap();
    controller.handle_event(UIEvent::SearchChanged("  \t ".to_string())).unwrap();
    let results = controller.launcher().current_results();
    assert_eq!(results.len(), 1);
    assert_eq!(results[0].title(), "default");
    controller.handle_event(UIEvent::SearchChanged(String::new())).unwrap();
    assert_eq!(controller.launcher().current_results()[0].title(), "default");
}

#[test]
fn a_builder_registers_in_the_order_added() {
    let mut launcher = WaycastLauncherBuilder::new()
        .add_plugin(Words { priority: 5 })
        .add_plugin(CalculatorPlugin::new())
        .add_plugin(Words { priority: 5 })
        .initialize();
    // The calculator has the higher priority; the two others keep their order.
    match launcher.route("calc 1+1") {
        waycast::launcher::Route::Scoped { provider, rest } => {
            assert_eq!(provider, 1);
            assert_eq!(rest, "1+1");
        }
        _ => panic!("the prefix was not seen"),
    }
    match launcher.route("w x") {
        waycast::launcher::Route::Scoped { provider, .. } => assert_eq!(provider, 2),
        _ => panic!("the prefix was not seen"),
    }
    let results = launcher.search("7*6");
    assert_eq!(results.len(), 3);
    assert_eq!(results[0].title(), "42");
    assert_eq!(launcher.always_shown(), vec![1, 0, 2]);
    let empty = WaycastLauncherBuilder::new().initialize();
    assert!(empty.current_results().is_empty());
}

#[test]
fn a_row_keeps_what_it_was_given() {
    let row = LauncherItemObject::new("Firefox".to_string(), None, "firefox".to_string(), 3);
    assert_eq!(row.title(), "Firefox");
    assert_eq!(row.icon(), "firefox");
    assert_eq!(row.index(), 3);
}

fn directories(development: bool) -> Directories {
    Directories {
        development,
        current: Some("/src/waycast".to_string()),
        config: Some("/home/me/.config/waycast".to_string()),
        cache: Some("/home/me/.cache/waycast".to_string()),
        data: Some("/home/me/.local/share/waycast".to_string()),
    }
}

#[test]
fn where_things_are_kept() {
    let installed = directories(false);
    assert_eq!(config_dir(&installed), Some("/home/me/.config/waycast".to_string()));
    assert_eq!(cache_dir(&installed), Some("/home/me/.cache/waycast".to_string()));
    assert_eq!(data_dir(&installed), Some("/home/me/.local/share/waycast".to_string()));
    assert_eq!(
        config_path(&installed, "waycast.toml"),
        Some("/home/me/.config/waycast/waycast.toml".to_string())
    );
    assert_eq!(
        cache_path(&installed, "waycast_cache.db"),
        Some("/home/me/.cache/waycast/waycast_cache.db".to_string())
    );
    let tree = directories(true);
    assert_eq!(config_dir(&tree), Some("/home/me/.config/waycast".to_string()));
    assert_eq!(cache_dir(&tree), Some("/src/waycast/xdg/.cache".to_string()));
    assert_eq!(data_dir(&tree), Some("/src/waycast/xdg/.local/share".to_string()));
    assert_eq!(
        cache_path(&tree, "waycast_cache.db"),
        Some("/src/waycast/xdg/.cache/waycast_cache.db".to_string())
    );
    let nowhere = Directories {
        development: true,
        current: None,
        config: None,
        cache: Some("/c".to_string()),
        data: Some("/d".to_string()),
    };
    assert_eq!(config_dir(&nowhere), None);
    assert_eq!(cache_dir(&nowhere), None);
    assert_eq!(data_dir(&nowhere), None);
    assert_eq!(config_path(&nowhere, "f"), None);
    assert_eq!(cache_path(&nowhere, "f"), None);
}

#[test]
fn the_session_is_handed_on() {
    let names = session_variables();
    assert_eq!(
        names,
        vec![
            "WAYLAND_DISPLAY",
            "DISPLAY",
            "XDG_RUNTIME_DIR",
            "XDG_SESSION_TYPE",
            "XDG_CURRENT_DESKTOP"
        ]
    );
    let values = vec![
        Some("wayland-1".to_string()),
        None,
        Some("/run/user/1000".to_string()),
        None,
        Some("sway".to_string()),
    ];
    let mut variables = Vec::new();
    for (name, value) in names.iter().zip(values) {
        variables.push((name.clone(), value));
    }
    assert_eq!(
        preserved_environment(&variables),
        vec![
            ("WAYLAND_DISPLAY".to_string(), "wayland-1".to_string()),
            ("XDG_RUNTIME_DIR".to_string(), "/run/user/1000".to_string()),
            ("XDG_CURRENT_DESKTOP".to_string(), "sway".to_string()),
        ]
    );
    let unset = vec![("DISPLAY".to_string(), None), ("OTHER".to_string(), None)];
    assert!(preserved_environment(&unset).is_empty());
    assert!(preserved_environment(&Vec::new()).is_empty());
}

#[test]
fn texts_as_characters() {
    assert_eq!(chars_of("aé"), vec!['a', 'é']);
    assert_eq!(chars_of(""), Vec::<char>::new());
    assert_eq!(text_from(&vec!['a', 'é', '.']), "aé.");
    assert_eq!(text_from(&Vec::new()), "");
    assert_eq!(text_between(&chars_of("app fire"), 4, 8), "fire");
    assert_eq!(text_between(&chars_of("app fire"), 0, 3), "app");
    assert_eq!(text_between(&chars_of("aé語"), 1, 3), "é語");
    assert_eq!(text_between(&chars_of("app"), 2, 2), "");
    assert!(same_text("a", "a"));
    assert!(!same_text("a", "A"));
    assert!(starts_with_dot(".git"));
    assert!(!starts_with_dot("git."));
    assert!(!starts_with_dot(""));
    assert!(contains(&chars_of("firefox"), &chars_of("ref")));
    assert!(contains(&chars_of("firefox"), &chars_of("fox")));
    assert!(contains(&chars_of("firefox"), &chars_of("firefox")));
    assert!(contains(&chars_of("firefox"), &chars_of("")));
    assert!(contains(&chars_of(""), &chars_of("")));
    assert!(!contains(&chars_of("firefox"), &chars_of("firefoxx")));
    assert!(!contains(&chars_of("firefox"), &chars_of("fx")));
    assert!(!contains(&chars_of(""), &chars_of("a")));
}
