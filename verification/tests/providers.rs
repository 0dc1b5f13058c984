use waycast::drun::{get_desktop_entries, AppRecord, DesktopEntry, DrunPlugin};
use waycast::file_search::{
    default_skip_list, FileEntry, FileSearchPlugin, ScanOutcome, INDEX_TIMEOUT_MS,
};
use waycast::fuzzy::FuzzySearchable;
use waycast::plugin::{PluginConfig, DEFAULT_PRIORITY};
use waycast::projects::type_scanner::ProjectLanguage;
use waycast::projects::{
    detect_project_type, project_type_key, should_skip_dir, spell_out, substitute_path,
    ProjectEntry, ProjectsPlugin,
};
use waycast::LaunchError;

fn record(name: &str, should_show: bool) -> AppRecord {
    AppRecord {
        should_show,
        id: Some(format!("{}.desktop", name)),
        name: Some(name.to_string()),
        comment: Some(format!("about {}", name)),
        icon: Some(name.to_lowercase()),
        path: format!("/usr/share/applications/{}.desktop", name),
    }
}

fn names(entries: &Vec<DesktopEntry>) -> Vec<String> {
    let mut all = Vec::new();
    for e in entries {
        all.push(e.name.clone());
    }
    all
}

fn strings(list: Vec<&str>) -> Vec<String> {
    let mut all = Vec::new();
    for s in list {
        all.push(s.to_string());
    }
    all
}

#[test]
fn hidden_applications_are_not_listed() {
    let records = vec![record("Firefox", true), record("Helper", false), record("Files", true)];
    let entries = get_desktop_entries(&records);
    assert_eq!(names(&entries), vec!["Firefox".to_string(), "Files".to_string()]);
    assert_eq!(entries[0].id(), "Firefox.desktop");
    assert_eq!(entries[0].title(), "Firefox");
    assert_eq!(entries[0].description(), Some("about Firefox".to_string()));
    assert_eq!(entries[0].icon(), "firefox");
    assert_eq!(entries[0].path(), "/usr/share/applications/Firefox.desktop");
    assert!(get_desktop_entries(&Vec::new()).is_empty());
}

#[test]
fn an_application_that_says_little_gets_defaults() {
    let bare = AppRecord {
        should_show: true,
        id: None,
        name: None,
        comment: None,
        icon: None,
        path: "/x.desktop".to_string(),
    };
    let entry = DesktopEntry::from_record(&bare);
    assert_eq!(entry.id, "");
    assert_eq!(entry.name, "Name not found");
    assert_eq!(entry.description, None);
    assert_eq!(entry.icon, "application-x-executable");
    assert_eq!(entry.path, "/x.desktop");
}

#[test]
fn applications_filter_by_name() {
    let plugin = DrunPlugin::new();
    let entries = get_desktop_entries(&vec![
        record("Files", true),
        record("Firefox", true),
        record("Calculator", true),
    ]);
    assert_eq!(names(&plugin.filter(&entries, "fire")), vec!["Firefox".to_string()]);
    assert_eq!(
        names(&plugin.filter(&entries, "fi")),
        vec!["Files".to_string(), "Firefox".to_string()]
    );
    assert!(plugin.filter(&entries, "zzz").is_empty());
}

#[test]
fn applications_filter_with_the_empty_query_is_the_default_list() {
    let plugin = waycast::drun::new();
    let entries = get_desktop_entries(&vec![record("Files", true), record("Firefox", true)]);
    let by_filter = plugin.filter(&entries, "");
    let by_default = plugin.default_list(&entries);
    assert_eq!(names(&by_filter), names(&by_default));
    assert_eq!(names(&by_default), vec!["Files".to_string(), "Firefox".to_string()]);
}

#[test]
fn applications_show_five_matches_at_most() {
    let plugin = DrunPlugin::new();
    let mut records = Vec::new();
    for i in 0..8 {
        records.push(record(&format!("App{}", i), true));
    }
    let entries = get_desktop_entries(&records);
    let found = plugin.filter(&entries, "app");
    assert_eq!(
        names(&found),
        strings(vec!["App0", "App1", "App2", "App3", "App4"])
    );
}

#[test]
fn what_the_providers_declare() {
    let drun = DrunPlugin::new().config();
    assert_eq!(drun.name, "drun");
    assert_eq!(drun.priority, 1000);
    assert_eq!(drun.prefix, Some("app".to_string()));
    assert_eq!(drun.description, Some("List and launch an installed application".to_string()));
    assert!(!drun.by_prefix_only);
    let files = FileSearchPlugin::new(Vec::new(), Vec::new(), Vec::new()).config();
    assert_eq!(files.name, "Files");
    assert_eq!(files.priority, 500);
    assert_eq!(files.prefix, Some("f".to_string()));
    assert_eq!(files.description, Some("Search and open files".to_string()));
    let projects = ProjectsPlugin::new(None, None, None).config();
    assert_eq!(projects.name, "Projects");
    assert_eq!(projects.priority, 800);
    assert_eq!(projects.prefix, Some("proj".to_string()));
    assert_eq!(projects.description, Some("Search and open code projects".to_string()));
}

#[test]
fn a_plugin_config_starts_from_defaults() {
    let config = PluginConfig::new("mine");
    assert_eq!(config.name, "mine");
    assert_eq!(config.priority, DEFAULT_PRIORITY);
    assert_eq!(config.priority, 100);
    assert_eq!(config.description, None);
    assert_eq!(config.prefix, None);
    assert!(!config.by_prefix_only);
    let config = config
        .with_priority(-3)
        .with_description("about")
        .with_prefix("m")
        .with_by_prefix_only(true);
    assert_eq!(config.name, "mine");
    assert_eq!(config.priority, -3);
    assert_eq!(config.description, Some("about".to_string()));
    assert_eq!(config.prefix, Some("m".to_string()));
    assert!(config.by_prefix_only);
}

#[test]
fn a_file_entry_is_named_by_the_last_part_of_its_path() {
    let entry = FileEntry::new("/home/me/Documents/report.pdf").unwrap();
    assert_eq!(entry.id(), "/home/me/Documents/report.pdf");
    assert_eq!(entry.title(), "report.pdf");
    assert_eq!(entry.description(), Some("/home/me/Documents/report.pdf".to_string()));
    assert_eq!(entry.path(), "/home/me/Documents/report.pdf");
    assert_eq!(entry.primary_key(), "report.pdf");
    assert_eq!(entry.secondary_keys(), vec!["/home/me/Documents/report.pdf".to_string()]);
    assert_eq!(FileEntry::fallback_icon(), "text-x-generic");
    assert!(FileEntry::new("/").is_none());
    assert!(FileEntry::new("/home/me/..").is_none());
    assert!(FileEntry::new("").is_none());
    assert_eq!(FileEntry::new("relative/dir/").unwrap().title(), "dir");
}

#[test]
fn the_default_skip_list() {
    assert_eq!(
        default_skip_list(),
        strings(vec!["vendor", "node_modules", "cache", "zig-cache"])
    );
    assert_eq!(INDEX_TIMEOUT_MS, 2000);
}

#[test]
fn a_walk_skips_hidden_and_listed_names() {
    let mut plugin =
        FileSearchPlugin::new(strings(vec!["/home/me/Documents"]), Vec::new(), strings(vec!["target"]));
    assert!(plugin.should_visit("src"));
    assert!(plugin.should_visit("report.pdf"));
    assert!(!plugin.should_visit(".git"));
    assert!(!plugin.should_visit(".hidden.txt"));
    assert!(!plugin.should_visit("node_modules"));
    assert!(!plugin.should_visit("vendor"));
    assert!(!plugin.should_visit("target"));
    assert!(plugin.should_visit("Vendor"));
    assert!(plugin.should_visit(""));
    assert!(plugin.should_visit("build"));
    assert_eq!(plugin.add_skip_dir("build".to_string()), Ok(()));
    assert!(!plugin.should_visit("build"));
    assert_eq!(plugin.add_skip_dir("build".to_string()), Ok(()));
    assert_eq!(
        plugin.skip_dirs().clone(),
        strings(vec!["vendor", "node_modules", "cache", "zig-cache", "target", "build"])
    );
}

#[test]
fn search_paths_are_kept_once() {
    let mut plugin = FileSearchPlugin::new(
        strings(vec!["/a", "/b"]),
        strings(vec!["/b", "/c"]),
        strings(vec!["cache"]),
    );
    assert_eq!(plugin.search_paths().clone(), strings(vec!["/a", "/b", "/c"]));
    assert_eq!(plugin.skip_dirs().len(), 4);
    assert_eq!(plugin.add_search_path("/d", true, true), Ok(()));
    assert_eq!(plugin.add_search_path("/a", true, true), Ok(()));
    assert_eq!(plugin.search_paths().clone(), strings(vec!["/a", "/b", "/c", "/d"]));
}

#[test]
fn a_bad_search_path_is_refused() {
    let mut plugin = FileSearchPlugin::new(Vec::new(), Vec::new(), Vec::new());
    assert_eq!(
        plugin.add_search_path("/nowhere", false, false),
        Err("Path does not exist: /nowhere".to_string())
    );
    assert_eq!(
        plugin.add_search_path("/etc/passwd", true, false),
        Err("Path is not a directory: /etc/passwd".to_string())
    );
    assert!(plugin.search_paths().is_empty());
    let mut projects = ProjectsPlugin::new(None, None, None);
    assert_eq!(
        projects.add_search_path("/nowhere", false, true),
        Err("Path does not exist: /nowhere".to_string())
    );
    assert_eq!(
        projects.add_search_path("/etc/passwd", true, false),
        Err("Path is not a directory: /etc/passwd".to_string())
    );
    assert!(projects.search_paths().is_empty());
    assert_eq!(projects.add_search_path("/home/me/projects", true, true), Ok(()));
    assert_eq!(projects.search_paths().clone(), strings(vec!["/home/me/projects"]));
}

fn indexed(paths: Vec<&str>) -> FileSearchPlugin {
    let mut plugin = FileSearchPlugin::new(Vec::new(), Vec::new(), Vec::new());
    let mut found = Vec::new();
    for p in paths {
        found.push(FileEntry::new(p).unwrap());
    }
    plugin.finish_scan(ScanOutcome::Completed(found));
    plugin
}

fn file_titles(found: &Vec<FileEntry>) -> Vec<String> {
    let mut all = Vec::new();
    for f in found {
        all.push(f.title());
    }
    all
}

#[test]
fn a_walk_that_went_through_replaces_the_index() {
    let mut plugin = indexed(vec!["/docs/a.txt", "/docs/b.txt"]);
    assert_eq!(plugin.files().len(), 2);
    plugin.finish_scan(ScanOutcome::Completed(vec![FileEntry::new("/docs/c.txt").unwrap()]));
    assert_eq!(file_titles(plugin.files()), strings(vec!["c.txt"]));
}

#[test]
fn a_walk_that_timed_out_leaves_the_index() {
    let mut plugin = indexed(vec!["/docs/a.txt", "/docs/b.txt"]);
    plugin.finish_scan(ScanOutcome::TimedOut);
    assert_eq!(file_titles(plugin.files()), strings(vec!["a.txt", "b.txt"]));
    let mut fresh = FileSearchPlugin::new(Vec::new(), Vec::new(), Vec::new());
    fresh.finish_scan(ScanOutcome::TimedOut);
    assert!(fresh.files().is_empty());
    assert!(fresh.filter("a").is_empty());
}

#[test]
fn files_filter_by_name_before_path() {
    let plugin = indexed(vec![
        "/home/me/report/notes.txt",
        "/home/me/docs/report.txt",
        "/home/me/docs/other.txt",
    ]);
    assert_eq!(
        file_titles(&plugin.filter("report")),
        strings(vec!["report.txt", "notes.txt"])
    );
    assert!(plugin.filter("zzz").is_empty());
}

#[test]
fn files_filter_with_the_empty_query_is_the_default_list() {
    let plugin = indexed(vec!["/docs/a.txt"]);
    assert_eq!(plugin.filter("").len(), plugin.default_list().len());
    assert!(plugin.default_list().is_empty());
}

#[test]
fn files_show_ten_matches_at_most() {
    let mut paths = Vec::new();
    for i in 0..15 {
        paths.push(format!("/docs/file{:02}.txt", i));
    }
    let mut plugin = FileSearchPlugin::new(Vec::new(), Vec::new(), Vec::new());
    let mut found = Vec::new();
    for p in &paths {
        found.push(FileEntry::new(p).unwrap());
    }
    plugin.finish_scan(ScanOutcome::Completed(found));
    let shown = plugin.filter("file");
    assert_eq!(shown.len(), 10);
    assert_eq!(shown[0].title(), "file00.txt");
    assert_eq!(shown[9].title(), "file09.txt");
}

#[test]
fn both_ways_of_opening_failed() {
    assert_eq!(
        FileEntry::both_failed("not found", "no handler"),
        LaunchError::CouldNotLaunch(
            "Both xdg-open and GIO failed: not found / no handler".to_string()
        )
    );
}

fn project(path: &str, kind: Option<&str>) -> ProjectEntry {
    ProjectEntry::new(path, "code -n {path}", kind.map(|k| k.to_string())).unwrap()
}

fn project_titles(found: &Vec<ProjectEntry>) -> Vec<String> {
    let mut all = Vec::new();
    for p in found {
        all.push(p.title());
    }
    all
}

#[test]
fn projects_are_directories_that_are_neither_hidden_nor_skipped() {
    let plugin = ProjectsPlugin::new(None, Some(strings(vec!["archive", "archive"])), None);
    assert!(plugin.is_project_dir("waycast", true));
    assert!(!plugin.is_project_dir("waycast", false));
    assert!(!plugin.is_project_dir(".config", true));
    assert!(!plugin.is_project_dir("archive", true));
    assert!(plugin.is_project_dir("node_modules", true));
    assert!(should_skip_dir("vendor", &strings(vec!["vendor", "cache"])));
    assert!(!should_skip_dir("Vendor", &strings(vec!["vendor", "cache"])));
    assert!(!should_skip_dir("vendor", &Vec::new()));
}

#[test]
fn projects_settings_fall_back_to_defaults() {
    let plain = ProjectsPlugin::new(None, None, None);
    assert!(plain.search_paths().is_empty());
    assert_eq!(plain.open_command(), "code -n {path}");
    assert!(plain.projects().is_empty());
    let set = ProjectsPlugin::new(
        Some(strings(vec!["/p", "/q", "/p"])),
        None,
        Some("zed {path}".to_string()),
    );
    assert_eq!(set.search_paths().clone(), strings(vec!["/p", "/q"]));
    assert_eq!(set.open_command(), "zed {path}");
}

#[test]
fn projects_filter_by_name_ignoring_case() {
    let mut plugin = ProjectsPlugin::new(None, None, None);
    plugin.finish_scan(vec![
        project("/p/Waycast", Some("Rust")),
        project("/p/blog", None),
        project("/p/my-WAY", None),
        project("/way/other", None),
    ]);
    assert_eq!(project_titles(&plugin.filter("way")), strings(vec!["Waycast", "my-WAY"]));
    assert_eq!(project_titles(&plugin.filter("WAY")), strings(vec!["Waycast", "my-WAY"]));
    assert_eq!(project_titles(&plugin.filter("blog")), strings(vec!["blog"]));
    assert!(plugin.filter("wcs").is_empty());
    assert!(plugin.filter("").is_empty());
    assert!(plugin.default_list().is_empty());
    let found = plugin.filter("waycast");
    assert_eq!(found[0].id(), "/p/Waycast");
    assert_eq!(found[0].description(), Some("/p/Waycast".to_string()));
    assert_eq!(found[0].project_type(), Some("Rust".to_string()));
}

#[test]
fn a_scan_replaces_the_projects() {
    let mut plugin = ProjectsPlugin::new(None, None, None);
    plugin.finish_scan(vec![project("/p/a", None), project("/p/b", None)]);
    plugin.finish_scan(vec![project("/p/c", None)]);
    assert_eq!(project_titles(plugin.projects()), strings(vec!["c"]));
}

#[test]
fn a_project_needs_a_name() {
    assert!(ProjectEntry::new("/", "code", None).is_none());
    assert!(ProjectEntry::new("/p/..", "code", None).is_none());
}

#[test]
fn the_open_command_gets_the_path() {
    assert_eq!(substitute_path("code -n {path}", "/p/a"), "code -n /p/a");
    assert_eq!(substitute_path("{path}{path}", "ab"), "abab");
    assert_eq!(substitute_path("open", "/p/a"), "open");
    assert_eq!(substitute_path("{path", "/p/a"), "{path");
    assert_eq!(substitute_path("{{path}}", "x"), "{x}");
    assert_eq!(substitute_path("{path}", "{path}"), "{path}");
    assert_eq!(substitute_path("", "x"), "");
    assert_eq!(substitute_path("é {path} ü", "ö"), "é ö ü");
    let entry = project("/p/a", None);
    assert_eq!(entry.launch_command(), Ok(("code".to_string(), strings(vec!["-n", "/p/a"]))));
    let spaced = project("/p/my project", None);
    assert_eq!(
        spaced.launch_command(),
        Ok(("code".to_string(), strings(vec!["-n", "/p/my", "project"])))
    );
    let bare = ProjectEntry::new("/p/a", "  zed  ", None).unwrap();
    assert_eq!(bare.launch_command(), Ok(("zed".to_string(), Vec::new())));
}

#[test]
fn an_open_command_without_a_program_is_refused() {
    let empty = ProjectEntry::new("/p/a", "", None).unwrap();
    assert_eq!(
        empty.launch_command(),
        Err(LaunchError::CouldNotLaunch("No program found in exec_command".to_string()))
    );
    let blank = ProjectEntry::new("/p/a", "   ", None).unwrap();
    assert_eq!(
        blank.launch_command(),
        Err(LaunchError::CouldNotLaunch("No program found in exec_command".to_string()))
    );
}

#[test]
fn the_icon_of_a_project() {
    assert_eq!(project("/p/a", Some("Rust")).icon_file_name(), Some("rust.svg".to_string()));
    assert_eq!(
        project("/p/a", Some("Cplusplus")).icon_file_name(),
        Some("cplusplus.svg".to_string())
    );
    assert_eq!(project("/p/a", None).icon_file_name(), None);
    assert_eq!(
        ProjectEntry::choose_icon(Some("/x/rust.svg".to_string()), Some("./rust.svg".to_string())),
        "/x/rust.svg"
    );
    assert_eq!(ProjectEntry::choose_icon(None, Some("./rust.svg".to_string())), "./rust.svg");
    assert_eq!(ProjectEntry::choose_icon(None, None), "vscode");
}

fn language(name: &str) -> ProjectLanguage {
    ProjectLanguage { name: name.to_string(), code: 10, total: 10 }
}

#[test]
fn the_type_of_a_project() {
    assert_eq!(
        detect_project_type(Some("Laravel".to_string()), &vec![language("PHP")]),
        Some("Laravel".to_string())
    );
    assert_eq!(detect_project_type(None, &vec![language("Rust"), language("C")]), Some("Rust".to_string()));
    assert_eq!(detect_project_type(None, &vec![language("C++")]), Some("Cplusplus".to_string()));
    assert_eq!(detect_project_type(None, &vec![language("C#")]), Some("Csharp".to_string()));
    assert_eq!(detect_project_type(None, &Vec::new()), None);
    assert_eq!(spell_out("F#+"), "Fsharpplus");
    assert_eq!(spell_out(""), "");
    assert_eq!(project_type_key("/p/a"), "project_type:/p/a");
}
