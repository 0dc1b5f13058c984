use waycast::icons::{candidate_files, find_icon_file, icon_cache_key};

fn paths() -> Vec<String> {
    vec![
        "/usr/share/icons".to_string(),
        "/usr/share/pixmaps".to_string(),
        "/opt/other".to_string(),
        "/home/me/.local/share/icons".to_string(),
    ]
}

#[test]
fn the_candidates_of_an_icon_in_order() {
    let files = candidate_files("firefox", "48", "Adwaita", &paths());
    // Three files for the one directory of loose images, and three for each
    // of the six directories of each of two themes below each of two bases.
    assert_eq!(files.len(), 3 + 2 * 2 * 6 * 3);
    assert_eq!(files[0], "/usr/share/pixmaps/firefox.svg");
    assert_eq!(files[1], "/usr/share/pixmaps/firefox.png");
    assert_eq!(files[2], "/usr/share/pixmaps/firefox.xpm");
    assert_eq!(files[3], "/usr/share/icons/Adwaita/48x48/apps/firefox.svg");
    assert_eq!(files[4], "/usr/share/icons/Adwaita/48x48/apps/firefox.png");
    assert_eq!(files[6], "/usr/share/icons/Adwaita/48x48/applications/firefox.svg");
    assert_eq!(files[9], "/usr/share/icons/Adwaita/48x48/mimetypes/firefox.svg");
    assert_eq!(files[12], "/usr/share/icons/Adwaita/scalable/apps/firefox.svg");
    assert_eq!(files[21], "/home/me/.local/share/icons/Adwaita/48x48/apps/firefox.svg");
    assert_eq!(files[39], "/usr/share/icons/hicolor/48x48/apps/firefox.svg");
    assert_eq!(files[74], "/home/me/.local/share/icons/hicolor/scalable/mimetypes/firefox.xpm");
}

#[test]
fn the_scalable_size_has_its_own_directory_name() {
    let files = candidate_files("a", "scalable", "T", &vec!["/icons".to_string()]);
    assert_eq!(files[0], "/icons/T/scalable/apps/a.svg");
    assert_eq!(files[9], "/icons/T/scalable/apps/a.svg");
    assert!(candidate_files("a", "16", "T", &Vec::new()).is_empty());
    assert!(candidate_files("a", "16", "T", &vec!["/nothing".to_string()]).is_empty());
}

#[test]
fn the_first_file_that_is_there_is_the_icon() {
    let there = ["/usr/share/icons/hicolor/48x48/apps/firefox.png",
        "/usr/share/icons/hicolor/scalable/apps/firefox.svg"];
    let found =
        find_icon_file("firefox", "48", "Adwaita", &paths(), |p: &str| there.contains(&p));
    assert_eq!(found, Some("/usr/share/icons/hicolor/48x48/apps/firefox.png".to_string()));
    let loose = find_icon_file("firefox", "48", "Adwaita", &paths(), |p: &str| {
        p.ends_with("firefox.xpm")
    });
    assert_eq!(loose, Some("/usr/share/pixmaps/firefox.xpm".to_string()));
    assert_eq!(find_icon_file("firefox", "48", "Adwaita", &paths(), |_p: &str| false), None);
}

#[test]
fn no_file_is_asked_for_after_the_first_that_is_there() {
    let asked = std::cell::Cell::new(0);
    let found = find_icon_file("firefox", "48", "Adwaita", &paths(), |p: &str| {
        asked.set(asked.get() + 1);
        p == "/usr/share/pixmaps/firefox.png"
    });
    assert_eq!(found, Some("/usr/share/pixmaps/firefox.png".to_string()));
    assert_eq!(asked.get(), 2);
}

#[test]
fn the_key_of_a_remembered_icon() {
    assert_eq!(icon_cache_key("firefox", "48"), "icon:firefox:48");
    assert_eq!(icon_cache_key("", ""), "icon::");
}
