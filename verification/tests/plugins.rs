use centerpiece::model::{command_activation, Activation, ActivationError, Entry, Message};
use centerpiece::plugin::applications::{is_visible, name, terminal_command, to_entry, ApplicationsPlugin, DesktopEntryInfo};
use centerpiece::plugin::brave::bookmarks::BookmarksPlugin as BraveBookmarksPlugin;
use centerpiece::plugin::brave::history::HistoryPlugin;
use centerpiece::plugin::brave::progressive_web_apps::ProgressiveWebAppsPlugin;
use centerpiece::plugin::brave::utils::{Bookmark, BookmarksRoot, FolderBookark, UrlBookmark};
use centerpiece::plugin::clock::ClockPlugin;
use centerpiece::plugin::firefox::bookmarks::BookmarksPlugin as FirefoxBookmarksPlugin;
use centerpiece::plugin::firefox::tabs::{parse_json, session_is_complete, session_of, session_payload, JsonValue, TabsPlugin};
use centerpiece::plugin::firefox::utils::{profile_path, NoProfile, Section};
use centerpiece::plugin::git_repositories::{score_and_path, score_lines, GitRepositoriesPlugin};
use centerpiece::plugin::gitmoji::{gitmojis, GitmojiPlugin};
use centerpiece::plugin::mpd::playlist::MpdPlaylistPlugin;
use centerpiece::plugin::mpd::songs::MpdSongPlugin;
use centerpiece::plugin::niri_windows::{NiriWindow, NiriWindowsPlugin};
use centerpiece::plugin::sway_windows::{focus_window, NodeType, SwayWindowsPlugin, WindowNode};
use centerpiece::plugin::system::SystemPlugin;
use centerpiece::plugin::windows::WindowsPlugin;
use centerpiece::settings::Settings;

fn spawned(a: &Activation) -> Vec<String> {
    match a {
        Activation::Spawn(words) => words.clone(),
        _ => panic!("not a spawn"),
    }
}

fn ids(entries: &[Entry]) -> Vec<&str> {
    entries.iter().map(|e| e.id.as_str()).collect()
}

fn titles(entries: &[Entry]) -> Vec<&str> {
    entries.iter().map(|e| e.title.as_str()).collect()
}

fn app(appid: &str, name: &str) -> DesktopEntryInfo {
    DesktopEntryInfo {
        appid: appid.to_string(),
        name: Some(name.to_string()),
        type_: Some(String::from("Application")),
        hidden: None,
        no_display: false,
        exec_line: Some(format!("{appid} %U")),
        not_show_in: None,
        only_show_in: None,
        categories: None,
        terminal: false,
        keywords: None,
    }
}

#[test]
fn system_entries_and_commands() {
    let mut p = SystemPlugin::new();
    p.update_entries();
    assert_eq!(ids(&p.entries), vec!["lock", "restart", "shutdown", "sleep"]);
    assert_eq!(p.entries[3].meta, "System Hibernate Suspend");
    let a = p.activate(p.entries[1].copy()).expect("a command");
    assert_eq!(spawned(&a), vec!["reboot"]);
}

#[test]
fn missing_command_is_an_error() {
    let e = Entry {
        id: String::from("x"),
        title: String::new(),
        action: String::new(),
        meta: String::new(),
        command: None,
    };
    match command_activation(e) {
        Err(ActivationError::MissingCommand(id)) => assert_eq!(id, "x"),
        _ => panic!("expected an error"),
    }
}

#[test]
fn plugin_descriptions() {
    let p = SystemPlugin::new().plugin();
    assert_eq!(p.id, SystemPlugin::id());
    assert_eq!(p.priority, SystemPlugin::priority());
    assert_eq!(p.title, SystemPlugin::title());
    assert_eq!(ClockPlugin::update_timeout(), Some(1));
}

#[test]
fn plugin_search_answers_with_its_id() {
    let mut p = SystemPlugin::new();
    p.update_entries();
    match p.search(&String::from("shut")) {
        Message::UpdateEntries(id, found) => {
            assert_eq!(id, SystemPlugin::id());
            assert_eq!(ids(&found), vec!["shutdown"]);
        },
        _ => panic!("expected entries"),
    }
}

#[test]
fn gitmoji_table_and_copy() {
    let table = gitmojis();
    assert_eq!(table.len(), 73);
    let mut p = GitmojiPlugin::new();
    p.update_entries();
    assert_eq!(p.entries.len(), 73);
    let a = p.activate(p.entries[0].copy());
    let words = spawned(&a);
    assert_eq!(words[0], "wl-copy");
    assert_eq!(words[1], p.entries[0].id);
}

#[test]
fn clock_entries() {
    let entries = ClockPlugin::entries_for(String::from("14:03:59"), String::from("Monday,  5. May 2025"));
    assert_eq!(ids(&entries), vec!["time-entry", "date"]);
    assert_eq!(titles(&entries), vec!["14:03:59", "Monday,  5. May 2025"]);
    let mut p = ClockPlugin::new();
    assert!(p.update_entries().is_ok());
    assert_eq!(ids(&p.entries), vec!["time-entry", "date"]);
    let time = &p.entries[0].title;
    assert_eq!(time.len(), 8);
    assert_eq!(time.as_bytes()[2], b':');
    assert!(p.entries[1].title.contains(", "));
}

#[test]
fn clock_shows_the_given_instant() {
    let mut p = ClockPlugin::new();
    assert!(p.entries_at((0, 0, 0)).is_ok());
    assert_eq!(titles(&p.entries), vec!["00:00:00", "Thursday,  1. January 1970"]);
    assert!(p.entries_at((1_700_000_000, 0, 3600)).is_ok());
    assert_eq!(titles(&p.entries), vec!["23:13:20", "Tuesday, 14. November 2023"]);
    assert!(p.entries_at((0, 0, 100_000)).is_err());
    assert!(p.entries.is_empty());
}

fn url(name: &str, url: &str) -> Bookmark {
    Bookmark::Url(UrlBookmark { name: name.to_string(), url: url.to_string() })
}

fn folder(name: &str, children: Vec<Bookmark>) -> Bookmark {
    Bookmark::Folder(FolderBookark { name: name.to_string(), children })
}

fn bookmark_tree() -> Bookmark {
    Bookmark::from_root(BookmarksRoot {
        bookmark_bar: folder(
            "Bar",
            vec![
                url("Zed", "https://zed.dev"),
                folder("Progressive Web Apps", vec![url("Mail", "https://mail"), url("Chat", "https://chat")]),
            ],
        ),
        other: folder("Other", vec![url("Docs", "https://docs")]),
        synced: folder("Synced", vec![]),
    })
}

#[test]
fn bookmarks_leave_out_web_apps() {
    let mut p = BraveBookmarksPlugin::new();
    p.update_entries(&bookmark_tree());
    assert_eq!(ids(&p.entries), vec!["https://zed.dev", "https://docs"]);
    assert_eq!(p.entries[0].title, "Zed");
    assert_eq!(spawned(&p.activate(p.entries[0].copy())), vec!["brave", "https://zed.dev"]);
}

#[test]
fn web_apps_are_found_by_folder_name() {
    let tree = bookmark_tree();
    let found = tree.find_bookmarks_folder_recursive(&String::from("Progressive Web Apps"));
    assert!(matches!(found, Some(Bookmark::Folder(f)) if f.name == "Progressive Web Apps"));
    assert!(tree.find_bookmarks_folder_recursive(&String::from("Nope")).is_none());
    let mut p = ProgressiveWebAppsPlugin::new();
    assert!(p.update_entries(&tree).is_ok());
    assert_eq!(titles(&p.entries), vec!["Chat", "Mail"]);
    assert_eq!(spawned(&p.activate(p.entries[0].copy())), vec!["brave", "--app=https://chat"]);
}

#[test]
fn web_apps_without_their_folder_fail() {
    let mut p = ProgressiveWebAppsPlugin::new();
    assert!(p.update_entries(&folder("Bar", vec![url("a", "b")])).is_err());
    assert!(p.entries.is_empty());
}

#[test]
fn excluded_folders_hide_their_links() {
    let tree = bookmark_tree();
    let links = tree.get_bookmarks_recursive(&vec![String::from("Other")]);
    let names: Vec<&str> = links.iter().map(|l| l.name.as_str()).collect();
    assert_eq!(names, vec!["Zed", "Mail", "Chat"]);
}

#[test]
fn history_rows_become_entries() {
    let mut p = HistoryPlugin::new();
    p.update_entries(vec![(String::from("Rust"), String::from("https://rust-lang.org"))]);
    assert_eq!(ids(&p.entries), vec!["https://rust-lang.org"]);
    assert_eq!(p.entries[0].meta, "History");
    let mut f = FirefoxBookmarksPlugin::new();
    f.update_entries(vec![(String::from("Docs"), String::from("https://docs.rs"))]);
    assert_eq!(f.entries[0].meta, "Bookmarks");
    assert_eq!(spawned(&f.activate(f.entries[0].copy())), vec!["firefox", "https://docs.rs"]);
}

fn obj(members: Vec<(&str, JsonValue)>) -> JsonValue {
    JsonValue::Object(members.into_iter().map(|(k, v)| (k.to_string(), v)).collect())
}

fn text(s: &str) -> JsonValue {
    JsonValue::Text(s.to_string())
}

#[test]
fn tabs_show_the_last_history_entry() {
    let tab1 = obj(vec![(
        "entries",
        JsonValue::Array(vec![
            obj(vec![("url", text("https://old")), ("title", text("Old"))]),
            obj(vec![("url", text("https://new")), ("title", text("New"))]),
        ]),
    )]);
    let tab2 = obj(vec![("entries", JsonValue::Array(vec![obj(vec![("url", text("https://x"))])]))]);
    let session = obj(vec![("windows", JsonValue::Array(vec![obj(vec![("tabs", JsonValue::Array(vec![tab1, tab2]))])]))]);
    assert!(session_is_complete(&session));
    let mut p = TabsPlugin::new();
    p.update_entries(&session);
    assert_eq!(ids(&p.entries), vec!["https://new", "https://x"]);
    assert_eq!(titles(&p.entries), vec!["New", "Tab without Title"]);
}

#[test]
fn tab_without_history_makes_the_session_incomplete() {
    let tab = obj(vec![("entries", JsonValue::Array(vec![]))]);
    let session = obj(vec![("windows", JsonValue::Array(vec![obj(vec![("tabs", JsonValue::Array(vec![tab]))])]))]);
    assert!(!session_is_complete(&session));
}

#[test]
fn session_file_is_decompressed_after_its_header() {
    let json = b"{\"windows\":[]}";
    let mut raw = b"mozLz40\0".to_vec();
    raw.extend(lz4_flex::block::compress_prepend_size(json));
    assert_eq!(session_payload(&raw), Some(json.to_vec()));
    assert_eq!(session_payload(b"mozLz40\0\xff"), None);
}

#[test]
fn json_is_read_member_for_member() {
    let v = parse_json(b"[null, true, 2.5, \"t\", {\"a\": []}]").expect("JSON text");
    let expected = JsonValue::Array(vec![
        JsonValue::Null,
        JsonValue::Bool(true),
        JsonValue::Number(String::from("2.5")),
        text("t"),
        obj(vec![("a", JsonValue::Array(vec![]))]),
    ]);
    assert_eq!(format!("{v:?}"), format!("{expected:?}"));
    assert!(parse_json(b"{").is_none());
}

#[test]
fn session_file_is_read_as_json() {
    let json = br#"{"windows":[{"tabs":[{"entries":[{"url":"https://a","title":"A"}]}]}]}"#;
    let mut raw = b"mozLz40\0".to_vec();
    raw.extend(lz4_flex::block::compress_prepend_size(json));
    let session = session_of(&raw).expect("a session");
    assert!(session_is_complete(&session));
    let mut p = TabsPlugin::new();
    p.update_entries(&session);
    assert_eq!(ids(&p.entries), vec!["https://a"]);
    assert_eq!(titles(&p.entries), vec!["A"]);
    assert!(session_of(b"mozLz40\0\xff").is_none());
    let mut not_json = b"mozLz40\0".to_vec();
    not_json.extend(lz4_flex::block::compress_prepend_size(b"windows"));
    assert!(session_of(&not_json).is_none());
}

#[test]
fn desktop_entry_files_are_decoded_and_listed() {
    let file = |path: &str, content: &str| (path.to_string(), content.to_string());
    let files = vec![
        file("/usr/share/applications/foo.desktop", "[Desktop Entry]\nType=Application\nName=Foo\nName[de]=Fuh\nExec=foo %U\nKeywords=x;y;\n"),
        file("/tmp/notes.txt", "[Desktop Entry]\nType=Application\nName=Notes\nExec=notes\n"),
        file("/usr/share/applications/bar.desktop", "[Desktop Entry]\nType=Application\nName=Bar\nExec=bar\n"),
        file("/usr/share/applications/gone.desktop", "[Desktop Entry]\nType=Application\nName=Gone\nExec=gone\nHidden=true\n"),
    ];
    let mut p = ApplicationsPlugin::new();
    p.update_entries_from_files(&files, "de_DE", "sway");
    assert_eq!(ids(&p.entries), vec!["bar", "foo"]);
    assert_eq!(titles(&p.entries), vec!["Bar", "Fuh"]);
    assert_eq!(p.entries[1].meta, "x y  Applications Apps");
    assert_eq!(p.entries[1].command, Some(vec![String::from("foo")]));
}

fn profile(name: &str, relative: &str, path: &str, default: Option<&str>) -> Section {
    Section::Profile {
        name: name.to_string(),
        is_relative: relative.to_string(),
        path: path.to_string(),
        default: default.map(String::from),
    }
}

#[test]
fn default_profile_is_preferred() {
    let sections = vec![
        Section::General { start_with_last_profile: String::from("1"), version: None },
        profile("first", "1", "abc.first", None),
        profile("main", "0", "/data/main", Some("1")),
    ];
    assert_eq!(profile_path("/home/u", &sections), Ok(String::from("/data/main")));
    let sections = vec![profile("first", "1", "abc.first", None)];
    assert_eq!(profile_path("/home/u", &sections), Ok(String::from("/home/u/.mozilla/firefox/abc.first")));
    assert_eq!(profile_path("/home/u", &vec![]), Err(NoProfile));
}

#[test]
fn git_repositories_show_home_as_tilde() {
    let mut p = GitRepositoriesPlugin::new(Settings::default());
    assert!(p.use_zoxide());
    p.update_entries(vec![String::from("/home/u/zeta"), String::from("/home/u/alpha")], "/home/u");
    assert_eq!(titles(&p.entries), vec!["~/alpha", "~/zeta"]);
    assert_eq!(ids(&p.entries), vec!["/home/u/alpha", "/home/u/zeta"]);
}

#[test]
fn git_repository_commands_fill_in_the_directory() {
    let mut settings = Settings::default();
    settings.plugin.git_repositories.commands = vec![
        vec![String::from("code"), String::from("$GIT_DIRECTORY")],
        vec![String::from("echo"), String::from("$GIT_DIRECTORY_NAME")],
    ];
    let p = GitRepositoriesPlugin::new(settings);
    let e = Entry {
        id: String::from("/home/u/proj"),
        title: String::new(),
        action: String::new(),
        meta: String::new(),
        command: None,
    };
    let acts = p.activate(&e).expect("commands");
    assert_eq!(spawned(&acts[0]), vec!["code", "/home/u/proj"]);
    assert_eq!(spawned(&acts[1]), vec!["echo", "proj"]);
    let root = Entry { id: String::from("/"), ..e };
    assert!(p.activate(&root).is_none());
}

#[test]
fn zoxide_lines_split_at_the_first_space() {
    assert_eq!(
        score_and_path("  12.5 /home/u/my dir \n"),
        Some((String::from("12.5"), String::from("/home/u/my dir")))
    );
    assert_eq!(score_and_path("12.5"), None);
    let all = score_lines("1 /a\n  2.5 /b\n").expect("all lines split");
    assert_eq!(all, vec![(String::from("1"), String::from("/a")), (String::from("2.5"), String::from("/b"))]);
    assert!(score_lines("1 /a\nbroken\n").is_none());
}

#[test]
fn mpd_entries() {
    let mut songs = MpdSongPlugin::new();
    songs.update_entries(vec![String::from("a/b.flac")]);
    assert_eq!(songs.entries[0].meta, "mpd music song");
    let a = songs.activate(songs.entries[0].copy()).expect("a command");
    assert_eq!(spawned(&a), vec!["mpc", "play", "a/b.flac"]);
    let mut lists = MpdPlaylistPlugin::new();
    lists.update_entries(vec![String::from("chill")]);
    assert!(matches!(lists.activate(lists.entries[0].copy()), Activation::MpdLoadPlaylist(n) if n == "chill"));
}

#[test]
fn niri_windows_are_listed_and_focused() {
    let mut p = NiriWindowsPlugin::new();
    p.update_entries(vec![
        NiriWindow { id: 12, title: Some(String::from("zsh")), app_id: Some(String::from("kitty")) },
        NiriWindow { id: 3, title: Some(String::new()), app_id: Some(String::from("firefox")) },
        NiriWindow { id: 5, title: None, app_id: None },
    ]);
    assert_eq!(titles(&p.entries), vec!["-- window name missing --", "firefox", "zsh"]);
    assert_eq!(ids(&p.entries), vec!["5", "3", "12"]);
    for e in &p.entries {
        let id: u64 = e.id.parse().unwrap();
        assert!(matches!(p.activate(e), Ok(Activation::NiriFocus(n)) if n == id));
    }
    let bad = Entry { id: String::from("x1"), ..p.entries[0].copy() };
    assert!(matches!(p.activate(&bad), Err(ActivationError::InvalidWindowId(s)) if s == "x1"));
}

fn node(id: i64, name: Option<&str>, app_id: Option<&str>, node_type: NodeType, nodes: Vec<WindowNode>) -> WindowNode {
    WindowNode { id, name: name.map(String::from), app_id: app_id.map(String::from), node_type, nodes }
}

fn sway_tree() -> WindowNode {
    node(
        1,
        Some("root"),
        None,
        NodeType::Root,
        vec![node(
            2,
            Some("HDMI"),
            None,
            NodeType::Output,
            vec![node(
                3,
                Some("1"),
                None,
                NodeType::Workspace,
                vec![
                    node(10, Some("vim"), Some("kitty"), NodeType::Con, vec![]),
                    node(11, Some(""), Some("firefox"), NodeType::Con, vec![]),
                    node(12, None, None, NodeType::FloatingCon, vec![]),
                ],
            )],
        )],
    )
}

#[test]
fn sway_windows_are_the_container_leaves() {
    let tree = sway_tree();
    let mut p = SwayWindowsPlugin::new();
    p.update_entries(&tree);
    assert_eq!(titles(&p.entries), vec!["firefox", "vim"]);
    assert_eq!(ids(&p.entries), vec!["11", "10"]);
    assert!(matches!(p.activate(&p.entries[0]), Activation::SwayCommand(c) if c == "[con_id=11] focus"));
    assert!(matches!(focus_window(&p.entries[1]), Activation::SwayCommand(c) if c == "[con_id=10] focus"));
    let w = WindowsPlugin::new(&tree);
    assert_eq!(w.entries.len(), 2);
}

#[test]
fn applications_visibility() {
    let a = app("org.gnome.Files", "Files");
    assert!(is_visible(&a, "gnome"));
    let mut hidden = app("x", "X");
    hidden.hidden = Some(String::from("true"));
    assert!(!is_visible(&hidden, "gnome"));
    let mut not_here = app("x", "X");
    not_here.not_show_in = Some(String::from("KDE;GNOME"));
    assert!(!is_visible(&not_here, "gnome"));
    assert!(is_visible(&not_here, "sway"));
    let mut no_exec = app("x", "X");
    no_exec.exec_line = Some(String::from("FALSE"));
    assert!(!is_visible(&no_exec, "sway"));
    let mut only_gnome = app("x", "X");
    only_gnome.only_show_in = Some(String::from("GNOME;"));
    assert!(!is_visible(&only_gnome, "sway"));
    assert!(is_visible(&only_gnome, "gnome"));
    let mut link = app("x", "X");
    link.type_ = Some(String::from("Link"));
    assert!(!is_visible(&link, "sway"));
}

#[test]
fn applications_entries_and_terminals() {
    let mut term = app("kitty", "kitty");
    term.categories = Some(String::from("System;TerminalEmulator;"));
    term.exec_line = Some(String::from("kitty --single"));
    assert_eq!(terminal_command(&term), Some(String::from("kitty")));
    assert_eq!(terminal_command(&app("x", "X")), None);
    let mut htop = app("htop", "Htop");
    htop.terminal = true;
    htop.keywords = Some(String::from("process;monitor"));
    let e = to_entry(&htop, Some(String::from("kitty")), "sway").expect("an entry");
    assert_eq!(e.command, Some(vec![String::from("kitty"), String::from("-e"), String::from("htop")]));
    assert_eq!(e.meta, "process monitor Applications Apps");
    assert!(to_entry(&htop, None, "sway").is_none());
    assert_eq!(name(&app("x", "Name")), "Name");
}

#[test]
fn applications_are_sorted_and_deduplicated_by_name() {
    let mut p = ApplicationsPlugin::new();
    p.update_entries(vec![app("b", "Beta"), app("a1", "Alpha"), app("a2", "Alpha")], "sway");
    assert_eq!(ids(&p.entries), vec!["a1", "b"]);
    let a = p.activate(p.entries[0].copy()).expect("a command");
    assert_eq!(spawned(&a), vec!["a1"]);
}
