use centerpiece::launcher::{launch_plugins, Centerpiece, KeyInput, Line, PluginKind};
use centerpiece::model::{Effect, Entry, Message, Plugin, PluginRequest};
use centerpiece::settings::Settings;

fn entry(id: &str) -> Entry {
    Entry {
        id: id.to_string(),
        title: format!("title {id}"),
        action: String::from("open"),
        meta: String::new(),
        command: None,
    }
}

fn plugin(id: &str, priority: u32, ids: &[&str]) -> Plugin {
    Plugin {
        id: id.to_string(),
        priority,
        title: format!("{id} title"),
        entries: ids.iter().map(|i| entry(i)).collect(),
    }
}

fn no_keys() -> KeyInput {
    KeyInput {
        arrow_up: false,
        arrow_down: false,
        enter: false,
        escape: false,
        ctrl: false,
        j: false,
        k: false,
        p: false,
        n: false,
    }
}

/// Plugins "a" (entries a1, a2), "b" (b1), "c" (c1, c2, c3), registered in
/// an order that differs from their priorities.
fn launcher() -> Centerpiece {
    let mut c = Centerpiece::new();
    c.register_plugin(plugin("b", 5, &["b1"]));
    c.register_plugin(plugin("c", 1, &["c1", "c2", "c3"]));
    c.register_plugin(plugin("a", 9, &["a1", "a2"]));
    c
}

fn ids(c: &Centerpiece) -> Vec<String> {
    c.entries().iter().map(|e| e.id.clone()).collect()
}

#[test]
fn new_launcher_is_empty() {
    let c = Centerpiece::new();
    assert_eq!(c.query, "");
    assert_eq!(c.active_entry_index, 0);
    assert!(c.plugins.is_empty());
    assert_eq!(c.entry_count(), 0);
    assert!(c.active_entry_id().is_none());
}

#[test]
fn register_orders_plugins_by_priority() {
    let c = launcher();
    let order: Vec<&str> = c.plugins.iter().map(|p| p.id.as_str()).collect();
    assert_eq!(order, vec!["a", "b", "c"]);
    assert_eq!(ids(&c), vec!["a1", "a2", "b1", "c1", "c2", "c3"]);
    assert_eq!(c.entry_count(), 6);
}

#[test]
fn registering_asks_the_plugin_for_the_query() {
    let mut c = Centerpiece::new();
    c.query = String::from("fox");
    let out = c.register_plugin(plugin("web", 2, &[]));
    assert_eq!(out.plugin_id, "web");
    assert!(matches!(&out.request, PluginRequest::Search(q) if q == "fox"));
}

#[test]
fn register_keeps_registration_order_for_equal_priority() {
    let mut c = Centerpiece::new();
    c.register_plugin(plugin("first", 3, &["x"]));
    c.register_plugin(plugin("second", 3, &["y"]));
    c.register_plugin(plugin("top", 4, &[]));
    let order: Vec<&str> = c.plugins.iter().map(|p| p.id.as_str()).collect();
    assert_eq!(order, vec!["top", "first", "second"]);
}

#[test]
fn locate_finds_plugin_and_position() {
    let c = launcher();
    assert_eq!(c.locate(0), (0, 0));
    assert_eq!(c.locate(2), (1, 0));
    assert_eq!(c.locate(4), (2, 1));
}

#[test]
fn next_then_previous_comes_back() {
    let mut c = launcher();
    c.active_entry_index = 3;
    c.select_next_entry();
    assert_eq!(c.active_entry_index, 4);
    c.select_previous_entry();
    assert_eq!(c.active_entry_index, 3);
    c.select_previous_entry();
    c.select_next_entry();
    assert_eq!(c.active_entry_index, 3);
}

#[test]
fn selection_wraps_around_both_ways() {
    let mut c = launcher();
    c.select_previous_entry();
    assert_eq!(c.active_entry_index, 5);
    c.select_next_entry();
    assert_eq!(c.active_entry_index, 0);
}

#[test]
fn moving_down_once_per_entry_cycles() {
    let mut c = launcher();
    c.active_entry_index = 2;
    for _ in 0..6 {
        c.select_next_entry();
    }
    assert_eq!(c.active_entry_index, 2);
}

#[test]
fn moves_in_an_empty_list_stay_at_the_top() {
    let mut c = Centerpiece::new();
    c.select_next_entry();
    assert_eq!(c.active_entry_index, 0);
    c.select_previous_entry();
    assert_eq!(c.active_entry_index, 0);
}

#[test]
fn next_plugin_jumps_to_the_next_start() {
    let mut c = launcher();
    c.active_entry_index = 0;
    c.select_next_plugin();
    assert_eq!(c.active_entry_index, 2);
    c.select_next_plugin();
    assert_eq!(c.active_entry_index, 3);
    c.active_entry_index = 4;
    c.select_next_plugin();
    assert_eq!(c.active_entry_index, 4);
}

#[test]
fn previous_plugin_jumps_back() {
    let mut c = launcher();
    c.active_entry_index = 4;
    c.select_previous_plugin();
    assert_eq!(c.active_entry_index, 3);
    c.select_previous_plugin();
    assert_eq!(c.active_entry_index, 2);
    c.active_entry_index = 1;
    c.select_previous_plugin();
    assert_eq!(c.active_entry_index, 0);
    c.select_previous_plugin();
    assert_eq!(c.active_entry_index, 0);
}

#[test]
fn search_sends_the_query_to_every_plugin() {
    let mut c = launcher();
    c.query = String::from("fox");
    c.active_entry_index = 4;
    let out = c.search();
    assert_eq!(c.active_entry_index, 0);
    assert_eq!(out.len(), 3);
    let targets: Vec<&str> = out.iter().map(|o| o.plugin_id.as_str()).collect();
    assert_eq!(targets, vec!["a", "b", "c"]);
    for o in &out {
        assert!(matches!(&o.request, PluginRequest::Search(q) if q == "fox"));
    }
}

#[test]
fn update_replaces_only_the_named_plugin() {
    let mut c = launcher();
    let found = c.update_entries(String::from("b"), vec![entry("n1"), entry("n2")]);
    assert!(found);
    assert_eq!(ids(&c), vec!["a1", "a2", "n1", "n2", "c1", "c2", "c3"]);
    assert_eq!(c.plugins[1].id, "b");
    assert_eq!(c.plugins[1].priority, 5);
    assert_eq!(c.plugins[1].title, "b title");
}

#[test]
fn update_for_an_unknown_plugin_changes_nothing() {
    let mut c = launcher();
    let found = c.update_entries(String::from("zzz"), vec![entry("n1")]);
    assert!(!found);
    assert_eq!(ids(&c), vec!["a1", "a2", "b1", "c1", "c2", "c3"]);
}

#[test]
fn active_entry_id_follows_the_selection() {
    let mut c = launcher();
    c.active_entry_index = 3;
    assert_eq!(c.active_entry_id().map(|s| s.as_str()), Some("c1"));
    c.active_entry_index = 6;
    assert!(c.active_entry_id().is_none());
}

#[test]
fn activation_goes_to_the_plugin_of_the_first_entry_with_the_id() {
    let mut c = Centerpiece::new();
    c.register_plugin(plugin("a", 2, &["same", "x"]));
    c.register_plugin(plugin("b", 1, &["same"]));
    c.active_entry_index = 2;
    let out = c.activate_selected_entry().expect("an entry is selected");
    assert_eq!(out.plugin_id, "a");
    assert!(matches!(&out.request, PluginRequest::Activate(e) if e.id == "same"));
}

#[test]
fn activation_without_entries_sends_nothing() {
    let c = Centerpiece::new();
    assert!(c.activate_selected_entry().is_none());
}

#[test]
fn messages_are_handled_until_exit() {
    let mut c = Centerpiece::new();
    let effects = c.handle_messages(vec![
        Message::RegisterPlugin(plugin("a", 1, &["a1"])),
        Message::UpdateEntries(String::from("nobody"), vec![]),
        Message::Exit,
        Message::RegisterPlugin(plugin("late", 9, &["l1"])),
    ]);
    assert_eq!(c.plugins.len(), 1);
    assert_eq!(effects.len(), 3);
    assert!(matches!(&effects[0], Effect::Send(out) if out.plugin_id == "a"));
    assert!(matches!(&effects[1], Effect::UnknownPlugin(id) if id == "nobody"));
    assert!(matches!(effects[2], Effect::Exit));
}

#[test]
fn single_message_effects() {
    let mut c = Centerpiece::new();
    c.query = String::from("abc");
    let effects = c.handle_message(Message::RegisterPlugin(plugin("a", 1, &["a1"])));
    assert_eq!(effects.len(), 1);
    assert!(matches!(&effects[0], Effect::Send(out)
        if out.plugin_id == "a" && matches!(&out.request, PluginRequest::Search(q) if q == "abc")));
    let effects = c.handle_message(Message::UpdateEntries(String::from("a"), vec![entry("z")]));
    assert!(effects.is_empty());
    assert_eq!(ids(&c), vec!["z"]);
    let effects = c.handle_message(Message::Exit);
    assert!(matches!(effects[0], Effect::Exit));
}

#[test]
fn keys_move_and_activate() {
    let mut c = launcher();
    let mut keys = no_keys();
    keys.arrow_down = true;
    keys.enter = true;
    let effects = c.handle_input(keys);
    assert_eq!(c.active_entry_index, 1);
    assert_eq!(effects.len(), 1);
    assert!(matches!(&effects[0], Effect::Send(out) if out.plugin_id == "a"));

    let mut keys = no_keys();
    keys.ctrl = true;
    keys.n = true;
    let effects = c.handle_input(keys);
    assert!(effects.is_empty());
    assert_eq!(c.active_entry_index, 2);

    let mut keys = no_keys();
    keys.ctrl = true;
    keys.k = true;
    c.handle_input(keys);
    assert_eq!(c.active_entry_index, 1);

    let mut keys = no_keys();
    keys.escape = true;
    let effects = c.handle_input(keys);
    assert!(matches!(effects.last(), Some(Effect::Exit)));
}

#[test]
fn layout_draws_headers_and_dividers() {
    let c = launcher();
    let mut cursor = c.layout_start();
    let mut lines = Vec::new();
    while let Some(step) = c.layout_step(&mut cursor) {
        lines.extend(step);
    }
    assert_eq!(
        lines,
        vec![
            Line::PluginHeader(0),
            Line::Entry(0, true),
            Line::Entry(1, false),
            Line::Divider,
            Line::PluginHeader(1),
            Line::Entry(2, false),
            Line::Divider,
            Line::PluginHeader(2),
            Line::Entry(3, false),
            Line::Entry(4, false),
            Line::Entry(5, false),
        ]
    );
}

#[test]
fn layout_inside_a_plugin_shows_the_entry_above() {
    let mut c = launcher();
    c.active_entry_index = 4;
    let mut cursor = c.layout_start();
    let first = c.layout_step(&mut cursor).expect("a line");
    assert_eq!(first, vec![Line::Entry(3, false), Line::Entry(4, true)]);
    assert_eq!(c.plugin_starting_at(3), Some(2));
    assert_eq!(c.plugin_starting_at(4), None);
}

#[test]
fn every_plugin_but_gitmoji_launches_by_default() {
    let settings = Settings::default();
    let kinds = launch_plugins(&settings.plugin);
    assert_eq!(kinds.len(), 15);
    assert_eq!(kinds[0], PluginKind::Applications);
    assert_eq!(kinds[14], PluginKind::SwayWindows);
    assert!(!kinds.contains(&PluginKind::Gitmoji));
}

#[test]
fn disabled_plugins_do_not_launch() {
    let mut settings = Settings::default();
    settings.plugin.applications.enable = false;
    settings.plugin.wifi.enable = false;
    let kinds = launch_plugins(&settings.plugin);
    assert_eq!(kinds.len(), 13);
    assert_eq!(kinds[0], PluginKind::BraveBookmarks);
    assert!(!kinds.contains(&PluginKind::Wifi));
}
