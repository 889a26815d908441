use centerpiece::groups::git_projects::{get_git_projects_group, get_project_name, list_item_for, to_list_item};
use centerpiece::groups::windows::{get_windows_group, WindowTree};
use centerpiece::groups::{make_group, make_shell_item};

#[test]
fn project_name_is_the_directory_before_git() {
    assert_eq!(get_project_name(&String::from("/home/u/code/app/.git")), Some(String::from("app")));
    assert_eq!(get_project_name(&String::from("/home/u/code/app")), None);
    assert_eq!(get_project_name(&String::from(".git")), None);
}

#[test]
fn project_item_opens_the_editor() {
    let item = to_list_item(String::from("/home/u/code/app/.git")).expect("a project");
    assert_eq!(item.title, "app");
    assert_eq!(item.actions.len(), 1);
    let action = &item.actions[0];
    assert_eq!(action.keys, vec!["↵"]);
    assert_eq!(action.text, "open");
    assert_eq!(action.command.program, "sh");
    assert_eq!(action.command.args, vec!["-c", "code /home/u/code/app"]);
    assert!(to_list_item(String::from("/nothing/here")).is_none());
}

#[test]
fn item_for_a_known_name() {
    let item = list_item_for(String::from("/x/y/.git"), Some(String::from("y"))).expect("an item");
    assert_eq!(item.actions[0].command.args[1], "code /x/y");
    assert!(list_item_for(String::from("/x/y/.git"), None).is_none());
}

#[test]
fn git_group_is_sorted_without_case_and_deduplicated() {
    let dirs = vec![
        String::from("/a/Zeta/.git"),
        String::from("/b/alpha/.git"),
        String::from("/c/ALPHA/.git"),
        String::from("/d/not-a-repo"),
        String::from("/e/beta/.git"),
    ];
    let group = get_git_projects_group(&dirs);
    assert_eq!(group.name, "Git Repositories");
    assert_eq!(group.icon, "folder");
    let titles: Vec<&str> = group.items.iter().map(|i| i.title.as_str()).collect();
    assert_eq!(titles, vec!["ALPHA", "beta", "Zeta"]);
    assert_eq!(group.items[0].actions[0].command.args[1], "code /c/ALPHA");
}

fn leaf(id: i64, name: Option<&str>, pid: Option<u64>) -> WindowTree {
    WindowTree { id, name: name.map(String::from), pid, nodes: vec![] }
}

#[test]
fn window_items_come_from_named_processes() {
    let tree = WindowTree {
        id: 1,
        name: Some(String::from("root")),
        pid: None,
        nodes: vec![
            leaf(7, Some("Editor"), Some(100)),
            WindowTree {
                id: 2,
                name: None,
                pid: Some(5),
                nodes: vec![leaf(9, Some("browser"), Some(200)), leaf(10, None, Some(300))],
            },
        ],
    };
    let items = tree.get_list_items();
    let titles: Vec<&str> = items.iter().map(|i| i.title.as_str()).collect();
    assert_eq!(titles, vec!["Editor", "browser"]);
    assert_eq!(items[0].actions[0].text, "switch to");
    assert_eq!(items[0].actions[0].command.args, vec!["-c", "swaymsg [con_id=7] focus"]);
    let group = get_windows_group(&tree);
    assert_eq!(group.name, "Windows");
    assert_eq!(group.icon, "LayoutGrid");
    let titles: Vec<&str> = group.items.iter().map(|i| i.title.as_str()).collect();
    assert_eq!(titles, vec!["browser", "Editor"]);
}

#[test]
fn window_without_name_is_called_null() {
    let item = leaf(3, None, None).to_list_item();
    assert_eq!(item.title, "null");
    assert_eq!(item.actions[0].command.args[1], "swaymsg [con_id=3] focus");
}

#[test]
fn group_keeps_one_item_per_title() {
    let items = vec![
        make_shell_item(String::from("b"), "run", String::from("one")),
        make_shell_item(String::from("A"), "run", String::from("two")),
        make_shell_item(String::from("a"), "run", String::from("three")),
    ];
    let group = make_group("G", "icon", items);
    let scripts: Vec<&str> = group.items.iter().map(|i| i.actions[0].command.args[1].as_str()).collect();
    assert_eq!(scripts, vec!["two", "one"]);
}
