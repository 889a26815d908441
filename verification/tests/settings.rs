use centerpiece::settings::{default_commands, default_false, default_true, hexcolor, CliArgs, Rgba, Settings};

#[test]
fn defaults_of_serde_fields() {
    assert!(default_true());
    assert!(!default_false());
}

#[test]
fn default_commands_open_an_editor_and_a_terminal() {
    let commands = default_commands();
    assert_eq!(
        commands,
        vec![
            vec!["alacritty", "--command", "nvim", "$GIT_DIRECTORY"],
            vec!["alacritty", "--working-directory", "$GIT_DIRECTORY"],
        ]
    );
}

#[test]
fn default_settings() {
    let s = Settings::default();
    assert!(s.plugin.applications.enable);
    assert!(!s.plugin.gitmoji.enable);
    assert!(s.plugin.git_repositories.zoxide);
    assert_eq!(s.color.text, "#ffffff");
    assert_eq!(s.color.background, "#000000");
    assert_eq!(s.color.surface, "#ffffff22");
}

#[test]
fn settings_are_loaded_once() {
    let mut slot: Option<Settings> = None;
    let mut loads = 0;
    {
        let s = Settings::get_or_init(&mut slot, || {
            loads += 1;
            let mut s = Settings::default();
            s.color.text = String::from("#123456");
            s
        });
        assert_eq!(s.color.text, "#123456");
    }
    let s = Settings::get_or_init(&mut slot, || Settings::default());
    assert_eq!(s.color.text, "#123456");
    assert_eq!(loads, 1);
}

#[test]
fn version_with_and_without_git_details() {
    assert_eq!(CliArgs::version("1.2.3", Some("2024-01-02"), Some("abc123")), "1.2.3 - 2024-01-02 - abc123");
    assert_eq!(CliArgs::version("1.2.3", None, Some("abc123")), "1.2.3 - abc123");
    assert_eq!(CliArgs::version("1.2.3", None, None), "1.2.3");
}

#[test]
fn config_path_prefers_the_argument() {
    let given = CliArgs { config: Some(String::from("/etc/c.yml")) };
    assert_eq!(given.config_path(String::from("/home/u/.config/centerpiece/config.yml")), "/etc/c.yml");
    let none = CliArgs { config: None };
    assert_eq!(none.config_path(String::from("/default.yml")), "/default.yml");
}

#[test]
fn hex_colors() {
    assert_eq!(hexcolor("#ffffff22"), Some(Rgba { r: 255, g: 255, b: 255, a: 0x22 }));
    assert_eq!(hexcolor("#102030"), Some(Rgba { r: 0x10, g: 0x20, b: 0x30, a: 255 }));
    assert_eq!(hexcolor("#fff"), Some(Rgba { r: 255, g: 255, b: 255, a: 255 }));
    assert_eq!(hexcolor("#0FFF"), Some(Rgba { r: 0, g: 255, b: 255, a: 255 }));
    assert_eq!(hexcolor("#F0FFFF80"), Some(Rgba { r: 0xF0, g: 0xFF, b: 0xFF, a: 0x80 }));
    assert_eq!(hexcolor("#12345"), None);
    assert_eq!(hexcolor("white"), None);
    assert_eq!(hexcolor(""), None);
}
