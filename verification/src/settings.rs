use vstd::prelude::*;
use crate::model::strings_view;

verus! {
/// The default of settings flags that are on unless switched off.
pub fn default_true() -> (r: bool)
    ensures
        r,
{
    true
}

/// The default of settings flags that are off unless switched on.
pub fn default_false() -> (r: bool)
    ensures
        !r,
{
    false
}

/// The words of one command as character sequences.
pub open spec fn command_view(c: Vec<String>) -> Seq<Seq<char>> {
    strings_view(c@)
}

/// The commands, each as a sequence of words.
pub open spec fn commands_view(cs: Seq<Vec<String>>) -> Seq<Seq<Seq<char>>> {
    cs.map_values(|c: Vec<String>| command_view(c))
}

/// The commands that open a git repository by default: an editor in a
/// terminal, and a terminal in the repository.
pub open spec fn default_commands_view() -> Seq<Seq<Seq<char>>> {
    seq![
        seq!["alacritty"@, "--command"@, "nvim"@, "$GIT_DIRECTORY"@],
        seq!["alacritty"@, "--working-directory"@, "$GIT_DIRECTORY"@],
    ]
}

/// The default commands for opening a git repository.
pub fn default_commands() -> (r: Vec<Vec<String>>)
    ensures
        commands_view(r@) == default_commands_view(),
{
    let mut editor: Vec<String> = Vec::new();
    editor.push(String::from_str("alacritty"));
    editor.push(String::from_str("--command"));
    editor.push(String::from_str("nvim"));
    editor.push(String::from_str("$GIT_DIRECTORY"));
    let mut terminal: Vec<String> = Vec::new();
    terminal.push(String::from_str("alacritty"));
    terminal.push(String::from_str("--working-directory"));
    terminal.push(String::from_str("$GIT_DIRECTORY"));
    let mut r: Vec<Vec<String>> = Vec::new();
    r.push(editor);
    r.push(terminal);
    assert(command_view(r@[0]) =~= default_commands_view()[0]);
    assert(command_view(r@[1]) =~= default_commands_view()[1]);
    assert(commands_view(r@) =~= default_commands_view());
    r
}

/// Whether the plugin is switched on.
#[derive(Debug)]
pub struct ApplicationsPluginSettings {
    pub enable: bool,
}

impl Default for ApplicationsPluginSettings {
    fn default() -> (r: Self)
        ensures
            r.enable,
    {
        Self { enable: true }
    }
}

/// Whether the plugin is switched on.
#[derive(Debug)]
pub struct BraveBookmarksPluginSettings {
    pub enable: bool,
}

impl Default for BraveBookmarksPluginSettings {
    fn default() -> (r: Self)
        ensures
            r.enable,
    {
        Self { enable: true }
    }
}

/// Whether the plugin is switched on.
#[derive(Debug)]
pub struct BraveHistoryPluginSettings {
    pub enable: bool,
}

impl Default for BraveHistoryPluginSettings {
    fn default() -> (r: Self)
        ensures
            r.enable,
    {
        Self { enable: true }
    }
}

/// Whether the plugin is switched on.
#[derive(Debug)]
pub struct BraveProgressiveWebAppsSettings {
    pub enable: bool,
}

impl Default for BraveProgressiveWebAppsSettings {
    fn default() -> (r: Self)
        ensures
            r.enable,
    {
        Self { enable: true }
    }
}

/// Whether the plugin is switched on.
#[derive(Debug)]
pub struct ClockPluginSettings {
    pub enable: bool,
}

impl Default for ClockPluginSettings {
    fn default() -> (r: Self)
        ensures
            r.enable,
    {
        Self { enable: true }
    }
}

/// Whether the plugin is switched on.
#[derive(Debug)]
pub struct FirefoxBookmarksPluginSettings {
    pub enable: bool,
}

impl Default for FirefoxBookmarksPluginSettings {
    fn default() -> (r: Self)
        ensures
            r.enable,
    {
        Self { enable: true }
    }
}

/// Whether the plugin is switched on.
#[derive(Debug)]
pub struct FirefoxHistoryPluginSettings {
    pub enable: bool,
}

impl Default for FirefoxHistoryPluginSettings {
    fn default() -> (r: Self)
        ensures
            r.enable,
    {
        Self { enable: true }
    }
}

/// Settings of the git repositories plugin.
#[derive(Debug)]
pub struct GitRepositoriesPluginSettings {
    pub enable: bool,
    pub zoxide: bool,
    pub commands: Vec<Vec<String>>,
}

impl Default for GitRepositoriesPluginSettings {
    fn default() -> (r: Self)
        ensures
            r.enable,
            r.zoxide,
            commands_view(r.commands@) == default_commands_view(),
    {
        Self { enable: default_true(), zoxide: default_true(), commands: default_commands() }
    }
}

/// Whether the plugin is switched on.
#[derive(Debug)]
pub struct GitmojiPluginSettings {
    pub enable: bool,
}

impl Default for GitmojiPluginSettings {
    fn default() -> (r: Self)
        ensures
            !r.enable,
    {
        Self { enable: false }
    }
}

/// Whether the plugin is switched on.
#[derive(Debug)]
pub struct ResourceMonitorBatteryPluginSettings {
    pub enable: bool,
}

impl Default for ResourceMonitorBatteryPluginSettings {
    fn default() -> (r: Self)
        ensures
            r.enable,
    {
        Self { enable: true }
    }
}

/// Whether the plugin is switched on.
#[derive(Debug)]
pub struct ResourceMonitorCpuPluginSettings {
    pub enable: bool,
}

impl Default for ResourceMonitorCpuPluginSettings {
    fn default() -> (r: Self)
        ensures
            r.enable,
    {
        Self { enable: true }
    }
}

/// Whether the plugin is switched on.
#[derive(Debug)]
pub struct ResourceMonitorDisksSettings {
    pub enable: bool,
}

impl Default for ResourceMonitorDisksSettings {
    fn default() -> (r: Self)
        ensures
            r.enable,
    {
        Self { enable: true }
    }
}

/// Whether the plugin is switched on.
#[derive(Debug)]
pub struct ResourceMonitorMemoryPluginSettings {
    pub enable: bool,
}

impl Default for ResourceMonitorMemoryPluginSettings {
    fn default() -> (r: Self)
        ensures
            r.enable,
    {
        Self { enable: true }
    }
}

/// Whether the plugin is switched on.
#[derive(Debug)]
pub struct SwayWindowsPluginSettings {
    pub enable: bool,
}

impl Default for SwayWindowsPluginSettings {
    fn default() -> (r: Self)
        ensures
            r.enable,
    {
        Self { enable: true }
    }
}

/// Whether the plugin is switched on.
#[derive(Debug)]
pub struct SystemPluginSettings {
    pub enable: bool,
}

impl Default for SystemPluginSettings {
    fn default() -> (r: Self)
        ensures
            r.enable,
    {
        Self { enable: true }
    }
}

/// Whether the plugin is switched on.
#[derive(Debug)]
pub struct WifiPluginSettings {
    pub enable: bool,
}

impl Default for WifiPluginSettings {
    fn default() -> (r: Self)
        ensures
            r.enable,
    {
        Self { enable: true }
    }
}

/// The colours of the launcher window, as hex codes.
#[derive(Debug)]
pub struct ColorSettings {
    pub text: String,
    pub background: String,
    pub surface: String,
}

impl Default for ColorSettings {
    fn default() -> (r: Self)
        ensures
            r.text@ == "#ffffff"@,
            r.background@ == "#000000"@,
            r.surface@ == "#ffffff22"@,
    {
        Self {
            text: String::from_str("#ffffff"),
            background: String::from_str("#000000"),
            surface: String::from_str("#ffffff22"),
        }
    }
}

/// The settings of every plugin.
#[derive(Debug)]
pub struct PluginSettings {
    pub applications: ApplicationsPluginSettings,
    pub brave_bookmarks: BraveBookmarksPluginSettings,
    pub brave_history: BraveHistoryPluginSettings,
    pub brave_progressive_web_apps: BraveProgressiveWebAppsSettings,
    pub clock: ClockPluginSettings,
    pub firefox_bookmarks: FirefoxBookmarksPluginSettings,
    pub firefox_history: FirefoxHistoryPluginSettings,
    pub git_repositories: GitRepositoriesPluginSettings,
    pub gitmoji: GitmojiPluginSettings,
    pub resource_monitor_battery: ResourceMonitorBatteryPluginSettings,
    pub resource_monitor_cpu: ResourceMonitorCpuPluginSettings,
    pub resource_monitor_disks: ResourceMonitorDisksSettings,
    pub resource_monitor_memory: ResourceMonitorMemoryPluginSettings,
    pub sway_windows: SwayWindowsPluginSettings,
    pub system: SystemPluginSettings,
    pub wifi: WifiPluginSettings,
}

/// Plugin settings with every plugin at its default.
pub open spec fn plugin_defaults(p: PluginSettings) -> bool {
    &&& p.applications.enable
    &&& p.brave_bookmarks.enable
    &&& p.brave_history.enable
    &&& p.brave_progressive_web_apps.enable
    &&& p.clock.enable
    &&& p.firefox_bookmarks.enable
    &&& p.firefox_history.enable
    &&& p.git_repositories.enable && p.git_repositories.zoxide && commands_view(p.git_repositories.commands@) == default_commands_view()
    &&& !p.gitmoji.enable
    &&& p.resource_monitor_battery.enable
    &&& p.resource_monitor_cpu.enable
    &&& p.resource_monitor_disks.enable
    &&& p.resource_monitor_memory.enable
    &&& p.sway_windows.enable
    &&& p.system.enable
    &&& p.wifi.enable
}

impl Default for PluginSettings {
    fn default() -> (r: Self)
        ensures
            plugin_defaults(r),
    {
        Self {
            applications: ApplicationsPluginSettings::default(),
            brave_bookmarks: BraveBookmarksPluginSettings::default(),
            brave_history: BraveHistoryPluginSettings::default(),
            brave_progressive_web_apps: BraveProgressiveWebAppsSettings::default(),
            clock: ClockPluginSettings::default(),
            firefox_bookmarks: FirefoxBookmarksPluginSettings::default(),
            firefox_history: FirefoxHistoryPluginSettings::default(),
            git_repositories: GitRepositoriesPluginSettings::default(),
            gitmoji: GitmojiPluginSettings::default(),
            resource_monitor_battery: ResourceMonitorBatteryPluginSettings::default(),
            resource_monitor_cpu: ResourceMonitorCpuPluginSettings::default(),
            resource_monitor_disks: ResourceMonitorDisksSettings::default(),
            resource_monitor_memory: ResourceMonitorMemoryPluginSettings::default(),
            sway_windows: SwayWindowsPluginSettings::default(),
            system: SystemPluginSettings::default(),
            wifi: WifiPluginSettings::default(),
        }
    }
}

/// All settings of the launcher.
#[derive(Debug)]
pub struct Settings {
    pub plugin: PluginSettings,
    pub color: ColorSettings,
}

impl Default for Settings {
    fn default() -> (r: Self)
        ensures
            plugin_defaults(r.plugin),
            r.color.text@ == "#ffffff"@,
            r.color.background@ == "#000000"@,
            r.color.surface@ == "#ffffff22"@,
    {
        Self { plugin: PluginSettings::default(), color: ColorSettings::default() }
    }
}

impl Settings {
    /// The settings held in `slot`, loading them with `load` on first use;
    /// later uses get the same settings and do not load again.
    pub fn get_or_init<F: FnOnce() -> Settings>(slot: &mut Option<Settings>, load: F) -> (r: &Settings)
        requires
            *old(slot) is None ==> load.requires(()),
        ensures
            *old(slot) is Some ==> *final(slot) == *old(slot),
            *old(slot) matches Some(first) ==> *r == first,
            *old(slot) is None ==> (*final(slot) is Some && load.ensures((), final(slot)->0)),
            *final(slot) == Some(*r),
    {
        if slot.is_none() {
            *slot = Some(load());
        }
        match slot {
            Some(settings) => settings,
            None => slot.as_ref().unwrap(),
        }
    }
}

/// The command line of the launcher.
#[derive(Debug, Default)]
pub struct CliArgs {
    /// The location of the configuration file.
    pub config: Option<String>,
}

/// The version line: the package version, then " - " and the git date,
/// then " - " and the git revision, each where known.
pub open spec fn version_text(version: Seq<char>, date: Option<Seq<char>>, rev: Option<Seq<char>>) -> Seq<char> {
    version + match date {
        Some(d) => " - "@ + d,
        None => Seq::empty(),
    } + match rev {
        Some(r) => " - "@ + r,
        None => Seq::empty(),
    }
}

impl CliArgs {
    /// Surfaces the current version together with the git date and
    /// revision it was built from, where those are known.
    pub fn version(package_version: &str, git_date: Option<&str>, git_rev: Option<&str>) -> (r: String)
        ensures
            r@ == version_text(
                package_version@,
                match git_date {
                    Some(d) => Some(d@),
                    None => None,
                },
                match git_rev {
                    Some(v) => Some(v@),
                    None => None,
                },
            ),
    {
        let mut r = String::from_str(package_version);
        if let Some(d) = git_date {
            r.append(" - ");
            r.append(d);
        }
        if let Some(v) = git_rev {
            r.append(" - ");
            r.append(v);
        }
        proof {
            reveal_strlit(" - ");
        }
        r
    }

    /// The configuration file to read: the one given on the command line,
    /// or else the default location.
    pub fn config_path(&self, default_path: String) -> (r: String)
        ensures
            r@ == match self.config {
                Some(c) => c@,
                None => default_path@,
            },
    {
        match &self.config {
            Some(c) => c.clone(),
            None => default_path,
        }
    }
}

/// The colour that a hex code such as `#RRGGBB` stands for, as red, green,
/// blue and alpha, as `hex_color::HexColor::parse` reads it.
pub uninterp spec fn hex_rgba(code: Seq<char>) -> Option<(u8, u8, u8, u8)>;

/// The value of a hexadecimal digit, either case.
pub open spec fn hex_digit(c: char) -> Option<int> {
    if 48 <= c as int <= 57 {
        Some(c as int - 48)
    } else if 97 <= c as int <= 102 {
        Some(c as int - 87)
    } else if 65 <= c as int <= 70 {
        Some(c as int - 55)
    } else {
        None
    }
}

/// The component written by the digits of `code` from `i` on: one digit
/// stands for itself repeated (`F` is `FF`), two for their value.
pub open spec fn hex_component(code: Seq<char>, i: int, width: int) -> u8 {
    if width == 1 {
        (hex_digit(code[i]).unwrap() * 17) as u8
    } else {
        (hex_digit(code[i]).unwrap() * 16 + hex_digit(code[i + 1]).unwrap()) as u8
    }
}

/// The colour a code in one of the four documented forms stands for:
/// `#RGB`, `#RGBA`, `#RRGGBB` or `#RRGGBBAA`, in hexadecimal digits of
/// either case, the alpha opaque where it is left out; `None` for any other
/// text.
pub open spec fn hex_code_value(code: Seq<char>) -> Option<(u8, u8, u8, u8)> {
    let n = code.len();
    let w = if n == 4 || n == 5 { 1int } else { 2int };
    if (n == 4 || n == 5 || n == 7 || n == 9) && code[0] == '#'
        && forall|i: int| 1 <= i < n ==> (#[trigger] hex_digit(code[i])) is Some {
        Some((
            hex_component(code, 1, w),
            hex_component(code, 1 + w, w),
            hex_component(code, 1 + 2 * w, w),
            if n == 5 || n == 9 { hex_component(code, 1 + 3 * w, w) } else { 255u8 },
        ))
    } else {
        None
    }
}

/// Calls `hex_color::HexColor::parse` and keeps the four components.
/// The contract claims that the result is a function of the code (named
/// `hex_rgba`); that a code that is empty or does not start with `#` is
/// refused, as the parser's source shows; and that a code in one of the
/// four documented forms gives its colour. Of other codes of those lengths
/// it says nothing more: the parser reads two-digit components with
/// `u8::from_str_radix`, which also takes a leading `+`.
#[verifier::external_body]
fn parse_hex(code: &str) -> (r: Option<(u8, u8, u8, u8)>)
    ensures
        r == hex_rgba(code@),
        code@.len() == 0 || code@[0] != '#' ==> r is None,
        hex_code_value(code@) is Some ==> r == hex_code_value(code@),
{
    match hex_color::HexColor::parse(code) {
        Ok(c) => Some((c.r, c.g, c.b, c.a)),
        Err(_) => None,
    }
}

/// A colour by its red, green, blue and alpha components.
#[derive(Debug, Clone, Copy, PartialEq, Eq, Structural)]
pub struct Rgba {
    pub r: u8,
    pub g: u8,
    pub b: u8,
    pub a: u8,
}

/// The colour of a hex colour code from the settings, or `None` where the
/// code is not a valid colour; a code in one of the four documented forms
/// gives the colour it writes.
pub fn hexcolor(color: &str) -> (r: Option<Rgba>)
    ensures
        r matches Some(c) ==> hex_rgba(color@) == Some((c.r, c.g, c.b, c.a)),
        r is None <==> hex_rgba(color@) is None,
        hex_code_value(color@) is Some ==> r is Some && hex_code_value(color@) == Some(
            (r.unwrap().r, r.unwrap().g, r.unwrap().b, r.unwrap().a),
        ),
{
    match parse_hex(color) {
        Some((r, g, b, a)) => Some(Rgba { r, g, b, a }),
        None => None,
    }
}

} // verus!
