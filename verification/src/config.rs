//! Application configuration: the configuration types with their default
//! values, the configuration manager, and the application directories.

use vstd::prelude::*;
use vstd::string::StringExecFns;
use crate::text::clone_opt_string;

verus! {

// ============================================================================
// Platform
// ============================================================================

/// The operating system the application runs on.
#[derive(Debug, Clone, Copy, PartialEq, Eq, Structural)]
pub enum Platform {
    Windows,
    MacOs,
    Linux,
}

// ============================================================================
// Configuration types
// ============================================================================

/// Server configuration.
#[derive(Debug)]
pub struct ServerConfig {
    pub default_url: Option<String>,
    pub hostname: String,
    pub port: u16,
    pub username: String,
    pub password: String,
}

/// Window configuration. `F` is the type of the window dimensions (a
/// floating-point type in the application).
#[derive(Debug)]
pub struct WindowConfig<F> {
    pub width: F,
    pub height: F,
    pub min_width: F,
    pub min_height: F,
    pub resizable: bool,
    pub decorations: bool,
    pub background_color: Option<String>,
    pub pinch_zoom_enabled: bool,
    pub titlebar_theme: String,
}

/// Display configuration: the display backend ("wayland", "x11" or "auto").
#[derive(Debug)]
pub struct DisplayConfig {
    pub backend: Option<String>,
}

/// Feature flags.
#[derive(Debug, Clone, Copy)]
pub struct FeatureFlags {
    pub wsl_integration: bool,
    pub auto_updater: bool,
    pub multiple_windows: bool,
    pub deep_links: bool,
    pub analytics: bool,
}

/// WSL configuration.
#[derive(Debug)]
pub struct WslConfig {
    pub enabled: bool,
    pub distros: Vec<WslDistroConfig>,
}

/// WSL distro configuration.
#[derive(Debug)]
pub struct WslDistroConfig {
    pub id: String,
    pub name: String,
    pub auto_start: bool,
}

/// Updater configuration: `check_interval` is in minutes, `channel` is
/// "stable", "beta" or "dev".
#[derive(Debug)]
pub struct UpdaterConfig {
    pub enabled: bool,
    pub check_interval: u64,
    pub channel: String,
}

/// Application configuration.
#[derive(Debug)]
pub struct AppConfig<F> {
    pub server: ServerConfig,
    pub window: WindowConfig<F>,
    pub display: DisplayConfig,
    pub features: FeatureFlags,
    pub wsl: WslConfig,
    pub updater: UpdaterConfig,
}

/// What a `WslConfig` holds.
pub struct WslConfigView {
    pub enabled: bool,
    pub distros: Seq<WslDistroConfig>,
}

impl View for WslConfig {
    type V = WslConfigView;

    open spec fn view(&self) -> WslConfigView {
        WslConfigView { enabled: self.enabled, distros: self.distros@ }
    }
}

/// What an `AppConfig` holds.
pub struct AppConfigView<F> {
    pub server: ServerConfig,
    pub window: WindowConfig<F>,
    pub display: DisplayConfig,
    pub features: FeatureFlags,
    pub wsl: WslConfigView,
    pub updater: UpdaterConfig,
}

impl<F> View for AppConfig<F> {
    type V = AppConfigView<F>;

    open spec fn view(&self) -> AppConfigView<F> {
        AppConfigView {
            server: self.server,
            window: self.window,
            display: self.display,
            features: self.features,
            wsl: self.wsl@,
            updater: self.updater,
        }
    }
}

// ============================================================================
// Cloning
// ============================================================================

impl Clone for ServerConfig {
    fn clone(&self) -> (r: Self)
        ensures
            r == *self,
    {
        ServerConfig {
            default_url: clone_opt_string(&self.default_url),
            hostname: self.hostname.clone(),
            port: self.port,
            username: self.username.clone(),
            password: self.password.clone(),
        }
    }
}

impl<F: Copy> Clone for WindowConfig<F> {
    fn clone(&self) -> (r: Self)
        ensures
            r == *self,
    {
        WindowConfig {
            width: self.width,
            height: self.height,
            min_width: self.min_width,
            min_height: self.min_height,
            resizable: self.resizable,
            decorations: self.decorations,
            background_color: clone_opt_string(&self.background_color),
            pinch_zoom_enabled: self.pinch_zoom_enabled,
            titlebar_theme: self.titlebar_theme.clone(),
        }
    }
}

impl Clone for DisplayConfig {
    fn clone(&self) -> (r: Self)
        ensures
            r == *self,
    {
        DisplayConfig { backend: clone_opt_string(&self.backend) }
    }
}

impl Clone for WslDistroConfig {
    fn clone(&self) -> (r: Self)
        ensures
            r == *self,
    {
        WslDistroConfig {
            id: self.id.clone(),
            name: self.name.clone(),
            auto_start: self.auto_start,
        }
    }
}

impl Clone for WslConfig {
    fn clone(&self) -> (r: Self)
        ensures
            r@ == self@,
    {
        let mut distros: Vec<WslDistroConfig> = Vec::new();
        let n = self.distros.len();
        let mut i: usize = 0;
        while i < n
            invariant
                i <= n == self.distros@.len(),
                distros@ =~= self.distros@.subrange(0, i as int),
            decreases n - i,
        {
            distros.push(self.distros[i].clone());
            i = i + 1;
        }
        assert(distros@ =~= self.distros@);
        WslConfig { enabled: self.enabled, distros }
    }
}

impl Clone for UpdaterConfig {
    fn clone(&self) -> (r: Self)
        ensures
            r == *self,
    {
        UpdaterConfig {
            enabled: self.enabled,
            check_interval: self.check_interval,
            channel: self.channel.clone(),
        }
    }
}

impl<F: Copy> Clone for AppConfig<F> {
    fn clone(&self) -> (r: Self)
        ensures
            r@ == self@,
    {
        AppConfig {
            server: self.server.clone(),
            window: self.window.clone(),
            display: self.display.clone(),
            features: self.features,
            wsl: self.wsl.clone(),
            updater: self.updater.clone(),
        }
    }
}

// ============================================================================
// Default configuration
// ============================================================================

impl Default for ServerConfig {
    /// No default URL, host 127.0.0.1, port 0 (the OS chooses), user
    /// "opencode", empty password.
    fn default() -> (r: Self)
        ensures
            r.default_url is None,
            r.hostname@ == "127.0.0.1"@,
            r.port == 0,
            r.username@ == "opencode"@,
            r.password@ == Seq::<char>::empty(),
    {
        ServerConfig {
            default_url: None,
            hostname: String::from_str("127.0.0.1"),
            port: 0,
            username: String::from_str("opencode"),
            password: String::new(),
        }
    }
}

impl<F: From<u32>> Default for WindowConfig<F> {
    /// 1280 by 800, at least 800 by 600, resizable, decorated, no background
    /// colour, pinch zoom off, dark title bar. The dimensions are converted
    /// from these whole numbers with `F::from`.
    fn default() -> (r: Self)
        ensures
            call_ensures(F::from, (1280u32,), r.width),
            call_ensures(F::from, (800u32,), r.height),
            call_ensures(F::from, (800u32,), r.min_width),
            call_ensures(F::from, (600u32,), r.min_height),
            r.resizable,
            r.decorations,
            r.background_color is None,
            !r.pinch_zoom_enabled,
            r.titlebar_theme@ == "dark"@,
    {
        WindowConfig {
            width: F::from(1280u32),
            height: F::from(800u32),
            min_width: F::from(800u32),
            min_height: F::from(600u32),
            resizable: true,
            decorations: true,
            background_color: None,
            pinch_zoom_enabled: false,
            titlebar_theme: String::from_str("dark"),
        }
    }
}

impl Default for DisplayConfig {
    /// No display backend chosen.
    fn default() -> (r: Self)
        ensures
            r.backend is None,
    {
        DisplayConfig { backend: None }
    }
}

impl Default for FeatureFlags {
    /// Every feature on except analytics.
    fn default() -> (r: Self)
        ensures
            r.wsl_integration,
            r.auto_updater,
            r.multiple_windows,
            r.deep_links,
            !r.analytics,
    {
        FeatureFlags {
            wsl_integration: true,
            auto_updater: true,
            multiple_windows: true,
            deep_links: true,
            analytics: false,
        }
    }
}

impl Default for WslConfig {
    /// Enabled, with no distros.
    fn default() -> (r: Self)
        ensures
            r.enabled,
            r.distros@.len() == 0,
    {
        WslConfig { enabled: true, distros: Vec::new() }
    }
}

impl Default for UpdaterConfig {
    /// Enabled, checking every 60 minutes on the "stable" channel.
    fn default() -> (r: Self)
        ensures
            r.enabled,
            r.check_interval == 60,
            r.channel@ == "stable"@,
    {
        UpdaterConfig { enabled: true, check_interval: 60, channel: String::from_str("stable") }
    }
}

/// Whether `c` is the default server configuration.
pub open spec fn is_default_server(c: ServerConfig) -> bool {
    &&& c.default_url is None
    &&& c.hostname@ == "127.0.0.1"@
    &&& c.port == 0
    &&& c.username@ == "opencode"@
    &&& c.password@ == Seq::<char>::empty()
}

/// Whether `c` is the default window configuration.
pub open spec fn is_default_window<F: From<u32>>(c: WindowConfig<F>) -> bool {
    &&& call_ensures(F::from, (1280u32,), c.width)
    &&& call_ensures(F::from, (800u32,), c.height)
    &&& call_ensures(F::from, (800u32,), c.min_width)
    &&& call_ensures(F::from, (600u32,), c.min_height)
    &&& c.resizable
    &&& c.decorations
    &&& c.background_color is None
    &&& !c.pinch_zoom_enabled
    &&& c.titlebar_theme@ == "dark"@
}

/// Whether `f` are the default feature flags.
pub open spec fn is_default_features(f: FeatureFlags) -> bool {
    f.wsl_integration && f.auto_updater && f.multiple_windows && f.deep_links && !f.analytics
}

/// Whether `c` is the default application configuration.
pub open spec fn is_default_config<F: From<u32>>(c: AppConfigView<F>) -> bool {
    &&& is_default_server(c.server)
    &&& is_default_window(c.window)
    &&& c.display.backend is None
    &&& is_default_features(c.features)
    &&& c.wsl.enabled
    &&& c.wsl.distros.len() == 0
    &&& c.updater.enabled
    &&& c.updater.check_interval == 60
    &&& c.updater.channel@ == "stable"@
}

impl<F: From<u32>> Default for AppConfig<F> {
    /// Every part at its own default.
    fn default() -> (r: Self)
        ensures
            is_default_config(r@),
    {
        AppConfig {
            server: ServerConfig::default(),
            window: WindowConfig::default(),
            display: DisplayConfig::default(),
            features: FeatureFlags::default(),
            wsl: WslConfig::default(),
            updater: UpdaterConfig::default(),
        }
    }
}

// ============================================================================
// Configuration manager
// ============================================================================

/// What reading the configuration file gave.
pub enum ConfigFile<F> {
    /// The file was read and parsed into this configuration.
    Parsed(AppConfig<F>),
    /// The file was read but did not parse; the parser's message.
    Malformed(String),
    /// There is no file at the path.
    Missing,
    /// The file could not be read; the reader's message.
    Unreadable(String),
}

/// What a successful `load` asks of its caller.
#[derive(Debug, Clone, Copy, PartialEq, Eq, Structural)]
pub enum LoadOutcome {
    /// The configuration was taken from the file.
    Loaded,
    /// There was no file: the current configuration is to be saved there.
    SaveDefaults,
}

/// Why writing the configuration failed.
pub enum SaveFailure {
    /// The configuration could not be serialized; the serializer's message.
    Serialize(String),
    /// The file could not be written; the writer's message.
    Write(String),
}

/// `prefix` followed by `detail`.
pub open spec fn prefixed(prefix: Seq<char>, detail: Seq<char>) -> Seq<char> {
    prefix + detail
}

fn prefixed_message(prefix: &str, detail: &String) -> (r: String)
    ensures
        r@ == prefixed(prefix@, detail@),
{
    let mut r = String::from_str(prefix);
    r.append(detail.as_str());
    r
}

/// The message for a failed save.
pub fn save_failure_message(failure: &SaveFailure) -> (r: String)
    ensures
        match failure {
            SaveFailure::Serialize(e) => r@ == prefixed("Failed to serialize config: "@, e@),
            SaveFailure::Write(e) => r@ == prefixed("Failed to write config: "@, e@),
        },
{
    match failure {
        SaveFailure::Serialize(e) => prefixed_message("Failed to serialize config: ", e),
        SaveFailure::Write(e) => prefixed_message("Failed to write config: ", e),
    }
}

/// The configuration after loading `file` over `current`: a parsed file
/// replaces it, anything else leaves it.
pub open spec fn loaded_config<F>(current: AppConfigView<F>, file: ConfigFile<F>) -> AppConfigView<F> {
    match file {
        ConfigFile::Parsed(c) => c@,
        _ => current,
    }
}

/// What a save hands out to be written: the path and the configuration,
/// or nothing while no path is set.
pub open spec fn saved_file<F>(path: Seq<char>, config: AppConfigView<F>) -> Option<(Seq<char>, AppConfigView<F>)> {
    if path.len() == 0 {
        None
    } else {
        Some((path, config))
    }
}

/// Manages the application configuration and the path of its file.
pub struct ConfigManager<F> {
    config: AppConfig<F>,
    config_path: String,
}

impl<F: Copy> ConfigManager<F> {
    /// The current configuration.
    pub closed spec fn config(&self) -> AppConfigView<F> {
        self.config@
    }

    /// The path of the configuration file (empty while none is set).
    pub closed spec fn path(&self) -> Seq<char> {
        self.config_path@
    }

    /// A manager holding the default configuration and no path.
    pub fn new() -> (m: Self)
        where F: From<u32>
        ensures
            is_default_config(m.config()),
            m.path() == Seq::<char>::empty(),
    {
        ConfigManager { config: AppConfig::default(), config_path: String::new() }
    }

    /// Loads the configuration from `path`, given what reading that file
    /// gave. The path is kept whatever the outcome. A parsed file replaces
    /// the configuration; a missing file leaves it and asks the caller to
    /// save it; otherwise the configuration is left and an error comes back.
    pub fn load(&mut self, path: String, file: ConfigFile<F>) -> (r: Result<LoadOutcome, String>)
        ensures
            final(self).path() == path@,
            final(self).config() == loaded_config(old(self).config(), file),
            match file {
                ConfigFile::Parsed(c) => r == Ok::<LoadOutcome, String>(LoadOutcome::Loaded)
                    && final(self).config() == c@,
                ConfigFile::Malformed(e) => r matches Err(m) && m@ == prefixed(
                    "Failed to parse config: "@,
                    e@,
                ) && final(self).config() == old(self).config(),
                ConfigFile::Missing => r == Ok::<LoadOutcome, String>(LoadOutcome::SaveDefaults)
                    && final(self).config() == old(self).config(),
                ConfigFile::Unreadable(e) => r matches Err(m) && m@ == prefixed(
                    "Failed to read config: "@,
                    e@,
                ) && final(self).config() == old(self).config(),
            },
    {
        self.config_path = path;
        match file {
            ConfigFile::Parsed(c) => {
                self.config = c;
                Ok(LoadOutcome::Loaded)
            },
            ConfigFile::Malformed(e) => Err(prefixed_message("Failed to parse config: ", &e)),
            ConfigFile::Missing => Ok(LoadOutcome::SaveDefaults),
            ConfigFile::Unreadable(e) => Err(prefixed_message("Failed to read config: ", &e)),
        }
    }

    /// Checks that a path is set before a save and hands back the path and
    /// the configuration to write there.
    pub fn save(&self) -> (r: Result<(&String, &AppConfig<F>), String>)
        ensures
            self.path().len() == 0 <==> r is Err,
            r matches Err(m) ==> m@ == "Config path not set"@,
            r matches Ok(w) ==> w.0@ == self.path() && w.1@ == self.config(),
            saved_file(self.path(), self.config()) == match r {
                Ok(w) => Some((w.0@, w.1@)),
                Err(_) => None::<(Seq<char>, AppConfigView<F>)>,
            },
    {
        if self.config_path.as_str().is_empty() {
            Err(String::from_str("Config path not set"))
        } else {
            Ok((&self.config_path, &self.config))
        }
    }

    /// The current configuration.
    pub fn get(&self) -> (c: AppConfig<F>)
        ensures
            c@ == self.config(),
    {
        self.config.clone()
    }

    /// Changes the configuration by `f`. The caller then saves it.
    pub fn update(&mut self, f: impl FnOnce(AppConfig<F>) -> AppConfig<F>)
        requires
            forall|c: AppConfig<F>| c@ == old(self).config() ==> call_requires(f, (c,)),
        ensures
            final(self).path() == old(self).path(),
            exists|c: AppConfig<F>, n: AppConfig<F>|
                c@ == old(self).config() && call_ensures(f, (c,), n) && final(self).config()
                    == n@,
    {
        let current = self.config.clone();
        let next = f(current);
        self.config = next;
        assert(call_ensures(f, (current,), next));
    }

    /// The server part of the configuration.
    pub fn get_server_config(&self) -> (c: ServerConfig)
        ensures
            c == self.config().server,
    {
        self.config.server.clone()
    }

    /// The window part of the configuration.
    pub fn get_window_config(&self) -> (c: WindowConfig<F>)
        ensures
            c == self.config().window,
    {
        self.config.window.clone()
    }

    /// The display part of the configuration.
    pub fn get_display_config(&self) -> (c: DisplayConfig)
        ensures
            c == self.config().display,
    {
        self.config.display.clone()
    }

    /// The feature flags.
    pub fn get_feature_flags(&self) -> (c: FeatureFlags)
        ensures
            c == self.config().features,
    {
        self.config.features
    }
}

// ============================================================================
// Application directories
// ============================================================================

/// Whether `c` separates path components on `p`.
pub open spec fn is_separator(p: Platform, c: char) -> bool {
    c == '/' || (p == Platform::Windows && c == '\\')
}

/// The separator that joining inserts on `p`.
pub open spec fn main_separator(p: Platform) -> char {
    if p == Platform::Windows { '\\' } else { '/' }
}

/// Whether `s` is a bare Windows drive such as `C:`.
pub open spec fn is_bare_drive(s: Seq<char>) -> bool {
    s.len() == 2 && s[1] == ':' && (('a' <= s[0] && s[0] <= 'z') || ('A' <= s[0] && s[0] <= 'Z'))
}

/// `base` joined with the relative component `name` (`Path::join`): a
/// separator goes between them unless `base` is empty, already ends in a
/// separator, or is a bare drive on Windows.
pub open spec fn path_join(p: Platform, base: Seq<char>, name: Seq<char>) -> Seq<char> {
    let need_sep = base.len() > 0 && !is_separator(p, base.last()) && !(p == Platform::Windows
        && is_bare_drive(base));
    if need_sep {
        base.push(main_separator(p)) + name
    } else {
        base + name
    }
}

/// The name of the application's directories: "opencode" on Linux,
/// "OpenCode" elsewhere.
pub open spec fn app_dir_name(p: Platform) -> Seq<char> {
    if p == Platform::Linux { "opencode"@ } else { "OpenCode"@ }
}

/// The application directory under the base that the platform gives: on
/// Linux the XDG variable's value if set, else the platform directory;
/// elsewhere the platform directory; "~" where there is none.
pub open spec fn app_dir(p: Platform, xdg: Option<Seq<char>>, platform_dir: Option<Seq<char>>) -> Seq<
    char,
> {
    let base = if p == Platform::Linux && xdg is Some {
        xdg->0
    } else if platform_dir is Some {
        platform_dir->0
    } else {
        "~"@
    };
    path_join(p, base, app_dir_name(p))
}

/// The view of an optional string.
pub open spec fn opt_view(s: Option<String>) -> Option<Seq<char>> {
    match s {
        Some(v) => Some(v@),
        None => None,
    }
}

/// `dirs::data_dir`, as a string.
///
/// Trusted: the value depends on the environment and the user database, so
/// nothing is promised of it. Paths that are not valid Unicode come back
/// with the invalid parts replaced (`to_string_lossy`).
#[verifier::external_body]
fn platform_data_dir() -> (r: Option<String>) {
    match dirs::data_dir() {
        Some(p) => Some(p.to_string_lossy().into_owned()),
        None => None,
    }
}

/// `dirs::config_dir`, as a string.
///
/// Trusted: the value depends on the environment and the user database, so
/// nothing is promised of it. Paths that are not valid Unicode come back
/// with the invalid parts replaced (`to_string_lossy`).
#[verifier::external_body]
fn platform_config_dir() -> (r: Option<String>) {
    match dirs::config_dir() {
        Some(p) => Some(p.to_string_lossy().into_owned()),
        None => None,
    }
}

/// `dirs::cache_dir`, as a string.
///
/// Trusted: the value depends on the environment and the user database, so
/// nothing is promised of it. Paths that are not valid Unicode come back
/// with the invalid parts replaced (`to_string_lossy`).
#[verifier::external_body]
fn platform_cache_dir() -> (r: Option<String>) {
    match dirs::cache_dir() {
        Some(p) => Some(p.to_string_lossy().into_owned()),
        None => None,
    }
}

/// Whether `d` is what `dirs::data_dir` reported (a result of
/// `platform_data_dir`).
pub closed spec fn reported_data_dir(d: Option<String>) -> bool {
    call_ensures(platform_data_dir, (), d)
}

/// Whether `d` is what `dirs::config_dir` reported (a result of
/// `platform_config_dir`).
pub closed spec fn reported_config_dir(d: Option<String>) -> bool {
    call_ensures(platform_config_dir, (), d)
}

/// Whether `d` is what `dirs::cache_dir` reported (a result of
/// `platform_cache_dir`).
pub closed spec fn reported_cache_dir(d: Option<String>) -> bool {
    call_ensures(platform_cache_dir, (), d)
}

/// Whether the application directory on `p` is built on the platform's own
/// directory: everywhere but on Linux with the XDG variable set.
pub open spec fn uses_platform_dir(p: Platform, xdg: Option<Seq<char>>) -> bool {
    !(p == Platform::Linux && xdg is Some)
}

fn is_separator_char(p: Platform, c: char) -> (b: bool)
    ensures
        b == is_separator(p, c),
{
    c == '/' || (p == Platform::Windows && c == '\\')
}

/// `Path::join` of `base` and the relative component `name`.
pub fn join_path(p: Platform, base: &str, name: &str) -> (r: String)
    ensures
        r@ == path_join(p, base@, name@),
{
    let v = crate::text::chars_of(base);
    let n = v.len();
    let bare_drive = n == 2 && v[1] == ':' && (('a' <= v[0] && v[0] <= 'z') || ('A' <= v[0] && v[0]
        <= 'Z'));
    let need_sep = n > 0 && !is_separator_char(p, v[n - 1]) && !(p == Platform::Windows
        && bare_drive);
    let mut r = String::from_str(base);
    if need_sep {
        let sep = if p == Platform::Windows { '\\' } else { '/' };
        crate::text::push_char(&mut r, sep);
    }
    r.append(name);
    r
}

/// The application directory: `app_dir` of what the environment gave.
pub fn resolve_app_dir(p: Platform, xdg: Option<String>, platform_dir: Option<String>) -> (r: String)
    ensures
        r@ == app_dir(p, opt_view(xdg), opt_view(platform_dir)),
{
    let base = if p == Platform::Linux && xdg.is_some() {
        xdg.unwrap()
    } else {
        match platform_dir {
            Some(d) => d,
            None => String::from_str("~"),
        }
    };
    let name = if p == Platform::Linux { "opencode" } else { "OpenCode" };
    join_path(p, base.as_str(), name)
}

/// What the platform's directory function can have given.
pub open spec fn is_app_dir(p: Platform, xdg: Option<Seq<char>>, r: Seq<char>) -> bool {
    exists|d: Option<Seq<char>>| r == app_dir(p, xdg, d)
}

/// The application data directory. On Linux `xdg_data_home` is the value
/// of `XDG_DATA_HOME` if that is set; the platform's data directory comes
/// from `dirs::data_dir`.
pub fn get_app_data_dir(p: Platform, xdg_data_home: Option<String>) -> (r: String)
    ensures
        is_app_dir(p, opt_view(xdg_data_home), r@),
        p == Platform::Linux && xdg_data_home is Some ==> r@ == path_join(
            p,
            xdg_data_home->0@,
            "opencode"@,
        ),
        uses_platform_dir(p, opt_view(xdg_data_home)) ==> exists|d: Option<String>|
            reported_data_dir(d) && r@ == app_dir(p, opt_view(xdg_data_home), opt_view(d)),
{
    if p == Platform::Linux && xdg_data_home.is_some() {
        resolve_app_dir(p, xdg_data_home, None)
    } else {
        let platform_dir = platform_data_dir();
        assert(reported_data_dir(platform_dir));
        resolve_app_dir(p, xdg_data_home, platform_dir)
    }
}

/// The application config directory. On Linux `xdg_config_home` is the
/// value of `XDG_CONFIG_HOME` if that is set; the platform's config
/// directory comes from `dirs::config_dir`.
pub fn get_app_config_dir(p: Platform, xdg_config_home: Option<String>) -> (r: String)
    ensures
        is_app_dir(p, opt_view(xdg_config_home), r@),
        p == Platform::Linux && xdg_config_home is Some ==> r@ == path_join(
            p,
            xdg_config_home->0@,
            "opencode"@,
        ),
        uses_platform_dir(p, opt_view(xdg_config_home)) ==> exists|d: Option<String>|
            reported_config_dir(d) && r@ == app_dir(p, opt_view(xdg_config_home), opt_view(d)),
{
    if p == Platform::Linux && xdg_config_home.is_some() {
        resolve_app_dir(p, xdg_config_home, None)
    } else {
        let platform_dir = platform_config_dir();
        assert(reported_config_dir(platform_dir));
        resolve_app_dir(p, xdg_config_home, platform_dir)
    }
}

/// The application cache directory. On Linux `xdg_cache_home` is the value
/// of `XDG_CACHE_HOME` if that is set; the platform's cache directory comes
/// from `dirs::cache_dir`.
pub fn get_app_cache_dir(p: Platform, xdg_cache_home: Option<String>) -> (r: String)
    ensures
        is_app_dir(p, opt_view(xdg_cache_home), r@),
        p == Platform::Linux && xdg_cache_home is Some ==> r@ == path_join(
            p,
            xdg_cache_home->0@,
            "opencode"@,
        ),
        uses_platform_dir(p, opt_view(xdg_cache_home)) ==> exists|d: Option<String>|
            reported_cache_dir(d) && r@ == app_dir(p, opt_view(xdg_cache_home), opt_view(d)),
{
    if p == Platform::Linux && xdg_cache_home.is_some() {
        resolve_app_dir(p, xdg_cache_home, None)
    } else {
        let platform_dir = platform_cache_dir();
        assert(reported_cache_dir(platform_dir));
        resolve_app_dir(p, xdg_cache_home, platform_dir)
    }
}

/// The configuration round trip: a manager whose path is set hands out
/// its path and configuration to be saved; when what was written there is
/// read back as that same configuration, loading it makes any manager hold
/// exactly that configuration.
pub proof fn law_config_round_trip<F>(
    path: Seq<char>,
    config: AppConfigView<F>,
    other: AppConfigView<F>,
    read_back: AppConfig<F>,
)
    requires
        path.len() > 0,
        read_back@ == config,
    ensures
        saved_file(path, config) == Some((path, config)),
        loaded_config(other, ConfigFile::Parsed(read_back)) == config,
{
}

/// The application directory built on the platform's own directory
/// `base` (the one `dirs` reports for data, config or cache): `base`, the
/// platform's separator and the application's name, `opencode` on Linux and
/// `OpenCode` on Windows and macOS; with no platform directory, the same
/// under `~`. Off Linux the XDG variables play no part.
pub proof fn law_app_dir_on_platform_dir(p: Platform, xdg: Option<Seq<char>>, base: Option<Seq<char>>)
    requires
        base matches Some(b) ==> b.len() > 0 && !is_separator(p, b.last()) && !(p == Platform::Windows
            && is_bare_drive(b)),
    ensures
        app_dir(p, None, base) == (match base {
            Some(b) => b,
            None => "~"@,
        }).push(if p == Platform::Windows { '\\' } else { '/' }) + (if p == Platform::Linux {
            "opencode"@
        } else {
            "OpenCode"@
        }),
        p != Platform::Linux ==> app_dir(p, xdg, base) == app_dir(p, None, base),
{
    reveal_strlit("~");
    assert("~"@.len() == 1);
    assert("~"@.last() == '~');
}

/// Path separators: `/` on every platform, `\` on Windows only; joining
/// inserts `\` on Windows and `/` elsewhere.
pub proof fn law_separators(p: Platform)
    ensures
        is_separator(p, '/'),
        is_separator(p, '\\') <==> p == Platform::Windows,
        forall|c: char| c != '/' && c != '\\' ==> !is_separator(p, c),
        main_separator(p) == (if p == Platform::Windows { '\\' } else { '/' }),
{
}

/// Every application directory ends in the application's directory name.
pub proof fn law_app_dir_ends_with_name(p: Platform, xdg: Option<Seq<char>>, d: Option<Seq<char>>)
    ensures
        ({
            let r = app_dir(p, xdg, d);
            let k = app_dir_name(p).len();
            r.len() >= k && r.subrange(r.len() - k, r.len() as int) == app_dir_name(p)
        }),
{
    let r = app_dir(p, xdg, d);
    let name = app_dir_name(p);
    let k = name.len();
    reveal_strlit("opencode");
    reveal_strlit("OpenCode");
    let base = if p == Platform::Linux && xdg is Some {
        xdg->0
    } else if d is Some {
        d->0
    } else {
        "~"@
    };
    let pre = if base.len() > 0 && !is_separator(p, base.last()) && !(p == Platform::Windows
        && is_bare_drive(base)) {
        base.push(main_separator(p))
    } else {
        base
    };
    assert(r == pre + name);
    assert(r.subrange(r.len() - k, r.len() as int) =~= name);
}

} // verus!
