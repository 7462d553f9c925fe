//! The application shell: its name and version, the environment it sets
//! up, its directories, and how it answers window events.

use vstd::prelude::*;
use vstd::string::StringExecFns;
use crate::config::{
    app_dir, get_app_cache_dir, get_app_config_dir, get_app_data_dir, is_app_dir, opt_view, path_join,
    reported_cache_dir, reported_config_dir, reported_data_dir, uses_platform_dir, Platform,
};

verus! {

/// The application's name.
pub open spec fn app_name() -> Seq<char> {
    "OpenCode"@
}

/// The application's version.
pub open spec fn app_version() -> Seq<char> {
    "1.17.8"@
}

/// The application's name.
pub fn app_name_string() -> (s: String)
    ensures
        s@ == app_name(),
{
    String::from_str("OpenCode")
}

/// The line that describes the running application.
pub open spec fn app_info(os: Seq<char>, arch: Seq<char>) -> Seq<char> {
    app_name() + " v"@ + app_version() + " | Platform: "@ + os + " | Arch: "@ + arch
}

/// The line that describes the running application on `os` and `arch`.
pub fn format_app_info(os: &str, arch: &str) -> (s: String)
    ensures
        s@ == app_info(os@, arch@),
{
    let mut s = String::from_str("OpenCode");
    s.append(" v");
    s.append("1.17.8");
    s.append(" | Platform: ");
    s.append(os);
    s.append(" | Arch: ");
    s.append(arch);
    s
}

// ============================================================================
// Environment
// ============================================================================

/// The views of name-value pairs.
pub open spec fn pair_views(v: Seq<(String, String)>) -> Seq<(Seq<char>, Seq<char>)> {
    v.map_values(|e: (String, String)| (e.0@, e.1@))
}

/// The variables that tell the sidecar server it runs under the desktop
/// application.
pub open spec fn opencode_env() -> Seq<(Seq<char>, Seq<char>)> {
    seq![
        ("OPENCODE_CLIENT"@, "desktop"@),
        ("OPENCODE_DISABLE_EMBEDDED_WEB_UI"@, "true"@),
        ("OPENCODE_EXPERIMENTAL_ICON_DISCOVERY"@, "true"@),
        ("OPENCODE_EXPERIMENTAL_FILEWATCHER"@, "true"@),
    ]
}

fn pair(name: &str, value: &str) -> (p: (String, String))
    ensures
        p.0@ == name@,
        p.1@ == value@,
{
    (String::from_str(name), String::from_str(value))
}

/// The variables to set for the sidecar server, in order.
pub fn opencode_env_vars() -> (v: Vec<(String, String)>)
    ensures
        pair_views(v@) == opencode_env(),
{
    let mut v: Vec<(String, String)> = Vec::new();
    v.push(pair("OPENCODE_CLIENT", "desktop"));
    v.push(pair("OPENCODE_DISABLE_EMBEDDED_WEB_UI", "true"));
    v.push(pair("OPENCODE_EXPERIMENTAL_ICON_DISCOVERY", "true"));
    v.push(pair("OPENCODE_EXPERIMENTAL_FILEWATCHER", "true"));
    assert(pair_views(v@) =~= opencode_env());
    v
}

/// Which XDG base directory variables are missing (unset or not Unicode).
pub struct XdgMissing {
    pub data_home: bool,
    pub config_home: bool,
    pub cache_home: bool,
    pub state_home: bool,
}

/// The XDG variables to set on Linux: each missing one, if `HOME` is set,
/// to its usual place under `HOME`, in the order data, config, cache,
/// state.
pub open spec fn xdg_defaults(home: Option<Seq<char>>, m: XdgMissing) -> Seq<(Seq<char>, Seq<char>)> {
    match home {
        None => seq![],
        Some(h) => {
            let a: Seq<(Seq<char>, Seq<char>)> = if m.data_home {
                seq![("XDG_DATA_HOME"@, h + "/.local/share"@)]
            } else {
                seq![]
            };
            let b: Seq<(Seq<char>, Seq<char>)> = if m.config_home {
                seq![("XDG_CONFIG_HOME"@, h + "/.config"@)]
            } else {
                seq![]
            };
            let c: Seq<(Seq<char>, Seq<char>)> = if m.cache_home {
                seq![("XDG_CACHE_HOME"@, h + "/.cache"@)]
            } else {
                seq![]
            };
            let d: Seq<(Seq<char>, Seq<char>)> = if m.state_home {
                seq![("XDG_STATE_HOME"@, h + "/.local/state"@)]
            } else {
                seq![]
            };
            a + b + c + d
        },
    }
}

fn under_home(name: &str, home: &String, suffix: &str) -> (p: (String, String))
    ensures
        p.0@ == name@,
        p.1@ == home@ + suffix@,
{
    let mut value = home.clone();
    value.append(suffix);
    (String::from_str(name), value)
}

/// The XDG variables to set on Linux (see `xdg_defaults`).
pub fn setup_linux_environment(home: &Option<String>, missing: XdgMissing) -> (v: Vec<(String, String)>)
    ensures
        pair_views(v@) == xdg_defaults(opt_view(*home), missing),
{
    let mut v: Vec<(String, String)> = Vec::new();
    match home {
        None => {
            assert(pair_views(v@) =~= xdg_defaults(opt_view(*home), missing));
        },
        Some(h) => {
            let ghost hv = h@;
            let ghost m = missing;
            if missing.data_home {
                v.push(under_home("XDG_DATA_HOME", h, "/.local/share"));
            }
            let ghost va = v@;
            if missing.config_home {
                v.push(under_home("XDG_CONFIG_HOME", h, "/.config"));
            }
            let ghost vb = v@;
            if missing.cache_home {
                v.push(under_home("XDG_CACHE_HOME", h, "/.cache"));
            }
            let ghost vc = v@;
            if missing.state_home {
                v.push(under_home("XDG_STATE_HOME", h, "/.local/state"));
            }
            assert(pair_views(v@) =~= xdg_defaults(opt_view(*home), missing));
        },
    }
    v
}

/// Whether `v` is the value `value` set for the variable `name`.
pub open spec fn sets(v: Seq<(Seq<char>, Seq<char>)>, name: Seq<char>, value: Seq<char>) -> bool {
    exists|i: int| 0 <= i < v.len() && #[trigger] v[i] == (name, value)
}

/// On Linux, with `HOME` known, exactly the missing XDG base directory
/// variables are set, each to its usual place under `HOME`: data in
/// `.local/share`, config in `.config`, cache in `.cache`, state in
/// `.local/state`, one entry per missing variable; without `HOME` nothing
/// is set.
pub proof fn law_xdg_defaults(home: Option<Seq<char>>, m: XdgMissing)
    ensures
        home is None ==> xdg_defaults(home, m).len() == 0,
        home matches Some(h) ==> {
            let v = xdg_defaults(home, m);
            &&& v.len() == (if m.data_home { 1int } else { 0 }) + (if m.config_home { 1int } else { 0 })
                + (if m.cache_home { 1int } else { 0 }) + (if m.state_home { 1int } else { 0 })
            &&& (sets(v, "XDG_DATA_HOME"@, h + "/.local/share"@) <==> m.data_home)
            &&& (sets(v, "XDG_CONFIG_HOME"@, h + "/.config"@) <==> m.config_home)
            &&& (sets(v, "XDG_CACHE_HOME"@, h + "/.cache"@) <==> m.cache_home)
            &&& (sets(v, "XDG_STATE_HOME"@, h + "/.local/state"@) <==> m.state_home)
        },
{
    if let Some(h) = home {
        reveal_strlit("XDG_DATA_HOME");
        reveal_strlit("XDG_CONFIG_HOME");
        reveal_strlit("XDG_CACHE_HOME");
        reveal_strlit("XDG_STATE_HOME");
        let dn = "XDG_DATA_HOME"@;
        let cn = "XDG_CONFIG_HOME"@;
        let kn = "XDG_CACHE_HOME"@;
        let sn = "XDG_STATE_HOME"@;
        assert(dn.len() == 13 && cn.len() == 15 && kn.len() == 14 && sn.len() == 14);
        assert(kn[4] == 'C' && sn[4] == 'S');
        assert(dn != cn && dn != kn && dn != sn && cn != kn && cn != sn && kn != sn);
        let a: Seq<(Seq<char>, Seq<char>)> = if m.data_home {
            seq![(dn, h + "/.local/share"@)]
        } else {
            seq![]
        };
        let b: Seq<(Seq<char>, Seq<char>)> = if m.config_home {
            seq![(cn, h + "/.config"@)]
        } else {
            seq![]
        };
        let c: Seq<(Seq<char>, Seq<char>)> = if m.cache_home {
            seq![(kn, h + "/.cache"@)]
        } else {
            seq![]
        };
        let d: Seq<(Seq<char>, Seq<char>)> = if m.state_home {
            seq![(sn, h + "/.local/state"@)]
        } else {
            seq![]
        };
        let v = xdg_defaults(home, m);
        assert(v == a + b + c + d);
        let ab = a + b;
        let abc = ab + c;
        // every entry of `v` comes from one of the four parts
        assert forall|i: int| 0 <= i < v.len() implies (#[trigger] v[i] == (dn, h + "/.local/share"@)
            && m.data_home) || (v[i] == (cn, h + "/.config"@) && m.config_home) || (v[i] == (kn, h
            + "/.cache"@) && m.cache_home) || (v[i] == (sn, h + "/.local/state"@) && m.state_home) by {
            if i < a.len() {
                assert(v[i] == a[i]);
            } else if i < ab.len() {
                assert(v[i] == b[i - a.len()]);
            } else if i < abc.len() {
                assert(v[i] == c[i - ab.len()]);
            } else {
                assert(v[i] == d[i - abc.len()]);
            }
        }
        if m.data_home {
            assert(v[0] == (dn, h + "/.local/share"@));
        }
        if m.config_home {
            assert(v[a.len() as int] == (cn, h + "/.config"@));
        }
        if m.cache_home {
            assert(v[ab.len() as int] == (kn, h + "/.cache"@));
        }
        if m.state_home {
            assert(v[abc.len() as int] == (sn, h + "/.local/state"@));
        }
    }
}

/// The sidecar server is told, through four variables, that it runs under
/// the desktop application: `OPENCODE_CLIENT` is `desktop`, and
/// `OPENCODE_DISABLE_EMBEDDED_WEB_UI`, `OPENCODE_EXPERIMENTAL_ICON_DISCOVERY`
/// and `OPENCODE_EXPERIMENTAL_FILEWATCHER` are `true`.
pub proof fn law_opencode_env()
    ensures
        opencode_env().len() == 4,
        sets(opencode_env(), "OPENCODE_CLIENT"@, "desktop"@),
        sets(opencode_env(), "OPENCODE_DISABLE_EMBEDDED_WEB_UI"@, "true"@),
        sets(opencode_env(), "OPENCODE_EXPERIMENTAL_ICON_DISCOVERY"@, "true"@),
        sets(opencode_env(), "OPENCODE_EXPERIMENTAL_FILEWATCHER"@, "true"@),
{
    let v = opencode_env();
    assert(v[0] == ("OPENCODE_CLIENT"@, "desktop"@));
    assert(v[1] == ("OPENCODE_DISABLE_EMBEDDED_WEB_UI"@, "true"@));
    assert(v[2] == ("OPENCODE_EXPERIMENTAL_ICON_DISCOVERY"@, "true"@));
    assert(v[3] == ("OPENCODE_EXPERIMENTAL_FILEWATCHER"@, "true"@));
}

/// The line that describes the running application names OpenCode, its
/// version 1.17.8, the platform and the architecture, in that order.
pub proof fn law_app_info(os: Seq<char>, arch: Seq<char>)
    ensures
        app_name() == "OpenCode"@,
        app_version() == "1.17.8"@,
        app_info(os, arch) == "OpenCode v1.17.8 | Platform: "@ + os + " | Arch: "@ + arch,
{
    reveal_strlit("OpenCode");
    reveal_strlit(" v");
    reveal_strlit("1.17.8");
    reveal_strlit(" | Platform: ");
    reveal_strlit("OpenCode v1.17.8 | Platform: ");
    assert("OpenCode"@ + " v"@ + "1.17.8"@ + " | Platform: "@ =~= "OpenCode v1.17.8 | Platform: "@);
    assert(app_info(os, arch) =~= "OpenCode v1.17.8 | Platform: "@ + os + " | Arch: "@ + arch);
}

// ============================================================================
// Directories
// ============================================================================

/// The user data directory of the application.
pub fn get_user_data_dir(p: Platform, xdg_data_home: Option<String>) -> (r: String)
    ensures
        is_app_dir(p, opt_view(xdg_data_home), r@),
        p == Platform::Linux && xdg_data_home is Some ==> r@ == path_join(
            p,
            xdg_data_home->0@,
            "opencode"@,
        ),
        uses_platform_dir(p, opt_view(xdg_data_home)) ==> exists|d: Option<String>|
            reported_data_dir(d) && r@ == app_dir(p, opt_view(xdg_data_home), opt_view(d)),
{
    get_app_data_dir(p, xdg_data_home)
}

/// The config directory of the application.
pub fn get_config_dir(p: Platform, xdg_config_home: Option<String>) -> (r: String)
    ensures
        is_app_dir(p, opt_view(xdg_config_home), r@),
        p == Platform::Linux && xdg_config_home is Some ==> r@ == path_join(
            p,
            xdg_config_home->0@,
            "opencode"@,
        ),
        uses_platform_dir(p, opt_view(xdg_config_home)) ==> exists|d: Option<String>|
            reported_config_dir(d) && r@ == app_dir(p, opt_view(xdg_config_home), opt_view(d)),
{
    get_app_config_dir(p, xdg_config_home)
}

/// The cache directory of the application.
pub fn get_cache_dir(p: Platform, xdg_cache_home: Option<String>) -> (r: String)
    ensures
        is_app_dir(p, opt_view(xdg_cache_home), r@),
        p == Platform::Linux && xdg_cache_home is Some ==> r@ == path_join(
            p,
            xdg_cache_home->0@,
            "opencode"@,
        ),
        uses_platform_dir(p, opt_view(xdg_cache_home)) ==> exists|d: Option<String>|
            reported_cache_dir(d) && r@ == app_dir(p, opt_view(xdg_cache_home), opt_view(d)),
{
    get_app_cache_dir(p, xdg_cache_home)
}

// ============================================================================
// Window events
// ============================================================================

/// A window event, as far as the application tells them apart.
#[derive(Debug, Clone, Copy, PartialEq, Eq, Structural)]
pub enum WindowEventKind {
    CloseRequested,
    Destroyed,
    Focused(bool),
    Resized,
    Moved,
    ScaleFactorChanged,
    Other,
}

/// What the application does about a window event.
#[derive(Debug, Clone, Copy, PartialEq, Eq, Structural)]
pub enum WindowEventAction {
    /// Keep the window open and hide it instead.
    HideInsteadOfClose,
    /// The main window is gone: forget it.
    ForgetMainWindow,
    /// Nothing beyond logging.
    Nothing,
}

fn same_label(a: &String, b: &Option<String>) -> (r: bool)
    ensures
        r == (b matches Some(l) && l@ == a@),
{
    match b {
        Some(l) => *l == *a,
        None => false,
    }
}

/// The answer to an event of a window labelled `window_label` while the
/// main window has label `main_label`: a close request hides the window;
/// the destruction of the main window forgets it.
pub fn handle_window_event(event: WindowEventKind, window_label: &String, main_label: &Option<String>) -> (a: WindowEventAction)
    ensures
        event == WindowEventKind::CloseRequested ==> a == WindowEventAction::HideInsteadOfClose,
        event == WindowEventKind::Destroyed ==> (a == WindowEventAction::ForgetMainWindow <==> (
        main_label matches Some(l) && l@ == window_label@)),
        event == WindowEventKind::Destroyed && a != WindowEventAction::ForgetMainWindow ==> a
            == WindowEventAction::Nothing,
        event != WindowEventKind::CloseRequested && event != WindowEventKind::Destroyed ==> a
            == WindowEventAction::Nothing,
{
    match event {
        WindowEventKind::CloseRequested => WindowEventAction::HideInsteadOfClose,
        WindowEventKind::Destroyed => if same_label(window_label, main_label) {
            WindowEventAction::ForgetMainWindow
        } else {
            WindowEventAction::Nothing
        },
        _ => WindowEventAction::Nothing,
    }
}

/// The answer to an event of any window: a close request hides it.
pub fn handle_global_window_event(event: WindowEventKind) -> (a: WindowEventAction)
    ensures
        event == WindowEventKind::CloseRequested ==> a == WindowEventAction::HideInsteadOfClose,
        event != WindowEventKind::CloseRequested ==> a == WindowEventAction::Nothing,
{
    match event {
        WindowEventKind::CloseRequested => WindowEventAction::HideInsteadOfClose,
        _ => WindowEventAction::Nothing,
    }
}

} // verus!
