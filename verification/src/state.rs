//! The application state that the desktop commands read and change: the
//! sidecar server's address and credentials, window preferences, pending
//! deep links, WSL servers, the updater and the key-value stores.

use vstd::prelude::*;
use vstd::string::StringExecFns;
use crate::assoc::StrMap;
use crate::commands::{ServerReadyData, WslServerConfig};
use crate::text::clone_opt_string;

verus! {

// ============================================================================
// Updater state
// ============================================================================

/// The updater's state. `F` is the type of the download progress (a
/// floating-point type in the application).
#[derive(Debug)]
pub struct UpdaterState<F> {
    pub status: String,
    pub message: Option<String>,
    pub version: Option<String>,
    pub progress: Option<F>,
}

impl<F> Default for UpdaterState<F> {
    /// Idle, with no message, version or progress.
    fn default() -> (r: Self)
        ensures
            r.status@ == "idle"@,
            r.message is None,
            r.version is None,
            r.progress is None,
    {
        UpdaterState {
            status: String::from_str("idle"),
            message: None,
            version: None,
            progress: None,
        }
    }
}

impl<F: Copy> Clone for UpdaterState<F> {
    fn clone(&self) -> (r: Self)
        ensures
            r == *self,
    {
        UpdaterState {
            status: self.status.clone(),
            message: clone_opt_string(&self.message),
            version: clone_opt_string(&self.version),
            progress: self.progress,
        }
    }
}

// ============================================================================
// Key-value stores
// ============================================================================

/// The contents of the named stores: store name to key to value.
pub type StoreView = Map<Seq<char>, Map<Seq<char>, Seq<char>>>;

/// The value under `key` in store `name`.
pub open spec fn store_lookup(s: StoreView, name: Seq<char>, key: Seq<char>) -> Option<Seq<char>> {
    if s.contains_key(name) && s[name].contains_key(key) {
        Some(s[name][key])
    } else {
        None
    }
}

/// `s` with `value` stored under `key` in store `name`; the store is
/// created if there is none.
pub open spec fn store_with(s: StoreView, name: Seq<char>, key: Seq<char>, value: Seq<char>) -> StoreView {
    let inner = if s.contains_key(name) { s[name] } else { Map::empty() };
    s.insert(name, inner.insert(key, value))
}

/// `s` without `key` in store `name`; an existing store stays, even empty.
pub open spec fn store_without(s: StoreView, name: Seq<char>, key: Seq<char>) -> StoreView {
    if s.contains_key(name) {
        s.insert(name, s[name].remove(key))
    } else {
        s
    }
}

/// The number of keys in store `name` (0 if there is no such store).
pub open spec fn store_size(s: StoreView, name: Seq<char>) -> nat {
    if s.contains_key(name) { s[name].len() } else { 0 }
}

/// The keys of store `name` (none if there is no such store).
pub open spec fn store_key_set(s: StoreView, name: Seq<char>) -> Set<Seq<char>> {
    if s.contains_key(name) { s[name].dom() } else { Set::empty() }
}

/// The views of a vector of strings.
pub open spec fn string_views(v: Seq<String>) -> Seq<Seq<char>> {
    v.map_values(|w: String| w@)
}

// ============================================================================
// Application state
// ============================================================================

/// The state shared by the desktop commands. `F` is the type of the
/// updater's progress.
pub struct AppState<F> {
    pub server_url: Option<String>,
    pub server_username: Option<String>,
    pub server_password: Option<String>,
    pub background_color: Option<String>,
    pub pinch_zoom_enabled: bool,
    pub pending_deep_links: Vec<String>,
    pub updater_state: UpdaterState<F>,
    pub wsl_servers: StrMap<WslServerConfig>,
    pub store_data: StrMap<StrMap<String>>,
}

impl<F: Copy> AppState<F> {
    /// Well-formedness of the maps.
    pub closed spec fn wf(&self) -> bool {
        &&& self.wsl_servers.wf()
        &&& self.store_data.wf()
        &&& forall|n: Seq<char>| #[trigger]
            self.store_data@.contains_key(n) ==> self.store_data@[n].wf()
    }

    /// The WSL servers by id.
    pub closed spec fn wsl_view(&self) -> Map<Seq<char>, WslServerConfig> {
        self.wsl_servers@
    }

    /// The contents of the key-value stores.
    pub closed spec fn store_view(&self) -> StoreView {
        self.store_data@.map_values(|m: StrMap<String>| m@.map_values(|v: String| v@))
    }

    /// Everything but the stores, the WSL servers and the updater is as in
    /// `other`.
    pub open spec fn same_session(&self, other: &Self) -> bool {
        &&& self.server_url == other.server_url
        &&& self.server_username == other.server_username
        &&& self.server_password == other.server_password
        &&& self.background_color == other.background_color
        &&& self.pinch_zoom_enabled == other.pinch_zoom_enabled
        &&& self.pending_deep_links@ == other.pending_deep_links@
    }

    /// The stores and the WSL servers are as in `other`.
    pub open spec fn same_maps(&self, other: &Self) -> bool {
        &&& self.store_view() == other.store_view()
        &&& self.wsl_view() == other.wsl_view()
    }

    /// A fresh state: no server, no colour, pinch zoom off, no deep links,
    /// no WSL servers, an idle updater and no stores.
    pub fn new() -> (s: Self)
        ensures
            s.wf(),
            s.server_url is None,
            s.server_username is None,
            s.server_password is None,
            s.background_color is None,
            !s.pinch_zoom_enabled,
            s.pending_deep_links@.len() == 0,
            s.updater_state.status@ == "idle"@,
            s.updater_state.message is None,
            s.updater_state.version is None,
            s.updater_state.progress is None,
            s.wsl_view() == Map::<Seq<char>, WslServerConfig>::empty(),
            s.store_view() == StoreView::empty(),
    {
        let s = AppState {
            server_url: None,
            server_username: None,
            server_password: None,
            background_color: None,
            pinch_zoom_enabled: false,
            pending_deep_links: Vec::new(),
            updater_state: UpdaterState::default(),
            wsl_servers: StrMap::new(),
            store_data: StrMap::new(),
        };
        assert(s.store_view() =~= StoreView::empty());
        s
    }
}

impl<F: Copy> AppState<F> {
    // ---------------------------------------------------------------- window

    /// Whether pinch zoom is enabled.
    pub fn get_pinch_zoom_enabled(&self) -> (b: bool)
        ensures
            b == self.pinch_zoom_enabled,
    {
        self.pinch_zoom_enabled
    }

    /// Enables or disables pinch zoom.
    pub fn set_pinch_zoom_enabled(&mut self, enabled: bool)
        ensures
            final(self).pinch_zoom_enabled == enabled,
            final(self).background_color == old(self).background_color,
            final(self).server_url == old(self).server_url,
            final(self).server_username == old(self).server_username,
            final(self).server_password == old(self).server_password,
            final(self).pending_deep_links@ == old(self).pending_deep_links@,
            final(self).updater_state == old(self).updater_state,
            final(self).wsl_servers == old(self).wsl_servers,
            final(self).store_data == old(self).store_data,
    {
        self.pinch_zoom_enabled = enabled;
    }

    /// Records the window background colour.
    pub fn set_background_color(&mut self, color: String)
        ensures
            final(self).background_color == Some(color),
            final(self).pinch_zoom_enabled == old(self).pinch_zoom_enabled,
            final(self).server_url == old(self).server_url,
            final(self).server_username == old(self).server_username,
            final(self).server_password == old(self).server_password,
            final(self).pending_deep_links@ == old(self).pending_deep_links@,
            final(self).updater_state == old(self).updater_state,
            final(self).wsl_servers == old(self).wsl_servers,
            final(self).store_data == old(self).store_data,
    {
        self.background_color = Some(color);
    }

    // ---------------------------------------------------------------- sidecar

    /// Records where the sidecar server listens and its credentials.
    pub fn record_sidecar(&mut self, url: String, username: String, password: String)
        ensures
            final(self).server_url == Some(url),
            final(self).server_username == Some(username),
            final(self).server_password == Some(password),
            final(self).background_color == old(self).background_color,
            final(self).pinch_zoom_enabled == old(self).pinch_zoom_enabled,
            final(self).pending_deep_links@ == old(self).pending_deep_links@,
            final(self).updater_state == old(self).updater_state,
            final(self).wsl_servers == old(self).wsl_servers,
            final(self).store_data == old(self).store_data,
    {
        self.server_url = Some(url);
        self.server_username = Some(username);
        self.server_password = Some(password);
    }

    /// Forgets the server address once the sidecar has been stopped; the
    /// credentials stay.
    pub fn kill_sidecar(&mut self)
        ensures
            final(self).server_url is None,
            final(self).server_username == old(self).server_username,
            final(self).server_password == old(self).server_password,
            final(self).background_color == old(self).background_color,
            final(self).pinch_zoom_enabled == old(self).pinch_zoom_enabled,
            final(self).pending_deep_links@ == old(self).pending_deep_links@,
            final(self).updater_state == old(self).updater_state,
            final(self).wsl_servers == old(self).wsl_servers,
            final(self).store_data == old(self).store_data,
    {
        self.server_url = None;
    }

    /// Whether the sidecar is ready, and if so its address and credentials:
    /// none while no server address is known; otherwise the address with
    /// the stored credentials.
    pub fn await_initialization(&self) -> (d: Option<ServerReadyData>)
        ensures
            self.server_url is None <==> d is None,
            d matches Some(r) ==> r.url == self.server_url->0 && r.username == self.server_username
                && r.password == self.server_password,
    {
        match &self.server_url {
            Some(u) => Some(
                ServerReadyData {
                    url: u.clone(),
                    username: clone_opt_string(&self.server_username),
                    password: clone_opt_string(&self.server_password),
                },
            ),
            None => None,
        }
    }

    /// Hands out the pending deep links and forgets them.
    pub fn consume_initial_deep_links(&mut self) -> (links: Vec<String>)
        ensures
            links@ == old(self).pending_deep_links@,
            final(self).pending_deep_links@.len() == 0,
            final(self).server_url == old(self).server_url,
            final(self).server_username == old(self).server_username,
            final(self).server_password == old(self).server_password,
            final(self).background_color == old(self).background_color,
            final(self).pinch_zoom_enabled == old(self).pinch_zoom_enabled,
            final(self).updater_state == old(self).updater_state,
            final(self).wsl_servers == old(self).wsl_servers,
            final(self).store_data == old(self).store_data,
    {
        let mut links: Vec<String> = Vec::new();
        std::mem::swap(&mut links, &mut self.pending_deep_links);
        links
    }

    /// The server's address, if any.
    pub fn get_default_server_url(&self) -> (u: Option<String>)
        ensures
            u == self.server_url,
    {
        clone_opt_string(&self.server_url)
    }

    /// Sets or clears the server's address.
    pub fn set_default_server_url(&mut self, url: Option<String>)
        ensures
            final(self).server_url == url,
            final(self).server_username == old(self).server_username,
            final(self).server_password == old(self).server_password,
            final(self).background_color == old(self).background_color,
            final(self).pinch_zoom_enabled == old(self).pinch_zoom_enabled,
            final(self).pending_deep_links@ == old(self).pending_deep_links@,
            final(self).updater_state == old(self).updater_state,
            final(self).wsl_servers == old(self).wsl_servers,
            final(self).store_data == old(self).store_data,
    {
        self.server_url = url;
    }
}

impl<F: Copy> AppState<F> {
    // ---------------------------------------------------------------- stores

    /// The value under `key` in store `name`.
    pub fn store_get(&self, name: &String, key: &String) -> (r: Option<String>)
        requires
            self.wf(),
        ensures
            crate::config::opt_view(r) == store_lookup(self.store_view(), name@, key@),
    {
        match self.store_data.get(name) {
            Some(m) => match m.get(key) {
                Some(v) => Some(v.clone()),
                None => None,
            },
            None => None,
        }
    }

    /// Stores `value` under `key` in store `name`, creating the store.
    pub fn store_set(&mut self, name: String, key: String, value: String)
        requires
            old(self).wf(),
        ensures
            final(self).wf(),
            final(self).store_view() == store_with(old(self).store_view(), name@, key@, value@),
            final(self).wsl_view() == old(self).wsl_view(),
            final(self).same_session(old(self)),
            final(self).updater_state == old(self).updater_state,
    {
        let ghost n = name@;
        let ghost old_view = self.store_view();
        let mut inner = match self.store_data.remove(&name) {
            Some(m) => m,
            None => StrMap::new(),
        };
        let ghost old_inner = inner@;
        inner.insert(key, value);
        let ghost new_inner = inner@;
        self.store_data.insert(name, inner);
        proof {
            let expected = store_with(old_view, n, key@, value@);
            assert(self.store_data@ =~= old(self).store_data@.insert(n, inner));
            assert forall|q: Seq<char>| #[trigger]
                self.store_data@.contains_key(q) implies self.store_data@[q].wf() by {
                if q != n {
                    assert(old(self).store_data@.contains_key(q));
                }
            }
            let v = |m: StrMap<String>| m@.map_values(|w: String| w@);
            assert(v(inner) =~= (if old_view.contains_key(n) { old_view[n] } else { Map::empty() }).insert(
                key@,
                value@,
            ));
            assert(self.store_view() =~= expected);
        }
    }

    /// Removes `key` from store `name`; the store stays, even if empty.
    pub fn store_delete(&mut self, name: &String, key: &String)
        requires
            old(self).wf(),
        ensures
            final(self).wf(),
            final(self).store_view() == store_without(old(self).store_view(), name@, key@),
            final(self).wsl_view() == old(self).wsl_view(),
            final(self).same_session(old(self)),
            final(self).updater_state == old(self).updater_state,
    {
        let ghost n = name@;
        let ghost old_view = self.store_view();
        match self.store_data.remove(name) {
            Some(mut m) => {
                m.remove(key);
                self.store_data.insert(name.clone(), m);
                proof {
                    assert(self.store_data@ =~= old(self).store_data@.insert(n, m));
                    assert forall|q: Seq<char>| #[trigger]
                        self.store_data@.contains_key(q) implies self.store_data@[q].wf() by {
                        if q != n {
                            assert(old(self).store_data@.contains_key(q));
                        }
                    }
                    let v = |m: StrMap<String>| m@.map_values(|w: String| w@);
                    assert(v(m) =~= old_view[n].remove(key@));
                    assert(self.store_view() =~= store_without(old_view, n, key@));
                }
            },
            None => {
                assert(self.store_view() =~= store_without(old_view, n, key@));
            },
        }
    }

    /// Removes store `name` with all its keys.
    pub fn store_clear(&mut self, name: &String)
        requires
            old(self).wf(),
        ensures
            final(self).wf(),
            final(self).store_view() == old(self).store_view().remove(name@),
            final(self).wsl_view() == old(self).wsl_view(),
            final(self).same_session(old(self)),
            final(self).updater_state == old(self).updater_state,
    {
        self.store_data.remove(name);
        proof {
            assert forall|q: Seq<char>| #[trigger]
                self.store_data@.contains_key(q) implies self.store_data@[q].wf() by {
                assert(old(self).store_data@.contains_key(q));
            }
            assert(self.store_view() =~= old(self).store_view().remove(name@));
        }
    }

    /// The keys of store `name`, each once (none if there is no such
    /// store).
    pub fn store_keys(&self, name: &String) -> (r: Vec<String>)
        requires
            self.wf(),
        ensures
            string_views(r@).no_duplicates(),
            string_views(r@).to_set() == store_key_set(self.store_view(), name@),
            string_views(r@).len() == store_size(self.store_view(), name@),
    {
        match self.store_data.get(name) {
            Some(m) => {
                let r = m.keys();
                proof {
                    m.lemma_key_order();
                    assert(string_views(r@) == m.key_order());
                    assert(self.store_view()[name@].dom() =~= m@.dom());
                }
                r
            },
            None => {
                let r: Vec<String> = Vec::new();
                assert(string_views(r@).to_set() =~= Set::<Seq<char>>::empty());
                r
            },
        }
    }

    /// The number of keys in store `name` (0 if there is no such store).
    pub fn store_length(&self, name: &String) -> (n: usize)
        requires
            self.wf(),
        ensures
            n == store_size(self.store_view(), name@),
    {
        match self.store_data.get(name) {
            Some(m) => {
                proof {
                    m.lemma_key_order();
                    assert(self.store_view()[name@].dom() =~= m@.dom());
                }
                m.len()
            },
            None => 0,
        }
    }
}

impl<F: Copy> AppState<F> {
    // ---------------------------------------------------------------- updater

    /// The updater's state, to send to a subscriber.
    pub fn updater_state(&self) -> (u: UpdaterState<F>)
        ensures
            u == self.updater_state,
    {
        self.updater_state.clone()
    }

    /// Starts an update check: the status becomes "checking".
    pub fn updater_check_begin(&mut self)
        ensures
            final(self).updater_state.status@ == "checking"@,
            final(self).updater_state.message matches Some(m) && m@ == "Checking for updates..."@,
            final(self).updater_state.version == old(self).updater_state.version,
            final(self).updater_state.progress == old(self).updater_state.progress,
            final(self).same_session(old(self)),
            final(self).wsl_servers == old(self).wsl_servers,
            final(self).store_data == old(self).store_data,
    {
        self.updater_state.status = String::from_str("checking");
        self.updater_state.message = Some(String::from_str("Checking for updates..."));
    }

    /// Ends an update check: no update is available, the status becomes
    /// "up-to-date", and the new state is handed back.
    pub fn updater_check_finish(&mut self) -> (u: UpdaterState<F>)
        ensures
            final(self).updater_state.status@ == "up-to-date"@,
            final(self).updater_state.message matches Some(m) && m@ == "No updates available"@,
            final(self).updater_state.version == old(self).updater_state.version,
            final(self).updater_state.progress == old(self).updater_state.progress,
            u == final(self).updater_state,
            final(self).same_session(old(self)),
            final(self).wsl_servers == old(self).wsl_servers,
            final(self).store_data == old(self).store_data,
    {
        self.updater_state.status = String::from_str("up-to-date");
        self.updater_state.message = Some(String::from_str("No updates available"));
        self.updater_state.clone()
    }

    /// Starts installing an update. Only an update whose status is "ready"
    /// can be installed: the status then becomes "installing"; otherwise
    /// nothing changes and an error comes back.
    pub fn updater_install_begin(&mut self) -> (r: Result<(), String>)
        ensures
            old(self).updater_state.status@ == "ready"@ <==> r is Ok,
            r matches Err(m) ==> m@ == "Update is not ready to install"@,
            r is Err ==> final(self).updater_state == old(self).updater_state,
            r is Ok ==> final(self).updater_state.status@ == "installing"@,
            r is Ok ==> (final(self).updater_state.message matches Some(m) && m@
                == "Installing update..."@),
            final(self).updater_state.version == old(self).updater_state.version,
            final(self).updater_state.progress == old(self).updater_state.progress,
            final(self).same_session(old(self)),
            final(self).wsl_servers == old(self).wsl_servers,
            final(self).store_data == old(self).store_data,
    {
        let ready = String::from_str("ready");
        if self.updater_state.status != ready {
            return Err(String::from_str("Update is not ready to install"));
        }
        self.updater_state.status = String::from_str("installing");
        self.updater_state.message = Some(String::from_str("Installing update..."));
        Ok(())
    }

    // ---------------------------------------------------------------- WSL

    /// The WSL servers, each with its id, in the order they were added.
    pub fn wsl_servers_get_state(&self) -> (r: Vec<(String, WslServerConfig)>)
        requires
            self.wf(),
        ensures
            r@.len() == self.wsl_view().len(),
            r@.map_values(|e: (String, WslServerConfig)| e.0@).no_duplicates(),
            r@.map_values(|e: (String, WslServerConfig)| e.0@).to_set() == self.wsl_view().dom(),
            forall|i: int|
                0 <= i < r@.len() ==> self.wsl_view().contains_key(#[trigger] r@[i].0@)
                    && r@[i].1 == self.wsl_view()[r@[i].0@],
    {
        proof {
            self.wsl_servers.lemma_key_order();
        }
        let n = self.wsl_servers.len();
        let mut r: Vec<(String, WslServerConfig)> = Vec::new();
        let mut i: usize = 0;
        while i < n
            invariant
                self.wf(),
                i <= n == self.wsl_view().len(),
                n == self.wsl_servers.key_order().len(),
                r@.len() == i,
                r@.map_values(|e: (String, WslServerConfig)| e.0@) =~= self.wsl_servers.key_order().subrange(0, i as int),
                forall|j: int|
                    0 <= j < r@.len() ==> self.wsl_view().contains_key(#[trigger] r@[j].0@)
                        && r@[j].1 == self.wsl_view()[r@[j].0@],
            decreases n - i,
        {
            let (k, v) = self.wsl_servers.entry(i);
            let ghost before = r@;
            r.push((k.clone(), v.clone()));
            assert(r@ =~= before.push(r@[i as int]));
            assert(r@.map_values(|e: (String, WslServerConfig)| e.0@) =~= before.map_values(
                |e: (String, WslServerConfig)| e.0@,
            ).push(self.wsl_servers.key_order()[i as int]));
            i = i + 1;
        }
        assert(self.wsl_servers.key_order().subrange(0, n as int) =~= self.wsl_servers.key_order());
        r
    }

    /// Adds a WSL server under its id, replacing one with the same id.
    pub fn wsl_servers_add_server(&mut self, config: WslServerConfig)
        requires
            old(self).wf(),
        ensures
            final(self).wf(),
            final(self).wsl_view() == old(self).wsl_view().insert(config.id@, config),
            final(self).store_view() == old(self).store_view(),
            final(self).same_session(old(self)),
            final(self).updater_state == old(self).updater_state,
    {
        let id = config.id.clone();
        self.wsl_servers.insert(id, config);
    }

    /// Removes the WSL server with id `id`, if there is one.
    pub fn wsl_servers_remove_server(&mut self, id: &String)
        requires
            old(self).wf(),
        ensures
            final(self).wf(),
            final(self).wsl_view() == old(self).wsl_view().remove(id@),
            final(self).store_view() == old(self).store_view(),
            final(self).same_session(old(self)),
            final(self).updater_state == old(self).updater_state,
    {
        self.wsl_servers.remove(id);
    }

    /// Checks that a WSL server with id `id` exists before it is started.
    pub fn wsl_servers_start_server(&self, id: &String) -> (r: Result<(), String>)
        requires
            self.wf(),
        ensures
            r is Ok <==> self.wsl_view().contains_key(id@),
            r matches Err(m) ==> m@ == "WSL server not found: "@ + id@,
    {
        if self.wsl_servers.contains_key(id) {
            Ok(())
        } else {
            let mut m = String::from_str("WSL server not found: ");
            m.append(id.as_str());
            Err(m)
        }
    }
}

// ============================================================================
// Laws
// ============================================================================

/// Reading a key just written gives the written value.
pub proof fn law_store_read_after_write(s: StoreView, name: Seq<char>, key: Seq<char>, value: Seq<char>)
    ensures
        store_lookup(store_with(s, name, key, value), name, key) == Some(value),
{
}

/// Writing a key leaves every other key of every store as it was.
pub proof fn law_store_write_keeps_others(
    s: StoreView,
    name: Seq<char>,
    key: Seq<char>,
    value: Seq<char>,
    other_name: Seq<char>,
    other_key: Seq<char>,
)
    requires
        other_name != name || other_key != key,
    ensures
        store_lookup(store_with(s, name, key, value), other_name, other_key) == store_lookup(
            s,
            other_name,
            other_key,
        ),
{
}

/// A deleted key reads as absent, and every other key stays as it was.
pub proof fn law_store_read_after_delete(
    s: StoreView,
    name: Seq<char>,
    key: Seq<char>,
    other_name: Seq<char>,
    other_key: Seq<char>,
)
    ensures
        store_lookup(store_without(s, name, key), name, key) is None,
        other_name != name || other_key != key ==> store_lookup(
            store_without(s, name, key),
            other_name,
            other_key,
        ) == store_lookup(s, other_name, other_key),
{
}

/// After a store is cleared, no key reads in it and it has no keys.
pub proof fn law_store_cleared(s: StoreView, name: Seq<char>, key: Seq<char>)
    ensures
        store_lookup(s.remove(name), name, key) is None,
        store_size(s.remove(name), name) == 0,
        store_key_set(s.remove(name), name) == Set::<Seq<char>>::empty(),
{
}

/// Writing a new key grows its store by one; overwriting a key leaves the
/// size as it was.
pub proof fn law_store_write_size(s: StoreView, name: Seq<char>, key: Seq<char>, value: Seq<char>)
    requires
        s.contains_key(name) ==> s[name].dom().finite(),
    ensures
        store_size(store_with(s, name, key, value), name) == store_size(s, name) + (if store_lookup(
            s,
            name,
            key,
        ) is Some {
            0int
        } else {
            1int
        }),
{
    let inner = if s.contains_key(name) { s[name] } else { Map::<Seq<char>, Seq<char>>::empty() };
    assert(inner.dom().finite());
    if inner.contains_key(key) {
        assert(inner.insert(key, value).dom() =~= inner.dom());
    } else {
        assert(inner.insert(key, value).dom() =~= inner.dom().insert(key));
    }
}

/// A server that was just added can be started; one that was just
/// removed cannot.
pub proof fn law_wsl_added_server_starts(
    servers: Map<Seq<char>, WslServerConfig>,
    config: WslServerConfig,
    removed: Seq<char>,
)
    ensures
        servers.insert(config.id@, config).contains_key(config.id@),
        !servers.remove(removed).contains_key(removed),
{
}

} // verus!
