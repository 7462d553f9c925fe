//! Terminal sessions: their configuration, the bookkeeping of open
//! sessions and the choice of shell.

use std::collections::HashMap;
use vstd::prelude::*;
use vstd::string::{StrSliceExecFns, StringExecFns};
use crate::assoc::StrMap;
use crate::config::{opt_view, Platform};
use crate::text::{clone_opt_string, decimal, decimal_string};
use vstd::utf8::{decode_utf8, valid_utf8};

verus! {

// ============================================================================
// Types
// ============================================================================

/// The configuration of a terminal session.
#[derive(Debug)]
pub struct TerminalConfig {
    pub id: String,
    pub shell: String,
    pub cwd: Option<String>,
    pub cols: u16,
    pub rows: u16,
    pub env: HashMap<String, String>,
}

/// What a `TerminalConfig` holds.
pub struct TerminalConfigView {
    pub id: Seq<char>,
    pub shell: Seq<char>,
    pub cwd: Option<Seq<char>>,
    pub cols: u16,
    pub rows: u16,
    pub env: Map<String, String>,
}

impl View for TerminalConfig {
    type V = TerminalConfigView;

    open spec fn view(&self) -> TerminalConfigView {
        TerminalConfigView {
            id: self.id@,
            shell: self.shell@,
            cwd: opt_view(self.cwd),
            cols: self.cols,
            rows: self.rows,
            env: self.env@,
        }
    }
}

impl Clone for TerminalConfig {
    fn clone(&self) -> (r: Self)
        ensures
            r@ == self@,
    {
        TerminalConfig {
            id: self.id.clone(),
            shell: self.shell.clone(),
            cwd: clone_opt_string(&self.cwd),
            cols: self.cols,
            rows: self.rows,
            env: self.env.clone(),
        }
    }
}

impl Default for TerminalConfig {
    /// No id, the platform's shell, no working directory, 80 columns by 25
    /// rows, no extra environment.
    fn default() -> (r: Self)
        ensures
            r.id@ == Seq::<char>::empty(),
            r.shell@ == Seq::<char>::empty(),
            r.cwd is None,
            r.cols == 80,
            r.rows == 25,
            r.env@ == Map::<String, String>::empty(),
    {
        TerminalConfig {
            id: String::new(),
            shell: String::new(),
            cwd: None,
            cols: 80,
            rows: 25,
            env: HashMap::new(),
        }
    }
}

/// Output of a terminal session.
#[derive(Debug)]
pub struct TerminalOutput {
    pub id: String,
    pub data: String,
}

/// The size of a terminal.
#[derive(Debug, Clone, Copy)]
pub struct TerminalSize {
    pub cols: u16,
    pub rows: u16,
}

/// An open terminal session. `H` holds what the operating system gave for
/// it (the pseudo-terminal and the process).
pub struct TerminalSession<H> {
    pub id: String,
    pub config: TerminalConfig,
    pub handles: H,
}

// ============================================================================
// Session bookkeeping
// ============================================================================

/// The open terminal sessions and the number of the next one.
pub struct TerminalManager<H> {
    sessions: StrMap<TerminalSession<H>>,
    next_id: u64,
}

impl<H> TerminalManager<H> {
    /// The open sessions by id.
    pub closed spec fn sessions(&self) -> Map<Seq<char>, TerminalSession<H>> {
        self.sessions@
    }

    /// The number that the next session gets.
    pub closed spec fn next_number(&self) -> u64 {
        self.next_id
    }

    /// Well-formedness: every session is filed under its own id, which is
    /// the decimal notation of a number handed out before.
    pub closed spec fn wf(&self) -> bool {
        &&& self.sessions.wf()
        &&& self.next_id >= 1
        &&& forall|k: Seq<char>| #[trigger]
            self.sessions@.contains_key(k) ==> self.sessions@[k].id@ == k && exists|n: u64|
                1 <= n < self.next_id && k == decimal(n as nat)
    }

    /// No sessions; the first session gets number 1.
    pub fn new() -> (m: Self)
        ensures
            m.wf(),
            m.sessions() == Map::<Seq<char>, TerminalSession<H>>::empty(),
            m.next_number() == 1,
    {
        TerminalManager { sessions: StrMap::new(), next_id: 1 }
    }

    /// The number that the next session gets.
    pub fn next_id(&self) -> (n: u64)
        ensures
            n == self.next_number(),
    {
        self.next_id
    }

    /// A well-formed manager hands out positive numbers, and the id of the
    /// next number belongs to no open session.
    pub proof fn law_next_id_is_fresh(&self)
        requires
            self.wf(),
        ensures
            self.next_number() >= 1,
            !self.sessions().contains_key(decimal(self.next_number() as nat)),
    {
        let n = self.next_id;
        if self.sessions@.contains_key(decimal(n as nat)) {
            let m = choose|m: u64| 1 <= m < n && decimal(n as nat) == decimal(m as nat);
            crate::text::lemma_decimal_injective(n as nat, m as nat);
        }
    }

    /// Hands out the number of a new session; its id is the decimal notation
    /// of that number, which no open session has.
    pub fn allocate_id(&mut self) -> (n: u64)
        requires
            old(self).wf(),
            old(self).next_number() < u64::MAX,
        ensures
            final(self).wf(),
            n == old(self).next_number(),
            n >= 1,
            final(self).next_number() == n + 1,
            final(self).sessions() == old(self).sessions(),
            !final(self).sessions().contains_key(decimal(n as nat)),
    {
        let n = self.next_id;
        proof {
            self.law_next_id_is_fresh();
        }
        self.next_id = n + 1;
        n
    }

    /// Files the session numbered `n` with its configuration and handles.
    pub fn insert_session(&mut self, n: u64, config: TerminalConfig, handles: H) -> (id: String)
        requires
            old(self).wf(),
            1 <= n < old(self).next_number(),
        ensures
            final(self).wf(),
            id@ == decimal(n as nat),
            final(self).next_number() == old(self).next_number(),
            final(self).sessions().dom() == old(self).sessions().dom().insert(id@),
            final(self).sessions()[id@].id == id,
            final(self).sessions()[id@].config == config,
            final(self).sessions()[id@].handles == handles,
            forall|k: Seq<char>|
                k != id@ && #[trigger] old(self).sessions().contains_key(k)
                    ==> final(self).sessions()[k] == old(self).sessions()[k],
    {
        let id = decimal_string(n);
        let session = TerminalSession { id: id.clone(), config, handles };
        self.sessions.insert(id.clone(), session);
        proof {
            assert forall|k: Seq<char>| #[trigger]
                self.sessions@.contains_key(k) implies self.sessions@[k].id@ == k && exists|m: u64|
                1 <= m < self.next_id && k == decimal(m as nat) by {
                if k != id@ {
                    assert(old(self).sessions@.contains_key(k));
                }
            }
            assert(self.sessions@.dom() =~= old(self).sessions@.dom().insert(id@));
        }
        id
    }

    /// Removes session `id` and hands back what it held, if it was open.
    pub fn destroy_session(&mut self, id: &String) -> (r: Option<TerminalSession<H>>)
        requires
            old(self).wf(),
        ensures
            final(self).wf(),
            final(self).sessions() == old(self).sessions().remove(id@),
            final(self).next_number() == old(self).next_number(),
            r == (if old(self).sessions().contains_key(id@) {
                Some(old(self).sessions()[id@])
            } else {
                None::<TerminalSession<H>>
            }),
    {
        let r = self.sessions.remove(id);
        proof {
            assert forall|k: Seq<char>| #[trigger]
                self.sessions@.contains_key(k) implies self.sessions@[k].id@ == k && exists|m: u64|
                1 <= m < self.next_id && k == decimal(m as nat) by {
                assert(old(self).sessions@.contains_key(k));
            }
        }
        r
    }

    /// Session `id`, if it is open.
    pub fn session(&self, id: &String) -> (r: Option<&TerminalSession<H>>)
        requires
            self.wf(),
        ensures
            match r {
                Some(s) => self.sessions().contains_key(id@) && *s == self.sessions()[id@],
                None => !self.sessions().contains_key(id@),
            },
    {
        self.sessions.get(id)
    }

    /// The ids of the open sessions, each once.
    pub fn list_sessions(&self) -> (r: Vec<String>)
        requires
            self.wf(),
        ensures
            r@.map_values(|k: String| k@).no_duplicates(),
            r@.map_values(|k: String| k@).to_set() == self.sessions().dom(),
            r@.len() == self.sessions().len(),
    {
        proof {
            self.sessions.lemma_key_order();
        }
        self.sessions.keys()
    }

    /// The configuration of session `id`, or an error if it is not open.
    pub fn get_session_info(&self, id: &String) -> (r: Result<TerminalConfig, String>)
        requires
            self.wf(),
        ensures
            self.sessions().contains_key(id@) ==> (r matches Ok(c) && c@ == self.sessions()[id@].config@),
            !self.sessions().contains_key(id@) ==> (r matches Err(m) && m@ == "未找到终端会话: "@
                + id@),
    {
        match self.sessions.get(id) {
            Some(s) => Ok(s.config.clone()),
            None => {
                let mut m = String::from_str("未找到终端会话: ");
                m.append(id.as_str());
                Err(m)
            },
        }
    }
}

// ============================================================================
// Choosing the shell
// ============================================================================

/// PowerShell's usual location.
pub open spec fn powershell_path() -> Seq<char> {
    "C:\\Windows\\System32\\WindowsPowerShell\\v1.0\\powershell.exe"@
}

/// The paths whose existence decides the shell, in the order they are
/// tried: on Windows PowerShell; on macOS zsh, bash and sh in `/bin`; on
/// Linux the user's `$SHELL` if set, then bash and sh in `/bin` and in
/// `/usr/bin`.
pub open spec fn shell_probe_paths(p: Platform, env_shell: Option<Seq<char>>) -> Seq<Seq<char>> {
    if p == Platform::Windows {
        seq![powershell_path()]
    } else if p == Platform::MacOs {
        seq!["/bin/zsh"@, "/bin/bash"@, "/bin/sh"@]
    } else {
        let common = seq!["/bin/bash"@, "/bin/sh"@, "/usr/bin/bash"@, "/usr/bin/sh"@];
        match env_shell {
            Some(s) => seq![s] + common,
            None => common,
        }
    }
}

/// The first of `paths` that exists, if any.
pub open spec fn first_existing(paths: Seq<Seq<char>>, exists: Seq<bool>) -> Option<Seq<char>>
    decreases paths.len(),
{
    if paths.len() == 0 {
        None
    } else if exists[0] {
        Some(paths[0])
    } else {
        first_existing(paths.drop_first(), exists.drop_first())
    }
}

/// The shell of a new session: the requested one if any; else on Windows
/// `%COMSPEC%` if set, else PowerShell if it exists, else `cmd.exe`;
/// elsewhere the first probed path that exists, else `/bin/sh`.
/// `env_shell` is `%COMSPEC%` on Windows and `$SHELL` elsewhere;
/// `exists[i]` says whether the `i`-th probe path exists.
pub open spec fn chosen_shell(
    requested: Seq<char>,
    p: Platform,
    env_shell: Option<Seq<char>>,
    exists: Seq<bool>,
) -> Seq<char> {
    if requested.len() > 0 {
        requested
    } else if p == Platform::Windows {
        match env_shell {
            Some(s) => s,
            None => if exists[0] { powershell_path() } else { "cmd.exe"@ },
        }
    } else {
        match first_existing(shell_probe_paths(p, env_shell), exists) {
            Some(s) => s,
            None => "/bin/sh"@,
        }
    }
}

/// The paths to probe for the shell, in order.
pub fn shell_probes(p: Platform, env_shell: &Option<String>) -> (r: Vec<String>)
    ensures
        r@.map_values(|s: String| s@) == shell_probe_paths(p, opt_view(*env_shell)),
{
    let mut r: Vec<String> = Vec::new();
    if p == Platform::Windows {
        r.push(String::from_str("C:\\Windows\\System32\\WindowsPowerShell\\v1.0\\powershell.exe"));
    } else if p == Platform::MacOs {
        r.push(String::from_str("/bin/zsh"));
        r.push(String::from_str("/bin/bash"));
        r.push(String::from_str("/bin/sh"));
    } else {
        match env_shell {
            Some(s) => r.push(s.clone()),
            None => {},
        }
        r.push(String::from_str("/bin/bash"));
        r.push(String::from_str("/bin/sh"));
        r.push(String::from_str("/usr/bin/bash"));
        r.push(String::from_str("/usr/bin/sh"));
    }
    assert(r@.map_values(|s: String| s@) =~= shell_probe_paths(p, opt_view(*env_shell)));
    r
}

/// The shell of a new session (see `chosen_shell`).
pub fn resolve_shell(requested: &String, p: Platform, env_shell: Option<String>, exists: &Vec<bool>) -> (r: String)
    requires
        exists@.len() == shell_probe_paths(p, opt_view(env_shell)).len(),
    ensures
        r@ == chosen_shell(requested@, p, opt_view(env_shell), exists@),
{
    if requested.as_str().unicode_len() > 0 {
        return requested.clone();
    }
    if p == Platform::Windows {
        return match env_shell {
            Some(s) => s,
            None => if exists[0] {
                String::from_str("C:\\Windows\\System32\\WindowsPowerShell\\v1.0\\powershell.exe")
            } else {
                String::from_str("cmd.exe")
            },
        };
    }
    let probes = shell_probes(p, &env_shell);
    let ghost paths = shell_probe_paths(p, opt_view(env_shell));
    let n = probes.len();
    let mut i: usize = 0;
    assert(paths.skip(0) =~= paths);
    assert(exists@.skip(0) =~= exists@);
    while i < n
        invariant
            requested@.len() == 0,
            p != Platform::Windows,
            paths == shell_probe_paths(p, opt_view(env_shell)),
            i <= n == probes@.len() == exists@.len() == paths.len(),
            probes@.map_values(|s: String| s@) == paths,
            first_existing(paths, exists@) == first_existing(paths.skip(i as int), exists@.skip(i as int)),
        decreases n - i,
    {
        assert(paths.skip(i as int)[0] == paths[i as int]);
        assert(exists@.skip(i as int)[0] == exists@[i as int]);
        if exists[i] {
            let r = probes[i].clone();
            assert(r@ == probes@.map_values(|s: String| s@)[i as int]);
            assert(r@ == paths[i as int]);
            return r;
        }
        assert(paths.skip(i as int).drop_first() =~= paths.skip(i + 1));
        assert(exists@.skip(i as int).drop_first() =~= exists@.skip(i + 1));
        i = i + 1;
    }
    assert(paths.skip(n as int) =~= Seq::<Seq<char>>::empty());
    String::from_str("/bin/sh")
}

/// Which shell a new session gets when none is requested, by platform and
/// by which of the probed paths exist (`exists[i]` for the `i`-th path
/// tried): on macOS the first of `/bin/zsh`, `/bin/bash`, `/bin/sh` that
/// exists, else `/bin/sh`; on Linux the user's `$SHELL` if set and present,
/// else the first of `/bin/bash`, `/bin/sh`, `/usr/bin/bash`, `/usr/bin/sh`
/// that exists, else `/bin/sh`; on Windows `%COMSPEC%` if set, else
/// PowerShell if it exists, else `cmd.exe`. A requested shell is always
/// taken as it is.
pub proof fn law_default_shell(requested: Seq<char>, p: Platform, env_shell: Option<Seq<char>>, exists: Seq<bool>)
    requires
        p == Platform::MacOs ==> exists.len() == 3,
        p == Platform::Windows ==> exists.len() == 1,
        p == Platform::Linux ==> exists.len() == (if env_shell is Some { 5int } else { 4int }),
    ensures
        requested.len() > 0 ==> chosen_shell(requested, p, env_shell, exists) == requested,
        requested.len() == 0 && p == Platform::MacOs ==> chosen_shell(requested, p, env_shell, exists)
            == (if exists[0] {
            "/bin/zsh"@
        } else if exists[1] {
            "/bin/bash"@
        } else {
            "/bin/sh"@
        }),
        requested.len() == 0 && p == Platform::Linux ==> chosen_shell(requested, p, env_shell, exists)
            == ({
            let e = if env_shell is Some { exists.drop_first() } else { exists };
            if env_shell is Some && exists[0] {
                env_shell->0
            } else if e[0] {
                "/bin/bash"@
            } else if e[1] {
                "/bin/sh"@
            } else if e[2] {
                "/usr/bin/bash"@
            } else if e[3] {
                "/usr/bin/sh"@
            } else {
                "/bin/sh"@
            }
        }),
        requested.len() == 0 && p == Platform::Windows ==> chosen_shell(requested, p, env_shell, exists)
            == (match env_shell {
            Some(s) => s,
            None => if exists[0] {
                "C:\\Windows\\System32\\WindowsPowerShell\\v1.0\\powershell.exe"@
            } else {
                "cmd.exe"@
            },
        }),
{
    reveal_with_fuel(first_existing, 6);
    if requested.len() == 0 && p == Platform::MacOs {
        let paths = shell_probe_paths(p, env_shell);
        assert(paths.drop_first() =~= seq!["/bin/bash"@, "/bin/sh"@]);
        assert(paths.drop_first().drop_first() =~= seq!["/bin/sh"@]);
        assert(paths.drop_first().drop_first().drop_first() =~= Seq::<Seq<char>>::empty());
    }
    if requested.len() == 0 && p == Platform::Linux {
        let common = seq!["/bin/bash"@, "/bin/sh"@, "/usr/bin/bash"@, "/usr/bin/sh"@];
        let paths = shell_probe_paths(p, env_shell);
        let e = if env_shell is Some { exists.drop_first() } else { exists };
        if env_shell is Some {
            assert(paths.drop_first() =~= common);
        } else {
            assert(paths =~= common);
        }
        assert(common.drop_first() =~= seq!["/bin/sh"@, "/usr/bin/bash"@, "/usr/bin/sh"@]);
        assert(common.drop_first().drop_first() =~= seq!["/usr/bin/bash"@, "/usr/bin/sh"@]);
        assert(common.drop_first().drop_first().drop_first() =~= seq!["/usr/bin/sh"@]);
        assert(common.drop_first().drop_first().drop_first().drop_first() =~= Seq::<Seq<char>>::empty());
        assert(first_existing(paths, exists) == (if env_shell is Some && exists[0] {
            Some(env_shell->0)
        } else {
            first_existing(common, e)
        }));
    }
}

// ============================================================================
// Output
// ============================================================================

/// What `String::from_utf8_lossy` makes of `bytes`.
pub uninterp spec fn lossy_text(bytes: Seq<u8>) -> Seq<char>;

/// `String::from_utf8_lossy`, owned.
///
/// Trusted: std documents that the result depends on the bytes alone, that
/// valid UTF-8 comes back as the characters it encodes, and that invalid
/// sequences are replaced by U+FFFD; the replacement rule is not stated
/// beyond the name `lossy_text`.
#[verifier::external_body]
fn utf8_lossy(bytes: &[u8]) -> (s: String)
    ensures
        s@ == lossy_text(bytes@),
        valid_utf8(bytes@) ==> s@ == decode_utf8(bytes@),
{
    String::from_utf8_lossy(bytes).into_owned()
}

/// The text of what was read from a terminal: empty if nothing was read,
/// else the bytes decoded with invalid sequences replaced.
pub fn terminal_output_text(bytes: &Vec<u8>) -> (s: String)
    ensures
        bytes@.len() == 0 ==> s@ == Seq::<char>::empty(),
        bytes@.len() > 0 ==> s@ == lossy_text(bytes@),
        bytes@.len() > 0 && valid_utf8(bytes@) ==> s@ == decode_utf8(bytes@),
{
    if bytes.len() > 0 {
        utf8_lossy(bytes.as_slice())
    } else {
        String::new()
    }
}

} // verus!
