//! The data that the desktop commands exchange with the renderer, and the
//! decisions those commands make.

use vstd::prelude::*;
use vstd::string::StringExecFns;
use crate::config::Platform;
use crate::text::{
    chars_of, clone_opt_string, decimal, hex_byte, push_char, push_decimal, push_hex_byte,
    lines, split_lines, split_words, string_of, trim, trimmed, views, words,
};
use vstd::utf8::{decode_utf8, valid_utf8};

verus! {

// ============================================================================
// Type definitions
// ============================================================================

/// Where the sidecar server listens and how to log in to it.
#[derive(Debug)]
pub struct ServerReadyData {
    pub url: String,
    pub username: Option<String>,
    pub password: Option<String>,
}

/// The title bar theme that the renderer asks for.
#[derive(Debug)]
pub struct TitlebarTheme {
    pub mode: String,
}

/// A fatal error reported by the renderer.
#[derive(Debug)]
pub struct FatalRendererError {
    pub error: String,
    pub url: String,
    pub version: Option<String>,
    pub platform: String,
    pub os: Option<String>,
}

/// Options of the directory picker.
#[derive(Debug)]
pub struct OpenDirectoryPickerOpts {
    pub multiple: Option<bool>,
    pub title: Option<String>,
    pub default_path: Option<String>,
}

/// Options of the file picker.
#[derive(Debug)]
pub struct OpenFilePickerOpts {
    pub multiple: Option<bool>,
    pub title: Option<String>,
    pub default_path: Option<String>,
    pub extensions: Option<Vec<String>>,
}

/// Options of the save-file picker.
#[derive(Debug)]
pub struct SaveFilePickerOpts {
    pub title: Option<String>,
    pub default_path: Option<String>,
}

/// A WSL distro as `wsl --list --verbose` reports it.
#[derive(Debug)]
pub struct WslDistroInfo {
    pub id: String,
    pub name: String,
    pub state: String,
    pub version: Option<String>,
}

/// A server that runs inside a WSL distro.
#[derive(Debug)]
pub struct WslServerConfig {
    pub id: String,
    pub distro: String,
    pub name: String,
    pub hostname: String,
    pub port: u16,
    pub username: String,
    pub password: String,
}

impl Clone for WslServerConfig {
    fn clone(&self) -> (r: Self)
        ensures
            r == *self,
    {
        WslServerConfig {
            id: self.id.clone(),
            distro: self.distro.clone(),
            name: self.name.clone(),
            hostname: self.hostname.clone(),
            port: self.port,
            username: self.username.clone(),
            password: self.password.clone(),
        }
    }
}

// ============================================================================
// Random values
// ============================================================================

/// A random byte (`rand::Rng::gen::<u8>` on the thread's generator).
///
/// Trusted: any byte may come back; nothing is promised of it.
#[verifier::external_body]
fn random_byte() -> (b: u8) {
    rand::Rng::gen::<u8>(&mut rand::thread_rng())
}

/// A random `u16` (`rand::random::<u16>`).
///
/// Trusted: any value may come back; nothing is promised of it.
#[verifier::external_body]
fn random_u16() -> (n: u16) {
    rand::random::<u16>()
}

/// A random number in `low..high` (`rand::Rng::gen_range` on the thread's
/// generator).
///
/// Trusted: rand documents that `gen_range(low..high)` returns a value of
/// the half-open range and panics if the range is empty, which `requires`
/// rules out. Which value of the range comes back is not promised.
#[verifier::external_body]
fn random_in_range(low: u16, high: u16) -> (n: u16)
    requires
        low < high,
    ensures
        low <= n < high,
{
    rand::Rng::gen_range(&mut rand::thread_rng(), low..high)
}

/// Whether `b` is a byte that `random_byte` handed out: a value drawn from
/// the thread's random generator.
pub closed spec fn drawn_byte(b: u8) -> bool {
    call_ensures(random_byte, (), b)
}

/// Whether `n` is a number that `random_u16` handed out: a value drawn from
/// the random source.
pub closed spec fn drawn_u16(n: u16) -> bool {
    call_ensures(random_u16, (), n)
}

/// Whether `n` is a number that `random_in_range(low, high)` handed out.
pub closed spec fn drawn_in_range(low: u16, high: u16, n: u16) -> bool {
    call_ensures(random_in_range, (low, high), n)
}

/// A number drawn from `low..high` lies in that range.
pub proof fn lemma_drawn_in_range(low: u16, high: u16, n: u16)
    requires
        drawn_in_range(low, high, n),
    ensures
        low <= n < high,
{
}

/// Whether every byte of `bytes` was drawn from the random generator.
pub open spec fn all_drawn(bytes: Seq<u8>) -> bool {
    forall|i: int| 0 <= i < bytes.len() ==> drawn_byte(#[trigger] bytes[i])
}

// ============================================================================
// Tokens and passwords
// ============================================================================

/// The lower-case hexadecimal notation of `bytes`, two digits per byte.
pub open spec fn hex_of(bytes: Seq<u8>) -> Seq<char>
    decreases bytes.len(),
{
    if bytes.len() == 0 {
        seq![]
    } else {
        hex_of(bytes.drop_last()) + hex_byte(bytes.last())
    }
}

/// The hexadecimal notation of `bytes`.
pub fn hex_token(bytes: &Vec<u8>) -> (t: String)
    ensures
        t@ == hex_of(bytes@),
{
    let mut t = String::new();
    let n = bytes.len();
    let mut i: usize = 0;
    while i < n
        invariant
            i <= n == bytes@.len(),
            t@ == hex_of(bytes@.take(i as int)),
        decreases n - i,
    {
        assert(bytes@.take(i + 1).drop_last() =~= bytes@.take(i as int));
        push_hex_byte(&mut t, bytes[i]);
        i = i + 1;
    }
    assert(bytes@.take(n as int) =~= bytes@);
    t
}

proof fn lemma_hex_of_len(bytes: Seq<u8>)
    ensures
        hex_of(bytes).len() == 2 * bytes.len(),
    decreases bytes.len(),
{
    if bytes.len() > 0 {
        lemma_hex_of_len(bytes.drop_last());
    }
}

/// A token for a set of picked files: 32 random bytes in hexadecimal.
pub fn generate_token() -> (t: String)
    ensures
        exists|bytes: Seq<u8>| bytes.len() == 32 && t@ == hex_of(bytes),
        exists|bytes: Seq<u8>| bytes.len() == 32 && all_drawn(bytes) && t@ == hex_of(bytes),
        t@.len() == 64,
{
    let mut bytes: Vec<u8> = Vec::new();
    let mut i: usize = 0;
    while i < 32
        invariant
            i <= 32,
            bytes@.len() == i,
            all_drawn(bytes@),
        decreases 32 - i,
    {
        bytes.push(random_byte());
        i = i + 1;
    }
    let t = hex_token(&bytes);
    proof {
        lemma_hex_of_len(bytes@);
    }
    t
}

/// The password character that byte `b` stands for: a lower-case letter, an
/// upper-case letter or a digit, by `b % 3`.
pub open spec fn password_char(b: u8) -> char {
    if b % 3 == 0 {
        ((97 + b % 26) as u8) as char
    } else if b % 3 == 1 {
        ((65 + b % 26) as u8) as char
    } else {
        ((48 + b % 10) as u8) as char
    }
}

/// The password that `bytes` stand for, one character per byte.
pub open spec fn password_of(bytes: Seq<u8>) -> Seq<char> {
    bytes.map_values(|b: u8| password_char(b))
}

fn password_char_of(b: u8) -> (c: char)
    ensures
        c == password_char(b),
{
    if b % 3 == 0 {
        (97u8 + b % 26) as char
    } else if b % 3 == 1 {
        (65u8 + b % 26) as char
    } else {
        (48u8 + b % 10) as char
    }
}

/// The password that `bytes` stand for.
pub fn password_from_bytes(bytes: &Vec<u8>) -> (p: String)
    ensures
        p@ == password_of(bytes@),
{
    let mut p = String::new();
    let n = bytes.len();
    let mut i: usize = 0;
    while i < n
        invariant
            i <= n == bytes@.len(),
            p@ =~= password_of(bytes@.take(i as int)),
        decreases n - i,
    {
        push_char(&mut p, password_char_of(bytes[i]));
        i = i + 1;
    }
    assert(bytes@.take(n as int) =~= bytes@);
    p
}

/// A password for the sidecar server: 16 random letters and digits.
pub fn generate_password() -> (p: String)
    ensures
        exists|bytes: Seq<u8>| bytes.len() == 16 && p@ == password_of(bytes),
        exists|bytes: Seq<u8>| bytes.len() == 16 && all_drawn(bytes) && p@ == password_of(bytes),
        p@.len() == 16,
{
    let mut bytes: Vec<u8> = Vec::new();
    let mut i: usize = 0;
    while i < 16
        invariant
            i <= 16,
            bytes@.len() == i,
            all_drawn(bytes@),
        decreases 16 - i,
    {
        bytes.push(random_byte());
        i = i + 1;
    }
    password_from_bytes(&bytes)
}

// ============================================================================
// Sidecar server
// ============================================================================

/// Where a sidecar server on `port` of the loopback interface listens.
pub open spec fn sidecar_url(port: u16) -> Seq<char> {
    "http://127.0.0.1:"@ + decimal(port as nat)
}

/// The address and credentials of a sidecar server.
pub struct SidecarCredentials {
    pub url: String,
    pub username: String,
    pub password: String,
}

/// The address of a sidecar server on `port`.
pub fn sidecar_endpoint(port: u16) -> (u: String)
    ensures
        u@ == sidecar_url(port),
{
    let mut u = String::from_str("http://127.0.0.1:");
    push_decimal(&mut u, port as u64);
    u
}

/// New credentials for the sidecar server: a random port in 3000..4000,
/// the user "opencode" and a new password.
pub fn prepare_sidecar() -> (c: SidecarCredentials)
    ensures
        exists|port: u16| 3000 <= port < 4000 && c.url@ == sidecar_url(port),
        exists|port: u16|
            drawn_in_range(3000, 4000, port) && 3000 <= port < 4000 && c.url@ == sidecar_url(port),
        c.username@ == "opencode"@,
        exists|bytes: Seq<u8>| bytes.len() == 16 && c.password@ == password_of(bytes),
        exists|bytes: Seq<u8>|
            bytes.len() == 16 && all_drawn(bytes) && c.password@ == password_of(bytes),
{
    let port = random_in_range(3000, 4000);
    let url = sidecar_endpoint(port);
    SidecarCredentials { url, username: String::from_str("opencode"), password: generate_password() }
}

// ============================================================================
// Windows
// ============================================================================

/// The label of a new window numbered `n`.
pub open spec fn window_label(n: u16) -> Seq<char> {
    "window-"@ + decimal(n as nat)
}

/// What a new window is made with.
pub struct NewWindowRequest {
    pub label: String,
    pub title: String,
    pub url: String,
}

/// The label of a new window numbered `n`.
pub fn window_label_for(n: u16) -> (l: String)
    ensures
        l@ == window_label(n),
{
    let mut l = String::from_str("window-");
    push_decimal(&mut l, n as u64);
    l
}

/// A new window: a random label, the given title (else "OpenCode - New
/// Window") and the given URL (else "/").
pub fn new_window_request(title: Option<String>, url: Option<String>) -> (w: NewWindowRequest)
    ensures
        exists|n: u16| w.label@ == window_label(n),
        exists|n: u16| drawn_u16(n) && w.label@ == window_label(n),
        title is Some ==> w.title == title->0,
        title is None ==> w.title@ == "OpenCode - New Window"@,
        url is Some ==> w.url == url->0,
        url is None ==> w.url@ == "/"@,
{
    let label = window_label_for(random_u16());
    let title = match title {
        Some(t) => t,
        None => String::from_str("OpenCode - New Window"),
    };
    let url = match url {
        Some(u) => u,
        None => String::from_str("/"),
    };
    NewWindowRequest { label, title, url }
}

/// Window labels follow the numbers drawn for them: two requests get the
/// same label exactly when the same number was drawn for both.
pub proof fn law_window_labels_follow_draws(a: u16, b: u16)
    ensures
        window_label(a) == window_label(b) <==> a == b,
{
    if window_label(a) == window_label(b) {
        reveal_strlit("window-");
        let k = "window-"@.len();
        assert(window_label(a).subrange(k as int, window_label(a).len() as int) =~= decimal(a as nat));
        assert(window_label(b).subrange(k as int, window_label(b).len() as int) =~= decimal(b as nat));
        crate::text::lemma_decimal_injective(a as nat, b as nat);
    }
}

// ============================================================================
// Looking up applications
// ============================================================================

/// What a finished command gave: whether it succeeded and its output.
pub struct CommandOutput {
    pub success: bool,
    pub stdout: Vec<u8>,
    pub stderr: Vec<u8>,
}

/// A program to start and its arguments.
pub struct CommandLine {
    pub program: String,
    pub args: Vec<String>,
}

/// The message (`to_string`) of the error that `String::from_utf8` gives
/// for `bytes`.
pub uninterp spec fn utf8_error_text(bytes: Seq<u8>) -> Seq<char>;

/// The text of `bytes` if they are UTF-8 (`String::from_utf8`), else the
/// message of its error.
///
/// Trusted: std documents that `from_utf8` succeeds exactly on valid UTF-8
/// and then holds the characters that the bytes encode. The error's message
/// is computed from the bytes alone; what it says is left to the name
/// `utf8_error_text`.
#[verifier::external_body]
fn utf8_text(bytes: Vec<u8>) -> (r: Result<String, String>)
    ensures
        r is Ok <==> valid_utf8(bytes@),
        r matches Ok(s) ==> s@ == decode_utf8(bytes@),
        r matches Err(e) ==> e@ == utf8_error_text(bytes@),
{
    match String::from_utf8(bytes) {
        Ok(s) => Ok(s),
        Err(e) => Err(e.to_string()),
    }
}

fn copy_bytes(v: &Vec<u8>) -> (r: Vec<u8>)
    ensures
        r@ == v@,
{
    let mut r: Vec<u8> = Vec::new();
    let n = v.len();
    let mut i: usize = 0;
    while i < n
        invariant
            i <= n == v@.len(),
            r@ =~= v@.take(i as int),
        decreases n - i,
    {
        r.push(v[i]);
        i = i + 1;
    }
    assert(v@.take(n as int) =~= v@);
    r
}

/// The query that finds an application by its display name on macOS.
pub open spec fn mdfind_query(app_name: Seq<char>) -> Seq<char> {
    "kMDItemDisplayName == '"@ + app_name + "'"@
}

/// The command that looks up an application: `mdfind` with a display-name
/// query on macOS, `where` on Windows, `which` on Linux.
pub fn app_lookup_command(p: Platform, app_name: &String) -> (c: CommandLine)
    ensures
        c.args@.len() == 1,
        p == Platform::MacOs ==> c.program@ == "mdfind"@ && c.args@[0]@ == mdfind_query(app_name@),
        p == Platform::Windows ==> c.program@ == "where"@ && c.args@[0]@ == app_name@,
        p == Platform::Linux ==> c.program@ == "which"@ && c.args@[0]@ == app_name@,
{
    let mut args: Vec<String> = Vec::new();
    match p {
        Platform::MacOs => {
            let mut q = String::from_str("kMDItemDisplayName == '");
            q.append(app_name.as_str());
            q.append("'");
            args.push(q);
            CommandLine { program: String::from_str("mdfind"), args }
        },
        Platform::Windows => {
            args.push(app_name.clone());
            CommandLine { program: String::from_str("where"), args }
        },
        Platform::Linux => {
            args.push(app_name.clone());
            CommandLine { program: String::from_str("which"), args }
        },
    }
}

/// Whether the lookup found the application: on macOS when `mdfind`
/// printed anything, elsewhere when the command succeeded.
pub fn app_exists_from_output(p: Platform, out: &CommandOutput) -> (b: bool)
    ensures
        p == Platform::MacOs ==> b == (out.stdout@.len() > 0),
        p != Platform::MacOs ==> b == out.success,
{
    match p {
        Platform::MacOs => out.stdout.len() > 0,
        _ => out.success,
    }
}

/// The path that the lookup printed, trimmed: none when it printed
/// nothing, an error when the output is not UTF-8.
pub fn app_path_from_output(out: &CommandOutput) -> (r: Result<Option<String>, String>)
    ensures
        out.stdout@.len() == 0 ==> r == Ok::<Option<String>, String>(None),
        out.stdout@.len() > 0 ==> (r is Err <==> !valid_utf8(out.stdout@)),
        out.stdout@.len() > 0 && valid_utf8(out.stdout@) ==> (r matches Ok(Some(s)) && s@ == trim(
            decode_utf8(out.stdout@),
        )),
        r matches Err(e) ==> e@ == utf8_error_text(out.stdout@),
{
    if out.stdout.len() == 0 {
        return Ok(None);
    }
    match utf8_text(copy_bytes(&out.stdout)) {
        Ok(text) => Ok(Some(trimmed(text.as_str()))),
        Err(e) => Err(e),
    }
}

// ============================================================================
// Picked files
// ============================================================================

/// Whether `c` ends a path component: on a path with a verbatim (`\\?\`)
/// prefix only `\`, otherwise any separator of the platform.
pub open spec fn component_sep(plat: Platform, verbatim: bool, c: char) -> bool {
    if verbatim {
        c == '\\'
    } else {
        crate::config::is_separator(plat, c)
    }
}

/// The last component of the path `p`, which has no prefix, if it is a
/// file or directory name: separators at the end are skipped; a `.`
/// component is skipped, except after a verbatim prefix, where it ends the
/// path; a path that ends in `..`, in `.` after a verbatim prefix, or in a
/// root has none.
pub open spec fn tail_file_name(plat: Platform, verbatim: bool, p: Seq<char>) -> Option<Seq<char>>
    decreases p.len(),
{
    if p.len() == 0 {
        None
    } else if component_sep(plat, verbatim, p.last()) {
        tail_file_name(plat, verbatim, p.drop_last())
    } else {
        let k = last_separator(plat, verbatim, p);
        let seg = p.subrange(k + 1, p.len() as int);
        if seg == seq!['.'] {
            if verbatim {
                None
            } else {
                proof {
                    lemma_last_separator(plat, verbatim, p);
                }
                tail_file_name(plat, verbatim, p.subrange(0, k + 1))
            }
        } else if seg == seq!['.', '.'] {
            None
        } else {
            Some(seg)
        }
    }
}

/// The index of the last separator in `p`, or -1.
pub open spec fn last_separator(plat: Platform, verbatim: bool, p: Seq<char>) -> int
    decreases p.len(),
{
    if p.len() == 0 {
        -1
    } else if component_sep(plat, verbatim, p.last()) {
        p.len() - 1
    } else {
        last_separator(plat, verbatim, p.drop_last())
    }
}

/// Where the last separator of `p` lies.
pub proof fn lemma_last_separator(plat: Platform, verbatim: bool, p: Seq<char>)
    ensures
        -1 <= last_separator(plat, verbatim, p) < p.len(),
        last_separator(plat, verbatim, p) >= 0 ==> component_sep(
            plat,
            verbatim,
            p[last_separator(plat, verbatim, p)],
        ),
        forall|j: int|
            last_separator(plat, verbatim, p) < j < p.len() ==> !component_sep(
                plat,
                verbatim,
                #[trigger] p[j],
            ),
    decreases p.len(),
{
    if p.len() > 0 && !component_sep(plat, verbatim, p.last()) {
        lemma_last_separator(plat, verbatim, p.drop_last());
        assert forall|j: int|
            last_separator(plat, verbatim, p) < j < p.len() implies !component_sep(
            plat,
            verbatim,
            #[trigger] p[j],
        ) by {
            if j < p.len() - 1 {
                assert(p[j] == p.drop_last()[j]);
            }
        }
    }
}

/// The length of the first component of `q`: the index of its first
/// separator (see `component_sep` on Windows), or its length.
pub open spec fn first_sep(q: Seq<char>, verbatim: bool) -> int
    decreases q.len(),
{
    if q.len() == 0 {
        0
    } else if component_sep(Platform::Windows, verbatim, q[0]) {
        0
    } else {
        1 + first_sep(q.drop_first(), verbatim)
    }
}

/// Whether `c` is an ASCII letter.
pub open spec fn is_ascii_letter(c: char) -> bool {
    ('a' <= c && c <= 'z') || ('A' <= c && c <= 'Z')
}

/// The length of the `server\share` part that starts `r`, as a UNC prefix
/// counts it: the server, then the separator and the share if the share is
/// not empty.
pub open spec fn server_share_len(r: Seq<char>, verbatim: bool) -> int {
    let s = first_sep(r, verbatim);
    let after = if s < r.len() { r.subrange(s + 1, r.len() as int) } else { Seq::<char>::empty() };
    let t = first_sep(after, verbatim);
    s + (if t > 0 { 1 + t } else { 0int })
}

/// The Windows path prefix that starts `p` (`std::path::Prefix`): its
/// length, and whether it is verbatim. `\\?\UNC\server\share`, `\\?\C:`
/// and `\\?\name` are verbatim; `\\.\device`, `\\server\share` (both parts
/// not empty) and `C:` are not; other paths have none (length 0).
pub open spec fn windows_prefix(p: Seq<char>) -> (int, bool) {
    let n = p.len();
    if n >= 2 && crate::config::is_separator(Platform::Windows, p[0])
        && crate::config::is_separator(Platform::Windows, p[1]) {
        if n >= 4 && p[0] == '\\' && p[1] == '\\' && p[2] == '?' && p[3] == '\\' {
            let q = p.subrange(4, n as int);
            if q.len() >= 4 && q[0] == 'U' && q[1] == 'N' && q[2] == 'C' && q[3] == '\\' {
                (8 + server_share_len(q.subrange(4, q.len() as int), true), true)
            } else if q.len() >= 2 && is_ascii_letter(q[0]) && q[1] == ':' && (q.len() == 2 || q[2]
                == '\\') {
                (6, true)
            } else {
                (4 + first_sep(q, true), true)
            }
        } else if n >= 4 && p[2] == '.' && crate::config::is_separator(Platform::Windows, p[3]) {
            (4 + first_sep(p.subrange(4, n as int), false), false)
        } else {
            let r = p.subrange(2, n as int);
            let s = first_sep(r, false);
            let after = if s < r.len() {
                r.subrange(s + 1, r.len() as int)
            } else {
                Seq::<char>::empty()
            };
            if s > 0 && first_sep(after, false) > 0 {
                (2 + server_share_len(r, false), false)
            } else {
                (0, false)
            }
        }
    } else if n >= 2 && is_ascii_letter(p[0]) && p[1] == ':' {
        (2, false)
    } else {
        (0, false)
    }
}

/// The last component of the path `p` if it is a file or directory name
/// (`Path::file_name`): on Windows the path's prefix (see
/// `windows_prefix`) is no component, and the rest is read as
/// `tail_file_name` says.
pub open spec fn file_name(plat: Platform, p: Seq<char>) -> Option<Seq<char>> {
    if plat == Platform::Windows {
        let (k, verbatim) = windows_prefix(p);
        tail_file_name(plat, verbatim, p.subrange(k, p.len() as int))
    } else {
        tail_file_name(plat, false, p)
    }
}

fn comp_sep(plat: Platform, verbatim: bool, c: char) -> (b: bool)
    ensures
        b == component_sep(plat, verbatim, c),
{
    if verbatim {
        c == '\\'
    } else {
        c == '/' || (plat == Platform::Windows && c == '\\')
    }
}

fn is_letter(c: char) -> (b: bool)
    ensures
        b == is_ascii_letter(c),
{
    ('a' <= c && c <= 'z') || ('A' <= c && c <= 'Z')
}

/// The index of the first separator of `v` at or after `from`, or its
/// length.
fn first_sep_from(v: &Vec<char>, from: usize, verbatim: bool) -> (k: usize)
    requires
        from <= v@.len(),
    ensures
        from <= k <= v@.len(),
        k - from == first_sep(v@.subrange(from as int, v@.len() as int), verbatim),
{
    let n = v.len();
    let mut i = from;
    while i < n && !comp_sep(Platform::Windows, verbatim, v[i])
        invariant
            from <= i <= n == v@.len(),
            first_sep(v@.subrange(from as int, n as int), verbatim) == (i - from) + first_sep(
                v@.subrange(i as int, n as int),
                verbatim,
            ),
        decreases n - i,
    {
        assert(v@.subrange(i as int, n as int).drop_first() =~= v@.subrange(i + 1, n as int));
        i = i + 1;
    }
    i
}

/// `server_share_len` of `v[from..]`.
fn server_share_from(v: &Vec<char>, from: usize, verbatim: bool) -> (k: usize)
    requires
        from <= v@.len(),
    ensures
        from + k <= v@.len(),
        k == server_share_len(v@.subrange(from as int, v@.len() as int), verbatim),
{
    let n = v.len();
    let ghost r = v@.subrange(from as int, n as int);
    let s_end = first_sep_from(v, from, verbatim);
    if s_end < n {
        let t_end = first_sep_from(v, s_end + 1, verbatim);
        assert(r.subrange(s_end - from + 1, r.len() as int) =~= v@.subrange(s_end + 1, n as int));
        if t_end > s_end + 1 {
            t_end - from
        } else {
            s_end - from
        }
    } else {
        assert(first_sep(Seq::<char>::empty(), verbatim) == 0);
        s_end - from
    }
}

/// `windows_prefix` of `v`.
fn windows_prefix_of(v: &Vec<char>) -> (r: (usize, bool))
    ensures
        r.0 <= v@.len(),
        r.0 == windows_prefix(v@).0,
        r.1 == windows_prefix(v@).1,
{
    let n = v.len();
    let ghost p = v@;
    if n >= 2 && comp_sep(Platform::Windows, false, v[0]) && comp_sep(Platform::Windows, false, v[1]) {
        if n >= 4 && v[0] == '\\' && v[1] == '\\' && v[2] == '?' && v[3] == '\\' {
            let ghost q = p.subrange(4, n as int);
            if n >= 8 && v[4] == 'U' && v[5] == 'N' && v[6] == 'C' && v[7] == '\\' {
                assert(q.subrange(4, q.len() as int) =~= p.subrange(8, n as int));
                let k = server_share_from(v, 8, true);
                (8 + k, true)
            } else if n >= 6 && is_letter(v[4]) && v[5] == ':' && (n == 6 || v[6] == '\\') {
                (6, true)
            } else {
                let k = first_sep_from(v, 4, true);
                (k, true)
            }
        } else if n >= 4 && v[2] == '.' && comp_sep(Platform::Windows, false, v[3]) {
            let k = first_sep_from(v, 4, false);
            (k, false)
        } else {
            let ghost r = p.subrange(2, n as int);
            let s_end = first_sep_from(v, 2, false);
            if s_end > 2 && s_end < n {
                let t_end = first_sep_from(v, s_end + 1, false);
                assert(r.subrange(s_end - 2 + 1, r.len() as int) =~= v@.subrange(s_end + 1, n as int));
                if t_end > s_end + 1 {
                    let k = server_share_from(v, 2, false);
                    (2 + k, false)
                } else {
                    (0, false)
                }
            } else {
                assert(first_sep(Seq::<char>::empty(), false) == 0);
                (0, false)
            }
        }
    } else if n >= 2 && is_letter(v[0]) && v[1] == ':' {
        (2, false)
    } else {
        (0, false)
    }
}

/// A copy of `v[from..]`.
fn chars_from(v: &Vec<char>, from: usize) -> (r: Vec<char>)
    requires
        from <= v@.len(),
    ensures
        r@ == v@.subrange(from as int, v@.len() as int),
{
    let n = v.len();
    let mut r: Vec<char> = Vec::new();
    let mut i = from;
    while i < n
        invariant
            from <= i <= n == v@.len(),
            r@ =~= v@.subrange(from as int, i as int),
        decreases n - i,
    {
        r.push(v[i]);
        i = i + 1;
    }
    r
}

/// `tail_file_name` of `v`.
fn tail_name(plat: Platform, verbatim: bool, v: &Vec<char>) -> (r: Option<String>)
    ensures
        crate::config::opt_view(r) == tail_file_name(plat, verbatim, v@),
{
    let mut end: usize = v.len();
    assert(v@.subrange(0, end as int) =~= v@);
    loop
        invariant
            end <= v@.len(),
            tail_file_name(plat, verbatim, v@) == tail_file_name(
                plat,
                verbatim,
                v@.subrange(0, end as int),
            ),
        decreases end,
    {
        let ghost p = v@.subrange(0, end as int);
        if end == 0 {
            assert(p =~= Seq::<char>::empty());
            return None;
        }
        if comp_sep(plat, verbatim, v[end - 1]) {
            assert(p.drop_last() =~= v@.subrange(0, end - 1));
            end = end - 1;
            continue;
        }
        let mut start: usize = end;
        assert(p.subrange(0, end as int) =~= p);
        while start > 0 && !comp_sep(plat, verbatim, v[start - 1])
            invariant
                start <= end <= v@.len(),
                p == v@.subrange(0, end as int),
                last_separator(plat, verbatim, p) == last_separator(
                    plat,
                    verbatim,
                    p.subrange(0, start as int),
                ),
                start < end ==> !component_sep(plat, verbatim, p[start as int]),
            decreases start,
        {
            assert(p.subrange(0, start as int).drop_last() =~= p.subrange(0, start - 1));
            start = start - 1;
        }
        proof {
            assert(p.subrange(0, end as int) =~= p);
            if start > 0 {
                assert(last_separator(plat, verbatim, p.subrange(0, start as int)) == start - 1);
            } else {
                assert(last_separator(plat, verbatim, p.subrange(0, 0)) == -1);
            }
        }
        let seg_len = end - start;
        if seg_len == 1 && v[start] == '.' {
            assert(p.subrange(start as int, end as int) =~= seq!['.']);
            if verbatim {
                return None;
            }
            assert(v@.subrange(0, start as int) =~= p.subrange(0, start as int));
            end = start;
            continue;
        }
        if seg_len == 2 && v[start] == '.' && v[start + 1] == '.' {
            assert(p.subrange(start as int, end as int) =~= seq!['.', '.']);
            return None;
        }
        let seg = string_of(v, start, end);
        assert(seg@ =~= p.subrange(start as int, end as int));
        assert(seg@.len() == seg_len);
        assert(seg@ != seq!['.']) by {
            if seg_len == 1 {
                assert(seg@[0] == v@[start as int]);
            }
        }
        assert(seg@ != seq!['.', '.']) by {
            if seg_len == 2 {
                assert(seg@[0] == v@[start as int]);
                assert(seg@[1] == v@[start + 1]);
            }
        }
        assert(tail_file_name(plat, verbatim, p) == Some(seg@));
        return Some(seg);
    }
}

proof fn lemma_last_separator_before_name(plat: Platform, q: Seq<char>, n: Seq<char>)
    requires
        q.len() > 0,
        component_sep(plat, false, q.last()),
        forall|i: int| 0 <= i < n.len() ==> !component_sep(plat, false, #[trigger] n[i]),
    ensures
        last_separator(plat, false, q + n) == q.len() - 1,
    decreases n.len(),
{
    if n.len() == 0 {
        assert(q + n =~= q);
    } else {
        assert((q + n).last() == n[n.len() - 1]);
        assert((q + n).drop_last() =~= q + n.drop_last());
        lemma_last_separator_before_name(plat, q, n.drop_last());
    }
}

proof fn lemma_tail_name_after_separator(plat: Platform, q: Seq<char>, n: Seq<char>)
    requires
        q.len() > 0,
        component_sep(plat, false, q.last()),
        n.len() > 0,
        forall|i: int| 0 <= i < n.len() ==> !component_sep(plat, false, #[trigger] n[i]),
        n != seq!['.'],
        n != seq!['.', '.'],
    ensures
        tail_file_name(plat, false, q + n) == Some(n),
        tail_file_name(plat, false, (q + n).push(q.last())) == Some(n),
{
    let p = q + n;
    lemma_last_separator_before_name(plat, q, n);
    assert(p.last() == n[n.len() - 1]);
    assert(p.subrange(q.len() as int, p.len() as int) =~= n);
    assert(p.push(q.last()).drop_last() =~= p);
}

/// A path's file name is its last component whenever that is a name: for
/// any `base`, a separator and a name `n` (not empty, without separators,
/// neither `.` nor `..`; it may start with a dot, like `.env`), the path
/// `base`, separator, `n` has file name `n`, and so does that path with one
/// more separator at its end. On Windows `base` starts with a drive such as
/// `C:` (a base such as `\\server` would make `n` part of a UNC prefix).
pub proof fn law_file_name_is_last_name(plat: Platform, base: Seq<char>, sep: char, n: Seq<char>)
    requires
        crate::config::is_separator(plat, sep),
        n.len() > 0,
        forall|i: int| 0 <= i < n.len() ==> !crate::config::is_separator(plat, #[trigger] n[i]),
        n != seq!['.'],
        n != seq!['.', '.'],
        plat == Platform::Windows ==> base.len() >= 2 && is_ascii_letter(base[0]) && base[1] == ':',
    ensures
        file_name(plat, base.push(sep) + n) == Some(n),
        file_name(plat, (base.push(sep) + n).push(sep)) == Some(n),
{
    assert forall|i: int| 0 <= i < n.len() implies !component_sep(plat, false, #[trigger] n[i]) by {
        assert(!crate::config::is_separator(plat, n[i]));
    }
    if plat == Platform::Windows {
        let p = base.push(sep) + n;
        let p2 = p.push(sep);
        let q = base.subrange(2, base.len() as int).push(sep);
        assert(p[0] == base[0] && p[1] == base[1]);
        assert(p2[0] == base[0] && p2[1] == base[1]);
        assert(windows_prefix(p) == (2int, false));
        assert(windows_prefix(p2) == (2int, false));
        assert(p.subrange(2, p.len() as int) =~= q + n);
        assert(p2.subrange(2, p2.len() as int) =~= (q + n).push(sep));
        lemma_tail_name_after_separator(plat, q, n);
    } else {
        lemma_tail_name_after_separator(plat, base.push(sep), n);
    }
}

proof fn lemma_first_sep_of_component(x: Seq<char>, y: Seq<char>, verbatim: bool)
    requires
        forall|i: int| 0 <= i < x.len() ==> !component_sep(Platform::Windows, verbatim, #[trigger] x[i]),
        y.len() == 0 || component_sep(Platform::Windows, verbatim, y[0]),
    ensures
        first_sep(x + y, verbatim) == x.len(),
    decreases x.len(),
{
    if x.len() == 0 {
        assert(x + y =~= y);
    } else {
        assert((x + y)[0] == x[0]);
        assert((x + y).drop_first() =~= x.drop_first() + y);
        lemma_first_sep_of_component(x.drop_first(), y, verbatim);
    }
}

/// On Windows a UNC share root `\\server\share` names no file, with or
/// without a separator at its end, and a name right under it is the file
/// name: `\\server\share\n` has file name `n`. (The server is neither `?`
/// nor `.`, which start verbatim and device prefixes.)
pub proof fn law_unc_file_names(server: Seq<char>, share: Seq<char>, n: Seq<char>)
    requires
        server.len() > 0,
        share.len() > 0,
        !(server.len() == 1 && (server[0] == '?' || server[0] == '.')),
        forall|i: int| 0 <= i < server.len() ==> !crate::config::is_separator(Platform::Windows, #[trigger] server[i]),
        forall|i: int| 0 <= i < share.len() ==> !crate::config::is_separator(Platform::Windows, #[trigger] share[i]),
        n.len() > 0,
        forall|i: int| 0 <= i < n.len() ==> !crate::config::is_separator(Platform::Windows, #[trigger] n[i]),
        n != seq!['.'],
        n != seq!['.', '.'],
    ensures
        file_name(Platform::Windows, seq!['\\', '\\'] + server + seq!['\\'] + share) is None,
        file_name(Platform::Windows, (seq!['\\', '\\'] + server + seq!['\\'] + share).push('\\'))
            is None,
        file_name(Platform::Windows, (seq!['\\', '\\'] + server + seq!['\\'] + share).push('\\') + n)
            == Some(n),
{
    let w = Platform::Windows;
    let root = seq!['\\', '\\'] + server + seq!['\\'] + share;
    assert forall|i: int| 0 <= i < server.len() implies !component_sep(w, false, #[trigger] server[i]) by {
        assert(!crate::config::is_separator(w, server[i]));
    }
    assert forall|i: int| 0 <= i < share.len() implies !component_sep(w, false, #[trigger] share[i]) by {
        assert(!crate::config::is_separator(w, share[i]));
    }
    assert forall|i: int| 0 <= i < n.len() implies !component_sep(w, false, #[trigger] n[i]) by {
        assert(!crate::config::is_separator(w, n[i]));
    }
    let k = root.len() as int;
    let tails: Seq<Seq<char>> = seq![Seq::<char>::empty(), seq!['\\'], seq!['\\'] + n];
    assert forall|j: int| 0 <= j < 3 implies windows_prefix(root + #[trigger] tails[j]) == (k, false) by {
        let tail = tails[j];
        let p = root + tail;
        assert(p[0] == '\\' && p[1] == '\\');
        assert(p[2] == server[0]);
        if server.len() == 1 {
            assert(p[3] == '\\');
        } else {
            assert(p[3] == server[1]);
        }
        let r = p.subrange(2, p.len() as int);
        assert(r =~= server + (seq!['\\'] + share + tail));
        lemma_first_sep_of_component(server, seq!['\\'] + share + tail, false);
        let after = r.subrange(server.len() as int + 1, r.len() as int);
        assert(after =~= share + tail);
        if tail.len() > 0 {
            assert(tail[0] == '\\');
        }
        lemma_first_sep_of_component(share, tail, false);
        assert(server_share_len(r, false) == server.len() + 1 + share.len());
    }
    assert(root + tails[0] =~= root);
    assert(root + tails[1] =~= root.push('\\'));
    assert(root + tails[2] =~= root.push('\\') + n);
    let p0 = root;
    assert(p0.subrange(k, p0.len() as int) =~= Seq::<char>::empty());
    let p1 = root.push('\\');
    assert(p1.subrange(k, p1.len() as int) =~= seq!['\\']);
    assert(seq!['\\'].drop_last() =~= Seq::<char>::empty());
    let p2 = root.push('\\') + n;
    assert(p2.subrange(k, p2.len() as int) =~= seq!['\\'] + n);
    lemma_tail_name_after_separator(w, seq!['\\'], n);
}

/// The file name of `path`, if it has one.
pub fn file_name_of(plat: Platform, path: &String) -> (r: Option<String>)
    ensures
        crate::config::opt_view(r) == file_name(plat, path@),
{
    let v = chars_of(path.as_str());
    if plat == Platform::Windows {
        let (k, verbatim) = windows_prefix_of(&v);
        let rest = chars_from(&v, k);
        tail_name(plat, verbatim, &rest)
    } else {
        tail_name(plat, false, &v)
    }
}

/// A picked file as the renderer receives it.
pub struct PickedFile {
    pub path: String,
    pub name: String,
    pub size: u64,
}

/// The picked files and the token that stands for them.
pub struct PickedFiles {
    pub token: String,
    pub files: Vec<PickedFile>,
}

/// A picked file: its path, its file name (empty if it has none) and its
/// size.
pub fn picked_file(plat: Platform, path: String, size: u64) -> (f: PickedFile)
    ensures
        f.path == path,
        f.size == size,
        file_name(plat, path@) is Some ==> f.name@ == file_name(plat, path@)->0,
        file_name(plat, path@) is None ==> f.name@ == Seq::<char>::empty(),
{
    let name = match file_name_of(plat, &path) {
        Some(n) => n,
        None => String::new(),
    };
    PickedFile { path, name, size }
}

/// The picked files with a new token.
pub fn picked_files(files: Vec<PickedFile>) -> (r: PickedFiles)
    ensures
        r.files@ == files@,
        exists|bytes: Seq<u8>| bytes.len() == 32 && r.token@ == hex_of(bytes),
        exists|bytes: Seq<u8>| bytes.len() == 32 && all_drawn(bytes) && r.token@ == hex_of(bytes),
{
    PickedFiles { token: generate_token(), files }
}

// ============================================================================
// Opening paths and links
// ============================================================================

/// How a path is opened.
pub enum OpenPathPlan {
    /// Start this program.
    Spawn(CommandLine),
    /// Hand the path to the system's opener.
    ShellOpen(String),
}

/// How `path` is opened: with the named application if one is given (on
/// macOS through `open -a`), else by the system's opener.
pub fn open_path_plan(p: Platform, path: String, app: Option<String>) -> (r: OpenPathPlan)
    ensures
        app is None ==> r == OpenPathPlan::ShellOpen(path),
        app is Some && p == Platform::MacOs ==> (r matches OpenPathPlan::Spawn(c) && c.program@
            == "open"@ && c.args@.len() == 3 && c.args@[0]@ == "-a"@ && c.args@[1] == app->0
            && c.args@[2] == path),
        app is Some && p != Platform::MacOs ==> (r matches OpenPathPlan::Spawn(c) && c.program
            == app->0 && c.args@.len() == 1 && c.args@[0] == path),
{
    match app {
        None => OpenPathPlan::ShellOpen(path),
        Some(app_name) => {
            let mut args: Vec<String> = Vec::new();
            if p == Platform::MacOs {
                args.push(String::from_str("-a"));
                args.push(app_name);
                args.push(path);
                OpenPathPlan::Spawn(CommandLine { program: String::from_str("open"), args })
            } else {
                args.push(path);
                OpenPathPlan::Spawn(CommandLine { program: app_name, args })
            }
        },
    }
}

// ============================================================================
// Dialogs and notifications
// ============================================================================

/// A file-type filter of a file dialog.
pub struct FileFilter {
    pub name: String,
    pub extensions: Vec<String>,
}

/// How a file picker is set up.
pub struct FilePickerPlan {
    pub multiple: bool,
    pub title: Option<String>,
    pub filters: Vec<FileFilter>,
}

/// The title that picker options ask for.
pub fn picker_title(title: &Option<String>) -> (t: Option<String>)
    ensures
        t == *title,
{
    clone_opt_string(title)
}

fn clone_strings(v: &Vec<String>) -> (r: Vec<String>)
    ensures
        r@ == v@,
{
    let mut r: Vec<String> = Vec::new();
    let n = v.len();
    let mut i: usize = 0;
    while i < n
        invariant
            i <= n == v@.len(),
            r@ =~= v@.take(i as int),
        decreases n - i,
    {
        r.push(v[i].clone());
        i = i + 1;
    }
    assert(v@.take(n as int) =~= v@);
    r
}

/// How the file picker is set up from its options: one file unless
/// `multiple` is set; for several files an "All Files" filter on `*` comes
/// first; a "Files" filter on the given extensions follows if there are any.
pub fn file_picker_plan(opts: &Option<OpenFilePickerOpts>) -> (r: FilePickerPlan)
    ensures
        r.multiple == (opts matches Some(o) && o.multiple == Some(true)),
        r.title == (match opts {
            Some(o) => o.title,
            None => None,
        }),
        ({
            let exts: Option<Vec<String>> = match opts {
                Some(o) => o.extensions,
                None => None,
            };
            let lead: int = if r.multiple { 1 } else { 0 };
            &&& r.filters@.len() == lead + (if exts is Some { 1int } else { 0int })
            &&& r.multiple ==> r.filters@[0].name@ == "All Files"@ && r.filters@[0].extensions@.len()
                == 1 && r.filters@[0].extensions@[0]@ == "*"@
            &&& exts is Some ==> r.filters@[lead].name@ == "Files"@ && r.filters@[lead].extensions@
                == exts->0@
        }),
{
    let (multiple, title, exts) = match opts {
        Some(o) => (
            match o.multiple {
                Some(m) => m,
                None => false,
            },
            clone_opt_string(&o.title),
            match &o.extensions {
                Some(e) => Some(clone_strings(e)),
                None => None,
            },
        ),
        None => (false, None, None),
    };
    let mut filters: Vec<FileFilter> = Vec::new();
    if multiple {
        let mut all: Vec<String> = Vec::new();
        all.push(String::from_str("*"));
        filters.push(FileFilter { name: String::from_str("All Files"), extensions: all });
    }
    match exts {
        Some(e) => {
            filters.push(FileFilter { name: String::from_str("Files"), extensions: e });
        },
        None => {},
    }
    FilePickerPlan { multiple, title, filters }
}

/// The body of a notification: the given one, else empty.
pub fn notification_body(body: &Option<String>) -> (b: String)
    ensures
        body is Some ==> b == body->0,
        body is None ==> b@ == Seq::<char>::empty(),
{
    match body {
        Some(b) => b.clone(),
        None => String::new(),
    }
}

// ============================================================================
// Display backend and menu
// ============================================================================

/// The display backend in use: on Linux "wayland" if `WAYLAND_DISPLAY` is
/// set, else "x11" if `DISPLAY` is set; otherwise none.
pub fn get_display_backend(p: Platform, wayland_display_set: bool, display_set: bool) -> (r: Option<String>)
    ensures
        p != Platform::Linux ==> r is None,
        p == Platform::Linux && wayland_display_set ==> (r matches Some(b) && b@ == "wayland"@),
        p == Platform::Linux && !wayland_display_set && display_set ==> (r matches Some(b) && b@
            == "x11"@),
        p == Platform::Linux && !wayland_display_set && !display_set ==> r is None,
{
    if p == Platform::Linux {
        if wayland_display_set {
            return Some(String::from_str("wayland"));
        } else if display_set {
            return Some(String::from_str("x11"));
        }
    }
    None
}

/// What a desktop menu action asks for.
#[derive(Debug, Clone, Copy, PartialEq, Eq, Structural)]
pub enum MenuAction {
    /// Tell the renderer to check for updates.
    CheckForUpdates,
    /// Start the application again and quit this instance.
    Relaunch,
    /// Close the window.
    Quit,
    /// An action with no handler.
    Unknown,
}

/// The action named `action`.
pub fn run_desktop_menu_action(action: &String) -> (a: MenuAction)
    ensures
        action@ == "check-for-updates"@ ==> a == MenuAction::CheckForUpdates,
        action@ == "relaunch"@ ==> a == MenuAction::Relaunch,
        action@ == "quit"@ ==> a == MenuAction::Quit,
        action@ != "check-for-updates"@ && action@ != "relaunch"@ && action@ != "quit"@ ==> a
            == MenuAction::Unknown,
{
    proof {
        reveal_strlit("check-for-updates");
        reveal_strlit("relaunch");
        reveal_strlit("quit");
        assert("check-for-updates"@.len() == 17);
        assert("relaunch"@.len() == 8);
        assert("quit"@.len() == 4);
    }
    if *action == String::from_str("check-for-updates") {
        MenuAction::CheckForUpdates
    } else if *action == String::from_str("relaunch") {
        MenuAction::Relaunch
    } else if *action == String::from_str("quit") {
        MenuAction::Quit
    } else {
        MenuAction::Unknown
    }
}

// ============================================================================
// Small commands
// ============================================================================

/// The application's version.
pub fn get_app_version() -> (v: String)
    ensures
        v@ == "1.17.8"@,
{
    String::from_str("1.17.8")
}

/// Markdown as the renderer gets it back: unchanged.
pub fn parse_markdown(markdown: String) -> (r: String)
    ensures
        r == markdown,
{
    markdown
}

/// The text of a log: each line followed by a newline.
pub open spec fn log_text(lines: Seq<Seq<char>>) -> Seq<char>
    decreases lines.len(),
{
    if lines.len() == 0 {
        Seq::<char>::empty()
    } else {
        log_text(lines.drop_last()) + lines.last().push('\n')
    }
}

/// Where the debug logs go and what is written there.
pub struct DebugLogExport {
    pub path: String,
    pub contents: String,
}

/// The export of the debug logs `lines`: the file `debug.log` in the
/// application data directory `data_dir`, holding the lines one per line.
pub fn export_debug_logs(p: Platform, data_dir: &str, lines: &Vec<String>) -> (e: DebugLogExport)
    ensures
        e.path@ == crate::config::path_join(p, data_dir@, "debug.log"@),
        e.contents@ == log_text(views(lines@)),
{
    let path = crate::config::join_path(p, data_dir, "debug.log");
    let mut contents = String::new();
    let n = lines.len();
    let mut i: usize = 0;
    while i < n
        invariant
            i <= n == lines@.len(),
            contents@ == log_text(views(lines@.subrange(0, i as int))),
        decreases n - i,
    {
        let ghost before = contents@;
        contents.append(lines[i].as_str());
        push_char(&mut contents, '\n');
        assert(views(lines@.subrange(0, i + 1)).drop_last() =~= views(lines@.subrange(0, i as int)));
        assert(contents@ =~= before + lines@[i as int]@.push('\n'));
        i = i + 1;
    }
    assert(lines@.subrange(0, n as int) =~= lines@);
    DebugLogExport { path, contents }
}

// ============================================================================
// WSL
// ============================================================================

/// The error of a WSL command off Windows.
pub open spec fn wsl_only_message() -> Seq<char> {
    "WSL is only available on Windows"@
}

/// WSL commands run on Windows only.
pub fn wsl_only(p: Platform) -> (r: Result<(), String>)
    ensures
        r is Ok <==> p == Platform::Windows,
        r matches Err(m) ==> m@ == wsl_only_message(),
{
    if p == Platform::Windows {
        Ok(())
    } else {
        Err(String::from_str("WSL is only available on Windows"))
    }
}

/// A row of `wsl --list --verbose`, as text.
pub struct DistroRow {
    pub id: Seq<char>,
    pub name: Seq<char>,
    pub state: Seq<char>,
    pub version: Option<Seq<char>>,
}

/// The row that the words of a line make: the first three words are the
/// id, name and state, a fourth is the version.
pub open spec fn row_of(w: Seq<Seq<char>>) -> DistroRow {
    DistroRow {
        id: w[0],
        name: w[1],
        state: w[2],
        version: if w.len() > 3 { Some(w[3]) } else { None },
    }
}

/// The rows of the given lines: each line of at least three words gives a
/// row, other lines none.
pub open spec fn distro_rows(ls: Seq<Seq<char>>) -> Seq<DistroRow>
    decreases ls.len(),
{
    if ls.len() == 0 {
        seq![]
    } else {
        let prev = distro_rows(ls.drop_last());
        let w = words(ls.last());
        if w.len() >= 3 {
            prev.push(row_of(w))
        } else {
            prev
        }
    }
}

/// The distros that `wsl --list --verbose` printed: the rows of its lines
/// after the first (the header).
pub open spec fn wsl_distros(out: Seq<char>) -> Seq<DistroRow> {
    let ls = lines(out);
    if ls.len() == 0 {
        seq![]
    } else {
        distro_rows(ls.drop_first())
    }
}

impl WslDistroInfo {
    /// The row that this distro was read from.
    pub open spec fn row(&self) -> DistroRow {
        DistroRow {
            id: self.id@,
            name: self.name@,
            state: self.state@,
            version: crate::config::opt_view(self.version),
        }
    }
}

/// The distros of a `wsl --list --verbose` listing.
pub fn parse_wsl_distros(stdout: &str) -> (r: Vec<WslDistroInfo>)
    ensures
        r@.map_values(|d: WslDistroInfo| d.row()) == wsl_distros(stdout@),
{
    let chars = chars_of(stdout);
    let ls = split_lines(&chars);
    let ghost all = views(ls@);
    let mut r: Vec<WslDistroInfo> = Vec::new();
    let n = ls.len();
    if n == 0 {
        assert(r@.map_values(|d: WslDistroInfo| d.row()) =~= Seq::<DistroRow>::empty());
        return r;
    }
    let mut i: usize = 1;
    assert(all.drop_first().subrange(0, 0) =~= Seq::<Seq<char>>::empty());
    while i < n
        invariant
            1 <= i <= n == ls@.len() == all.len(),
            all == views(ls@),
            all == lines(stdout@),
            r@.map_values(|d: WslDistroInfo| d.row()) == distro_rows(all.drop_first().subrange(0, i - 1)),
        decreases n - i,
    {
        let line_chars = chars_of(ls[i].as_str());
        let w = split_words(&line_chars);
        let ghost before = r@;
        let ghost sub = all.drop_first().subrange(0, i as int);
        assert(sub.drop_last() =~= all.drop_first().subrange(0, i - 1));
        assert(sub.last() == ls@[i as int]@);
        if w.len() >= 3 {
            let version = if w.len() > 3 { Some(w[3].clone()) } else { None };
            let d = WslDistroInfo {
                id: w[0].clone(),
                name: w[1].clone(),
                state: w[2].clone(),
                version,
            };
            assert(d.row() == row_of(words(sub.last())));
            r.push(d);
            assert(r@.map_values(|d: WslDistroInfo| d.row()) =~= before.map_values(
                |d: WslDistroInfo| d.row(),
            ).push(row_of(words(sub.last()))));
        }
        i = i + 1;
    }
    assert(all.drop_first().subrange(0, n - 1) =~= all.drop_first());
    r
}

/// The text of `bytes` if they are UTF-8, else `fallback`.
pub open spec fn text_or(bytes: Seq<u8>, fallback: Seq<char>) -> Seq<char> {
    if valid_utf8(bytes) { decode_utf8(bytes) } else { fallback }
}

fn text_or_else(bytes: &Vec<u8>, fallback: &str) -> (s: String)
    ensures
        s@ == text_or(bytes@, fallback@),
{
    match utf8_text(copy_bytes(bytes)) {
        Ok(t) => t,
        Err(_) => String::from_str(fallback),
    }
}

/// The distros that `wsl --list --verbose` reported: its error output (or a
/// fixed message if that is not UTF-8) when it failed, an error if its
/// output is not UTF-8, else the distros of its listing.
pub fn wsl_servers_refresh_distros(out: &CommandOutput) -> (r: Result<Vec<WslDistroInfo>, String>)
    ensures
        !out.success ==> (r matches Err(m) && m@ == text_or(
            out.stderr@,
            "Failed to list WSL distros"@,
        )),
        out.success ==> (r is Err <==> !valid_utf8(out.stdout@)),
        out.success && !valid_utf8(out.stdout@) ==> (r matches Err(e) && e@ == utf8_error_text(
            out.stdout@,
        )),
        out.success && valid_utf8(out.stdout@) ==> (r matches Ok(v) && v@.map_values(
            |d: WslDistroInfo| d.row(),
        ) == wsl_distros(decode_utf8(out.stdout@))),
{
    if !out.success {
        return Err(text_or_else(&out.stderr, "Failed to list WSL distros"));
    }
    match utf8_text(copy_bytes(&out.stdout)) {
        Ok(text) => Ok(parse_wsl_distros(text.as_str())),
        Err(e) => Err(e),
    }
}

/// The command that lists the WSL distros.
pub fn wsl_list_command() -> (c: CommandLine)
    ensures
        c.program@ == "wsl"@,
        c.args@.len() == 2,
        c.args@[0]@ == "--list"@,
        c.args@[1]@ == "--verbose"@,
{
    let mut args: Vec<String> = Vec::new();
    args.push(String::from_str("--list"));
    args.push(String::from_str("--verbose"));
    CommandLine { program: String::from_str("wsl"), args }
}

/// What probing the WSL runtime found.
pub enum WslRuntime {
    /// WSL is installed; `distros` is its listing.
    Installed { version: String, distros: String },
    /// WSL is not there; why.
    Missing { error: String },
}

/// What probing the WSL runtime found: off Windows, that it is not
/// available; on Windows, from the output of `wsl --list --verbose`.
pub fn wsl_servers_probe_runtime(p: Platform, out: Option<CommandOutput>) -> (r: Result<WslRuntime, String>)
    requires
        p == Platform::Windows ==> out is Some,
    ensures
        p != Platform::Windows ==> (r matches Ok(WslRuntime::Missing { error }) && error@
            == "Not available on this platform"@),
        p == Platform::Windows && out->0.success ==> (r is Err <==> !valid_utf8(out->0.stdout@)),
        r matches Err(e) ==> e@ == utf8_error_text(out->0.stdout@),
        p == Platform::Windows && out->0.success && valid_utf8(out->0.stdout@) ==> (r matches Ok(
            WslRuntime::Installed { version, distros },
        ) && version@ == "2"@ && distros@ == decode_utf8(out->0.stdout@)),
        p == Platform::Windows && !out->0.success ==> (r matches Ok(WslRuntime::Missing { error })
            && error@ == text_or(out->0.stderr@, Seq::<char>::empty())),
{
    if p != Platform::Windows {
        return Ok(WslRuntime::Missing { error: String::from_str("Not available on this platform") });
    }
    let out = out.unwrap();
    if out.success {
        match utf8_text(out.stdout) {
            Ok(text) => Ok(WslRuntime::Installed { version: String::from_str("2"), distros: text }),
            Err(e) => Err(e),
        }
    } else {
        proof {
            reveal_strlit("");
        }
        Ok(WslRuntime::Missing { error: text_or_else(&out.stderr, "") })
    }
}

/// The command that checks that distro `name` runs.
pub fn wsl_probe_command(name: &String) -> (c: CommandLine)
    ensures
        c.program@ == "wsl"@,
        c.args@.len() == 5,
        c.args@[0]@ == "-d"@,
        c.args@[1] == *name,
        c.args@[2]@ == "--exec"@,
        c.args@[3]@ == "echo"@,
        c.args@[4]@ == "probed"@,
{
    let mut args: Vec<String> = Vec::new();
    args.push(String::from_str("-d"));
    args.push(name.clone());
    args.push(String::from_str("--exec"));
    args.push(String::from_str("echo"));
    args.push(String::from_str("probed"));
    CommandLine { program: String::from_str("wsl"), args }
}

/// What probing a distro found.
pub enum WslDistroProbe {
    /// The distro runs.
    Available { distro: String, message: String },
    /// The distro does not run; why.
    Unavailable { distro: String, error: String },
}

/// What probing distro `name` found, from the output of the probe command.
pub fn wsl_servers_probe_distro(name: String, out: &CommandOutput) -> (r: WslDistroProbe)
    ensures
        out.success ==> (r matches WslDistroProbe::Available { distro, message } && distro == name
            && message@ == "Distro is accessible"@),
        !out.success ==> (r matches WslDistroProbe::Unavailable { distro, error } && distro == name
            && error@ == text_or(out.stderr@, Seq::<char>::empty())),
{
    if out.success {
        WslDistroProbe::Available { distro: name, message: String::from_str("Distro is accessible") }
    } else {
        proof {
            reveal_strlit("");
        }
        WslDistroProbe::Unavailable { distro: name, error: text_or_else(&out.stderr, "") }
    }
}

/// The command that opens a terminal in distro `name`.
pub fn wsl_terminal_command(name: &String) -> (c: CommandLine)
    ensures
        c.program@ == "wsl"@,
        c.args@.len() == 2,
        c.args@[0]@ == "-d"@,
        c.args@[1] == *name,
{
    let mut args: Vec<String> = Vec::new();
    args.push(String::from_str("-d"));
    args.push(name.clone());
    CommandLine { program: String::from_str("wsl"), args }
}

/// Where WSL is installed from: its page in the Microsoft Store.
pub fn wsl_store_url() -> (u: String)
    ensures
        u@ == "ms-windows-store://pdp/?ProductId=9P9TQF7MRM4R"@,
{
    String::from_str("ms-windows-store://pdp/?ProductId=9P9TQF7MRM4R")
}

/// Reading `wsl --list --verbose`: the first line is a header and gives no
/// distro; each later line with at least three words gives one distro, in
/// order, whose id, name and state are its first three words and whose
/// version is its fourth word if it has one; other lines give none.
pub proof fn law_wsl_distros(header: Seq<char>, rest: Seq<char>, ls: Seq<Seq<char>>, l: Seq<char>)
    requires
        forall|i: int| 0 <= i < header.len() ==> #[trigger] header[i] != '\n',
    ensures
        wsl_distros(header).len() == 0,
        wsl_distros(header.push('\n') + rest) == distro_rows(lines(rest)),
        words(l).len() < 3 ==> distro_rows(ls.push(l)) == distro_rows(ls),
        words(l).len() >= 3 ==> {
            let r = distro_rows(ls.push(l));
            let w = words(l);
            &&& r.drop_last() == distro_rows(ls)
            &&& r.last().id == w[0] && r.last().name == w[1] && r.last().state == w[2]
            &&& r.last().version == (if w.len() >= 4 { Some(w[3]) } else { None::<Seq<char>> })
        },
{
    crate::text::law_lines(header, rest);
    crate::text::law_lines(header, Seq::<char>::empty());
    if header.len() > 0 {
        assert(lines(header).drop_first() =~= Seq::<Seq<char>>::empty());
    }
    let ls2 = lines(header.push('\n') + rest);
    assert(ls2.drop_first() =~= lines(rest));
    assert(ls.push(l).drop_last() =~= ls);
    assert(ls.push(l).last() == l);
}

/// A debug log holds each line followed by a line feed: the log of one line
/// is that line and `\n`, and the log of two runs of lines is the log of the
/// first followed by the log of the second.
pub proof fn law_log_text(a: Seq<Seq<char>>, b: Seq<Seq<char>>, l: Seq<char>)
    ensures
        log_text(seq![l]) == l + seq!['\n'],
        log_text(a + b) == log_text(a) + log_text(b),
    decreases b.len(),
{
    assert(seq![l].drop_last() =~= Seq::<Seq<char>>::empty());
    assert(seq![l].last() == l);
    assert(log_text(Seq::<Seq<char>>::empty()) =~= Seq::<char>::empty());
    assert(log_text(seq![l]) == log_text(seq![l].drop_last()) + seq![l].last().push('\n'));
    assert(Seq::<char>::empty() + l.push('\n') =~= l + seq!['\n']);
    if b.len() == 0 {
        assert(a + b =~= a);
        assert(log_text(b) =~= Seq::<char>::empty());
        assert(log_text(a) + log_text(b) =~= log_text(a));
    } else {
        law_log_text(a, b.drop_last(), l);
        assert((a + b).drop_last() =~= a + b.drop_last());
        assert((a + b).last() == b.last());
        assert(log_text(a + b) =~= log_text(a) + log_text(b));
    }
}

/// On macOS an application is looked up by its display name: the query
/// compares `kMDItemDisplayName` with the name in single quotes.
pub proof fn law_mdfind_query(app_name: Seq<char>)
    ensures
        mdfind_query(app_name) == "kMDItemDisplayName == '"@ + app_name + seq!['\''],
{
    reveal_strlit("'");
    assert("'"@ =~= seq!['\'']);
}

// ============================================================================
// Laws
// ============================================================================

/// Whether `c` is a lower-case hexadecimal digit.
pub open spec fn is_hex_digit(c: char) -> bool {
    ('0' <= c && c <= '9') || ('a' <= c && c <= 'f')
}

/// Whether `c` is an ASCII letter or digit.
pub open spec fn is_alphanumeric(c: char) -> bool {
    ('0' <= c && c <= '9') || ('a' <= c && c <= 'z') || ('A' <= c && c <= 'Z')
}

/// A token is two lower-case hexadecimal digits per byte.
pub proof fn law_token_is_hex(bytes: Seq<u8>)
    ensures
        hex_of(bytes).len() == 2 * bytes.len(),
        forall|i: int| 0 <= i < hex_of(bytes).len() ==> is_hex_digit(#[trigger] hex_of(bytes)[i]),
    decreases bytes.len(),
{
    lemma_hex_of_len(bytes);
    if bytes.len() > 0 {
        law_token_is_hex(bytes.drop_last());
        let prev = hex_of(bytes.drop_last());
        let b = bytes.last();
        assert forall|i: int| 0 <= i < hex_of(bytes).len() implies is_hex_digit(
            #[trigger] hex_of(bytes)[i],
        ) by {
            if i >= prev.len() {
                assert(hex_of(bytes)[i] == hex_byte(b)[i - prev.len()]);
                assert(b / 16 < 16);
            } else {
                assert(hex_of(bytes)[i] == prev[i]);
            }
        }
    }
}

/// A password is one ASCII letter or digit per byte.
pub proof fn law_password_is_alphanumeric(bytes: Seq<u8>)
    ensures
        password_of(bytes).len() == bytes.len(),
        forall|i: int|
            0 <= i < password_of(bytes).len() ==> is_alphanumeric(#[trigger] password_of(bytes)[i]),
{
    assert forall|i: int| 0 <= i < password_of(bytes).len() implies is_alphanumeric(
        #[trigger] password_of(bytes)[i],
    ) by {
        let b = bytes[i];
        assert(password_of(bytes)[i] == password_char(b));
        let c = password_char(b);
        if b % 3 == 0 {
            assert((97 + b % 26) as u8 as char == c);
            assert(97 <= 97 + b % 26 <= 122);
        } else if b % 3 == 1 {
            assert(65 <= 65 + b % 26 <= 90);
        } else {
            assert(48 <= 48 + b % 10 <= 57);
        }
    }
}

/// The value of a lower-case hexadecimal digit.
pub open spec fn hex_digit_value(c: char) -> int {
    if '0' <= c && c <= '9' {
        c as int - '0' as int
    } else {
        c as int - 'a' as int + 10
    }
}

proof fn lemma_hex_of_pair(bytes: Seq<u8>, i: int)
    requires
        0 <= i < bytes.len(),
    ensures
        hex_of(bytes).len() == 2 * bytes.len(),
        hex_of(bytes)[2 * i] == hex_byte(bytes[i])[0],
        hex_of(bytes)[2 * i + 1] == hex_byte(bytes[i])[1],
    decreases bytes.len(),
{
    lemma_hex_of_len(bytes);
    lemma_hex_of_len(bytes.drop_last());
    if i < bytes.len() - 1 {
        lemma_hex_of_pair(bytes.drop_last(), i);
        assert(bytes.drop_last()[i] == bytes[i]);
    }
}

/// Each byte of a token is written as two lower-case hexadecimal digits
/// that read back as the byte: first the high four bits, then the low four.
pub proof fn law_token_reads_back(bytes: Seq<u8>, i: int)
    requires
        0 <= i < bytes.len(),
    ensures
        is_hex_digit(hex_of(bytes)[2 * i]),
        is_hex_digit(hex_of(bytes)[2 * i + 1]),
        hex_digit_value(hex_of(bytes)[2 * i]) * 16 + hex_digit_value(hex_of(bytes)[2 * i + 1])
            == bytes[i] as int,
{
    lemma_hex_of_pair(bytes, i);
    let b = bytes[i];
    let hi = (b / 16) as nat;
    let lo = (b % 16) as nat;
    assert(hi < 16 && lo < 16);
    assert(hex_byte(b)[0] == crate::text::hex_char(hi));
    assert(hex_byte(b)[1] == crate::text::hex_char(lo));
    assert(is_hex_digit(crate::text::hex_char(hi)) && hex_digit_value(crate::text::hex_char(hi)) == hi);
    assert(is_hex_digit(crate::text::hex_char(lo)) && hex_digit_value(crate::text::hex_char(lo)) == lo);
    assert(hi * 16 + lo == b as int);
}

/// Each password character is decided by its byte `b`: for `b % 3 == 0` the
/// lower-case letter `b % 26` places after `a`, for `b % 3 == 1` the
/// upper-case letter `b % 26` places after `A`, otherwise the digit
/// `b % 10`.
pub proof fn law_password_characters(bytes: Seq<u8>, i: int)
    requires
        0 <= i < bytes.len(),
    ensures
        bytes[i] % 3 == 0 ==> 'a' <= password_of(bytes)[i] <= 'z' && password_of(bytes)[i] as int
            - 'a' as int == bytes[i] % 26,
        bytes[i] % 3 == 1 ==> 'A' <= password_of(bytes)[i] <= 'Z' && password_of(bytes)[i] as int
            - 'A' as int == bytes[i] % 26,
        bytes[i] % 3 == 2 ==> '0' <= password_of(bytes)[i] <= '9' && password_of(bytes)[i] as int
            - '0' as int == bytes[i] % 10,
{
    let b = bytes[i];
    assert(password_of(bytes)[i] == password_char(b));
    if b % 3 == 0 {
        assert(97 <= 97 + b % 26 <= 122);
    } else if b % 3 == 1 {
        assert(65 <= 65 + b % 26 <= 90);
    } else {
        assert(48 <= 48 + b % 10 <= 57);
    }
}

/// The sidecar's address is `http://127.0.0.1:` followed by the decimal
/// digits of its port, which read back as the port.
pub proof fn law_sidecar_url_names_port(port: u16)
    ensures
        ({
            let u = sidecar_url(port);
            let k = "http://127.0.0.1:"@.len();
            &&& u.len() > k
            &&& u.subrange(0, k as int) == "http://127.0.0.1:"@
            &&& crate::text::digits_value(u.subrange(k as int, u.len() as int)) == port as int
        }),
{
    let u = sidecar_url(port);
    let k = "http://127.0.0.1:"@.len();
    crate::text::law_decimal_reads_back(port as nat);
    assert(u.subrange(0, k as int) =~= "http://127.0.0.1:"@);
    assert(u.subrange(k as int, u.len() as int) =~= decimal(port as nat));
}

/// A window's label is `window-` followed by the decimal digits of the
/// number drawn for it, which read back as that number.
pub proof fn law_window_label_names_number(n: u16)
    ensures
        ({
            let l = window_label(n);
            let k = "window-"@.len();
            &&& l.len() > k
            &&& l.subrange(0, k as int) == "window-"@
            &&& crate::text::digits_value(l.subrange(k as int, l.len() as int)) == n as int
        }),
{
    let l = window_label(n);
    let k = "window-"@.len();
    crate::text::law_decimal_reads_back(n as nat);
    assert(l.subrange(0, k as int) =~= "window-"@);
    assert(l.subrange(k as int, l.len() as int) =~= decimal(n as nat));
}

} // verus!
