//! Where the hub keeps its files.

use crate::numeral::{parse_number, read_number};
use crate::text::{
    begins, chars_of, concat, concat3, contains, ends, ends_with, filled, join, joined, occurs,
    opt_str, opt_text, or_text, own, starts_with, string_of, texts, trim, trimmed,
};
use vstd::prelude::*;

verus! {

/// The setting that names the socket.
pub const SOCKET_ENV: &'static str = "GTM_HUB_SOCKET";

/// The setting that names the hub's directory.
pub const HOME_ENV: &'static str = "GTM_HOME";

/// What the surroundings say of directories: the settings, and the user's own
/// directories.
pub struct Places {
    pub gtm_home: Option<String>,
    pub socket: Option<String>,
    pub grok_home: Option<String>,
    pub user_home: Option<String>,
}

/// What the surroundings say of directories, as mathematics.
pub struct Whereabouts {
    pub gtm_home: Option<Seq<char>>,
    pub socket: Option<Seq<char>>,
    pub grok_home: Option<Seq<char>>,
    pub user_home: Option<Seq<char>>,
}

impl View for Places {
    type V = Whereabouts;

    open spec fn view(&self) -> Whereabouts {
        Whereabouts {
            gtm_home: opt_text(self.gtm_home),
            socket: opt_text(self.socket),
            grok_home: opt_text(self.grok_home),
            user_home: opt_text(self.user_home),
        }
    }
}

/// A path inside a directory. A path from the root stands for itself.
pub open spec fn path_join(dir: Seq<char>, part: Seq<char>) -> Seq<char> {
    if begins(part, "/"@) || dir.len() == 0 {
        part
    } else if ends(dir, "/"@) {
        dir + part
    } else {
        dir + "/"@ + part
    }
}

/// A path inside a directory. A path from the root stands for itself.
pub fn join_path(dir: &str, part: &str) -> (r: String)
    ensures
        r@ == path_join(dir@, part@),
{
    if starts_with(part, "/") || dir.is_empty() {
        own(part)
    } else if ends_with(dir, "/") {
        concat(dir, part)
    } else {
        concat3(dir, "/", part)
    }
}

/// The directory that std finds a path in, if it finds one.
pub uninterp spec fn parent_of(path: Seq<char>) -> Option<Seq<char>>;

/// `std::path::Path::parent`: the path without its last component, none for
/// the root and for the empty path. On the Unix systems that the hub is for it
/// is a function of the path alone.
#[verifier::external_body]
fn parent_dir(path: &str) -> (r: Option<String>)
    ensures
        opt_text(r) == parent_of(path@),
{
    std::path::Path::new(path).parent().map(|p| p.to_string_lossy().into_owned())
}

/// The lock file beside a socket, given the socket's directory.
pub open spec fn lock_beside(dir: Option<Seq<char>>, otherwise: Seq<char>) -> Seq<char> {
    match dir {
        Some(d) => path_join(d, "hub.lock"@),
        None => otherwise,
    }
}

/// The lock file beside a socket, given the socket's directory.
pub fn lock_in(dir: Option<&str>, otherwise: &str) -> (r: String)
    ensures
        r@ == lock_beside(opt_str(dir), otherwise@),
{
    match dir {
        Some(d) => join_path(d, "hub.lock"),
        None => own(otherwise),
    }
}

/// The lock file of a hub on a socket: beside it, or the socket itself where it
/// has no directory.
pub fn lock_path_for(socket: &str) -> (r: String)
    ensures
        r@ == lock_beside(parent_of(socket@), socket@),
{
    match parent_dir(socket) {
        Some(d) => lock_in(Some(d.as_str()), socket),
        None => lock_in(None, socket),
    }
}

impl Whereabouts {
    /// The user's directory, or the current one.
    pub open spec fn user(self) -> Seq<char> {
        or_text(self.user_home, "."@)
    }

    /// The hub's directory.
    pub open spec fn home(self) -> Seq<char> {
        or_text(filled(self.gtm_home), path_join(self.user(), ".gtm"@))
    }

    /// The hub's socket.
    pub open spec fn sock(self) -> Seq<char> {
        or_text(filled(self.socket), path_join(self.home(), "hub.sock"@))
    }

    /// The hub's lock file.
    pub open spec fn lock(self) -> Seq<char> {
        lock_beside(parent_of(self.sock()), path_join(self.home(), "hub.lock"@))
    }

    /// The directory of all sessions on disk.
    pub open spec fn sessions(self) -> Seq<char> {
        match filled(self.grok_home) {
            Some(h) => path_join(h, "sessions"@),
            None => path_join(path_join(self.user(), ".grok"@), "sessions"@),
        }
    }

    /// Where the file for a new device goes if nothing says otherwise.
    pub open spec fn enroll(self) -> Seq<char> {
        path_join(self.home(), "gtm-hub.enroll"@)
    }

    /// The file of a device that was let in.
    pub open spec fn device(self, id: Seq<char>) -> Seq<char> {
        path_join(self.devices(), id + ".json"@)
    }

    /// The hub's log.
    pub open spec fn log(self) -> Seq<char> {
        path_join(self.home(), "hub.log"@)
    }

    /// The directory of the hub's certificate authority.
    pub open spec fn ca(self) -> Seq<char> {
        path_join(self.home(), "ca"@)
    }

    /// The certificate of the hub's authority.
    pub open spec fn ca_cert(self) -> Seq<char> {
        path_join(self.ca(), "ca.pem"@)
    }

    /// The key of the hub's authority.
    pub open spec fn ca_key(self) -> Seq<char> {
        path_join(self.ca(), "ca.key"@)
    }

    /// The directory of the listener's certificate.
    pub open spec fn tls(self) -> Seq<char> {
        path_join(self.home(), "tls"@)
    }

    /// The listener's certificate.
    pub open spec fn tls_cert(self) -> Seq<char> {
        path_join(self.tls(), "server.pem"@)
    }

    /// The listener's key.
    pub open spec fn tls_key(self) -> Seq<char> {
        path_join(self.tls(), "server.key"@)
    }

    /// The directory of the devices that were let in.
    pub open spec fn devices(self) -> Seq<char> {
        path_join(self.home(), "devices"@)
    }

    /// The file that holds the hub's id.
    pub open spec fn hub_id(self) -> Seq<char> {
        path_join(self.home(), "hub-id"@)
    }
}

/// A setting that says something.
fn said<'a>(o: &'a Option<String>) -> (r: Option<&'a str>)
    ensures
        opt_str(r) == filled(opt_text(*o)),
{
    match o {
        Some(s) => if s.as_str().is_empty() {
            None
        } else {
            Some(s.as_str())
        },
        None => None,
    }
}

impl Places {
    /// The user's directory, or the current one.
    fn user(&self) -> (r: &str)
        ensures
            r@ == self@.user(),
    {
        match &self.user_home {
            Some(h) => h.as_str(),
            None => ".",
        }
    }

    /// The hub's directory.
    pub fn gtm_home(&self) -> (r: String)
        ensures
            r@ == self@.home(),
    {
        match said(&self.gtm_home) {
            Some(h) => own(h),
            None => join_path(self.user(), ".gtm"),
        }
    }

    /// The hub's socket.
    pub fn socket_path(&self) -> (r: String)
        ensures
            r@ == self@.sock(),
    {
        match said(&self.socket) {
            Some(p) => own(p),
            None => join_path(self.gtm_home().as_str(), "hub.sock"),
        }
    }

    /// The hub's lock file: beside its socket.
    pub fn lock_path(&self) -> (r: String)
        ensures
            r@ == self@.lock(),
    {
        let otherwise: String = join_path(self.gtm_home().as_str(), "hub.lock");
        match parent_dir(self.socket_path().as_str()) {
            Some(d) => lock_in(Some(d.as_str()), otherwise.as_str()),
            None => lock_in(None, otherwise.as_str()),
        }
    }

    /// The directory of all sessions on disk.
    pub fn grok_sessions_root(&self) -> (r: String)
        ensures
            r@ == self@.sessions(),
    {
        match said(&self.grok_home) {
            Some(h) => join_path(h, "sessions"),
            None => join_path(join_path(self.user(), ".grok").as_str(), "sessions"),
        }
    }

    /// Where the file for a new device goes if nothing says otherwise.
    pub fn default_enroll_path(&self) -> (r: String)
        ensures
            r@ == self@.enroll(),
    {
        join_path(self.gtm_home().as_str(), "gtm-hub.enroll")
    }

    /// The file of a device that was let in.
    pub fn device_path(&self, id: &str) -> (r: String)
        ensures
            r@ == self@.device(id@),
    {
        join_path(self.devices_dir().as_str(), concat(id, ".json").as_str())
    }

    /// The hub's log.
    pub fn log_path(&self) -> (r: String)
        ensures
            r@ == self@.log(),
    {
        join_path(self.gtm_home().as_str(), "hub.log")
    }

    /// The directory of the hub's certificate authority.
    pub fn ca_dir(&self) -> (r: String)
        ensures
            r@ == self@.ca(),
    {
        join_path(self.gtm_home().as_str(), "ca")
    }

    /// The certificate of the hub's authority.
    pub fn ca_cert_path(&self) -> (r: String)
        ensures
            r@ == self@.ca_cert(),
    {
        join_path(self.ca_dir().as_str(), "ca.pem")
    }

    /// The key of the hub's authority.
    pub fn ca_key_path(&self) -> (r: String)
        ensures
            r@ == self@.ca_key(),
    {
        join_path(self.ca_dir().as_str(), "ca.key")
    }

    /// The directory of the listener's certificate.
    pub fn tls_dir(&self) -> (r: String)
        ensures
            r@ == self@.tls(),
    {
        join_path(self.gtm_home().as_str(), "tls")
    }

    /// The listener's certificate.
    pub fn tls_cert_path(&self) -> (r: String)
        ensures
            r@ == self@.tls_cert(),
    {
        join_path(self.tls_dir().as_str(), "server.pem")
    }

    /// The listener's key.
    pub fn tls_key_path(&self) -> (r: String)
        ensures
            r@ == self@.tls_key(),
    {
        join_path(self.tls_dir().as_str(), "server.key")
    }

    /// The directory of the devices that were let in.
    pub fn devices_dir(&self) -> (r: String)
        ensures
            r@ == self@.devices(),
    {
        join_path(self.gtm_home().as_str(), "devices")
    }

    /// The file that holds the hub's id.
    pub fn hub_id_path(&self) -> (r: String)
        ensures
            r@ == self@.hub_id(),
    {
        join_path(self.gtm_home().as_str(), "hub-id")
    }
}

/// The process that a lock file names.
pub open spec fn locked_pid(text: Option<Seq<char>>) -> Option<u32> {
    match text {
        Some(t) => match read_number(trimmed(t), u32::MAX as nat) {
            Some(n) => Some(n as u32),
            None => None,
        },
        None => None,
    }
}

/// The process that a lock file names, of what could be read of the file.
pub fn read_pid(text: Option<&str>) -> (r: Option<u32>)
    ensures
        r == locked_pid(opt_str(text)),
{
    match text {
        Some(t) => match parse_number(trim(t).as_str(), 4294967295) {
            Some(n) => Some(n as u32),
            None => None,
        },
        None => None,
    }
}

/// The position of the first colon from `i` on, or the end.
pub open spec fn colon_from(s: Seq<char>, i: int) -> int
    decreases s.len() - i,
{
    if i >= s.len() || s[i] == ':' {
        i
    } else {
        colon_from(s, i + 1)
    }
}

/// The pieces of `s` between colons, from `i` on.
pub open spec fn pieces_from(s: Seq<char>, i: int) -> Seq<Seq<char>>
    decreases s.len() - i,
    when 0 <= i <= s.len()
    via pieces_from_decreases
{
    let k = colon_from(s, i);
    if k < s.len() {
        seq![s.subrange(i, k)] + pieces_from(s, k + 1)
    } else {
        seq![s.subrange(i, k)]
    }
}

#[via_fn]
proof fn pieces_from_decreases(s: Seq<char>, i: int) {
    lemma_colon_from(s, i);
}

proof fn lemma_colon_from(s: Seq<char>, i: int)
    requires
        0 <= i <= s.len(),
    ensures
        i <= colon_from(s, i) <= s.len(),
    decreases s.len() - i,
{
    if i < s.len() && s[i] != ':' {
        lemma_colon_from(s, i + 1);
    }
}

/// The directories of a search path.
pub fn split_search_path(path: &str) -> (r: Vec<String>)
    ensures
        texts(r@) == pieces_from(path@, 0),
{
    let v: Vec<char> = chars_of(path);
    let mut out: Vec<String> = Vec::new();
    let mut start: usize = 0;
    let mut more: bool = true;
    proof {
        assert(texts(out@) + pieces_from(path@, 0) =~= pieces_from(path@, 0));
    }
    while more
        invariant
            v@ == path@,
            start <= v.len(),
            pieces_from(path@, 0) == texts(out@) + (if more {
                pieces_from(path@, start as int)
            } else {
                Seq::empty()
            }),
        decreases (if more { v@.len() - start + 1 } else { 0 }),
    {
        let mut k: usize = start;
        while k < v.len() && v[k] != ':'
            invariant
                start <= k <= v.len(),
                v@ == path@,
                colon_from(path@, start as int) == colon_from(path@, k as int),
            decreases v@.len() - k,
        {
            k = k + 1;
        }
        let piece: String = string_of(&v, start, k);
        let ghost before = texts(out@);
        let ghost rest = if k < path@.len() {
            pieces_from(path@, k + 1)
        } else {
            Seq::empty()
        };
        out.push(piece);
        proof {
            assert(texts(out@) =~= before.push(piece@));
            assert(before + (seq![piece@] + rest) =~= before.push(piece@) + rest);
            assert(seq![piece@] + Seq::<Seq<char>>::empty() =~= seq![piece@]);
        }
        if k < v.len() {
            start = k + 1;
        } else {
            more = false;
        }
    }
    proof {
        assert(texts(out@) + Seq::<Seq<char>>::empty() =~= texts(out@));
    }
    out
}

/// Whether std takes two paths for the same.
pub uninterp spec fn same_path(a: Seq<char>, b: Seq<char>) -> bool;

/// `std::path::Path`'s equality: whether two paths have the same components. On
/// the Unix systems that the hub is for it is a function of the paths alone.
#[verifier::external_body]
fn path_eq(a: &str, b: &str) -> (r: bool)
    ensures
        r == same_path(a@, b@),
{
    std::path::Path::new(a) == std::path::Path::new(b)
}

/// Directories with one more, if none of them is the same.
pub open spec fn with_directory(dirs: Seq<Seq<char>>, dir: Seq<char>) -> Seq<Seq<char>> {
    if exists|i: int| 0 <= i < dirs.len() && same_path(#[trigger] dirs[i], dir) {
        dirs
    } else {
        dirs.push(dir)
    }
}

/// Directories with more, each if it is not there yet.
pub open spec fn with_directories(dirs: Seq<Seq<char>>, more: Seq<Seq<char>>) -> Seq<Seq<char>>
    decreases more.len(),
{
    if more.len() == 0 {
        dirs
    } else {
        with_directory(with_directories(dirs, more.drop_last()), more.last())
    }
}

/// The directories that an agent's programs are looked for in, before those of
/// the hub's own search path.
pub open spec fn first_directories(home: Option<Seq<char>>) -> Seq<Seq<char>> {
    let fixed = seq!["/opt/homebrew/bin"@, "/usr/local/bin"@, "/usr/bin"@, "/bin"@];
    match home {
        Some(h) => seq![
            path_join(path_join(h, ".grok"@), "bin"@),
            path_join(path_join(h, ".local"@), "bin"@),
        ] + fixed,
        None => fixed,
    }
}

/// A search path of directories. Where one of them has a colon in its name
/// there is none.
pub open spec fn search_path_of(dirs: Seq<Seq<char>>) -> Seq<char> {
    if exists|i: int| 0 <= i < dirs.len() && occurs(#[trigger] dirs[i], ":"@) {
        Seq::empty()
    } else {
        joined(dirs, ":"@)
    }
}

/// An agent's search path.
pub open spec fn agent_path(home: Option<Seq<char>>, path: Option<Seq<char>>) -> Seq<char> {
    search_path_of(
        match path {
            Some(p) => with_directories(first_directories(home), pieces_from(p, 0)),
            None => first_directories(home),
        },
    )
}

/// Adds a directory if none of those there is the same.
fn add_directory(dirs: &mut Vec<String>, dir: String)
    ensures
        texts(final(dirs)@) == with_directory(texts(old(dirs)@), dir@),
{
    let ghost before = texts(dirs@);
    let mut i: usize = 0;
    while i < dirs.len()
        invariant
            i <= dirs@.len(),
            before == texts(dirs@),
            dirs@ == old(dirs)@,
            forall|j: int| 0 <= j < i ==> !same_path(#[trigger] before[j], dir@),
        decreases dirs@.len() - i,
    {
        if path_eq(dirs[i].as_str(), dir.as_str()) {
            proof {
                assert(same_path(before[i as int], dir@));
            }
            return;
        }
        i = i + 1;
    }
    dirs.push(dir);
    proof {
        assert(texts(dirs@) =~= before.push(dir@));
    }
}

/// An agent's search path, given the user's directory and the hub's own search
/// path.
pub fn search_path(home: Option<&str>, path: Option<&str>) -> (r: String)
    ensures
        r@ == agent_path(opt_str(home), opt_str(path)),
{
    let mut dirs: Vec<String> = Vec::new();
    if let Some(h) = home {
        dirs.push(join_path(join_path(h, ".grok").as_str(), "bin"));
        dirs.push(join_path(join_path(h, ".local").as_str(), "bin"));
    }
    dirs.push(own("/opt/homebrew/bin"));
    dirs.push(own("/usr/local/bin"));
    dirs.push(own("/usr/bin"));
    dirs.push(own("/bin"));
    let ghost first = texts(dirs@);
    proof {
        assert(first =~= first_directories(opt_str(home)));
    }
    if let Some(p) = path {
        let more: Vec<String> = split_search_path(p);
        let ghost all = texts(more@);
        let mut i: usize = 0;
        proof {
            assert(all.take(0) =~= Seq::empty());
        }
        while i < more.len()
            invariant
                i <= more@.len(),
                all == texts(more@),
                texts(dirs@) == with_directories(first, all.take(i as int)),
            decreases more@.len() - i,
        {
            proof {
                assert(all.take(i + 1).drop_last() =~= all.take(i as int));
                assert(all.take(i + 1).last() == more@[i as int]@);
            }
            add_directory(&mut dirs, own(more[i].as_str()));
            i = i + 1;
        }
        proof {
            assert(all.take(i as int) =~= all);
        }
    }
    let ghost whole = texts(dirs@);
    let mut k: usize = 0;
    while k < dirs.len()
        invariant
            k <= dirs@.len(),
            whole == texts(dirs@),
            agent_path(opt_str(home), opt_str(path)) == search_path_of(whole),
            forall|j: int| 0 <= j < k ==> !occurs(#[trigger] whole[j], ":"@),
        decreases dirs@.len() - k,
    {
        if contains(dirs[k].as_str(), ":") {
            proof {
                assert(occurs(whole[k as int], ":"@));
            }
            return String::new();
        }
        k = k + 1;
    }
    join(&dirs, ":")
}

/// The settings that an agent gets on top of the hub's own: those that keep
/// other programs' servers off unless they are set, and its search path.
pub fn child_env(
    cursor_set: bool,
    claude_set: bool,
    home: Option<&str>,
    path: Option<&str>,
) -> (r: Vec<(String, String)>)
    ensures
        r@.len() == (if cursor_set {
            0int
        } else {
            1
        }) + (if claude_set {
            0int
        } else {
            1
        }) + 1,
        !cursor_set ==> r@[0].0@ == "GROK_CURSOR_MCPS_ENABLED"@ && r@[0].1@ == "0"@,
        !claude_set ==> r@[r@.len() - 2].0@ == "GROK_CLAUDE_MCPS_ENABLED"@ && r@[r@.len()
            - 2].1@ == "0"@,
        r@.last().0@ == "PATH"@,
        r@.last().1@ == agent_path(opt_str(home), opt_str(path)),
{
    let mut env: Vec<(String, String)> = Vec::new();
    if !cursor_set {
        env.push((own("GROK_CURSOR_MCPS_ENABLED"), own("0")));
    }
    if !claude_set {
        env.push((own("GROK_CLAUDE_MCPS_ENABLED"), own("0")));
    }
    env.push((own("PATH"), search_path(home, path)));
    env
}

} // verus!
