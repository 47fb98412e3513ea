//! Where things are: the hub's files, the sessions' and the agents' programs.

use crate::numeral::{decimal, decimal_reads_back};
use crate::paths::{
    agent_path, colon_from, first_directories, lock_beside, locked_pid, path_join, pieces_from,
    same_path, search_path_of, with_directories, Whereabouts,
};
use crate::text::{joined, occurs, trimmed};
use vstd::prelude::*;

verus! {

/// A name inside a directory is the directory, a slash and the name; a directory that
/// ends in a slash needs no other. A path from the root stands for itself, and so
/// does any where there is no directory.
pub proof fn names_stand_behind_their_directory(dir: Seq<char>, name: Seq<char>)
    ensures
        name.len() > 0 && name[0] == '/' ==> path_join(dir, name) == name,
        dir.len() == 0 ==> path_join(dir, name) == name,
        dir.len() > 0 && dir.last() != '/' && (name.len() == 0 || name[0] != '/') ==> path_join(
            dir,
            name,
        ) == dir + seq!['/'] + name,
        dir.len() > 0 && dir.last() == '/' && (name.len() == 0 || name[0] != '/') ==> path_join(
            dir,
            name,
        ) == dir + name,
{
    reveal_strlit("/");
    assert("/"@ =~= seq!['/']);
    if name.len() > 0 {
        assert(name.take(1)[0] == name[0]);
        if name[0] == '/' {
            assert(name.take(1) =~= "/"@);
        }
    }
    if dir.len() > 0 {
        assert(dir.skip(dir.len() - 1)[0] == dir.last());
        if dir.last() == '/' {
            assert(dir.skip(dir.len() - 1) =~= "/"@);
        }
    }
}

/// The hub's directory is the one that the setting names, or else `.gtm` in the
/// user's; an empty setting names none. Its socket is the one that the setting names,
/// or else in its directory, and the sessions are in the directory that the setting
/// names, or else in the user's.
pub proof fn directories_follow_the_settings(w: Whereabouts)
    ensures
        ({
            let user = match w.user_home {
                Some(s) => s,
                None => "."@,
            };
            &&& w.home() == (if w.gtm_home is Some && w.gtm_home->0.len() > 0 {
                w.gtm_home->0
            } else {
                path_join(user, ".gtm"@)
            })
            &&& w.sock() == (if w.socket is Some && w.socket->0.len() > 0 {
                w.socket->0
            } else {
                path_join(w.home(), "hub.sock"@)
            })
            &&& w.sessions() == (if w.grok_home is Some && w.grok_home->0.len() > 0 {
                path_join(w.grok_home->0, "sessions"@)
            } else {
                path_join(path_join(user, ".grok"@), "sessions"@)
            })
        }),
{
}

/// The hub keeps everything in its directory: its log, its id, the file for a new
/// device, the certificate and the key of its authority and of its listener, and a
/// file for each device.
pub proof fn hub_keeps_everything_in_its_directory(w: Whereabouts, id: Seq<char>)
    ensures
        w.log() == path_join(w.home(), "hub.log"@),
        w.hub_id() == path_join(w.home(), "hub-id"@),
        w.enroll() == path_join(w.home(), "gtm-hub.enroll"@),
        w.ca_cert() == path_join(path_join(w.home(), "ca"@), "ca.pem"@),
        w.ca_key() == path_join(path_join(w.home(), "ca"@), "ca.key"@),
        w.tls_cert() == path_join(path_join(w.home(), "tls"@), "server.pem"@),
        w.tls_key() == path_join(path_join(w.home(), "tls"@), "server.key"@),
        w.devices() == path_join(w.home(), "devices"@),
        w.device(id) == path_join(path_join(w.home(), "devices"@), id + ".json"@),
{
}

/// The lock stands beside the socket, in the same directory; without one there is
/// another for it.
pub proof fn lock_stands_beside_the_socket(dir: Seq<char>, otherwise: Seq<char>, w: Whereabouts)
    ensures
        lock_beside(Some(dir), otherwise) == path_join(dir, "hub.lock"@),
        lock_beside(None, otherwise) == otherwise,
        w.lock() == match crate::paths::parent_of(w.sock()) {
            Some(d) => path_join(d, "hub.lock"@),
            None => path_join(w.home(), "hub.lock"@),
        },
{
}

/// A lock file names the process whose number it holds, whatever white space is round
/// it; one that holds no number, or too great a one, names none.
pub proof fn lock_names_its_process(pid: u32, text: Seq<char>)
    ensures
        locked_pid(None) is None,
        trimmed(text) == decimal(pid as nat) ==> locked_pid(Some(text)) == Some(pid),
        crate::numeral::read_number(trimmed(text), u32::MAX as nat) is None ==> locked_pid(
            Some(text),
        ) is None,
{
    decimal_reads_back(pid as nat, u32::MAX as nat);
}

proof fn lemma_colon_at(s: Seq<char>, i: int, k: int)
    requires
        0 <= i <= k <= s.len(),
        forall|j: int| i <= j < k ==> #[trigger] s[j] != ':',
        k < s.len() ==> s[k] == ':',
    ensures
        colon_from(s, i) == k,
    decreases k - i,
{
    if i < k {
        lemma_colon_at(s, i + 1, k);
    }
}

proof fn lemma_colon_shift(p: Seq<char>, s: Seq<char>, i: int)
    requires
        0 <= i <= s.len(),
    ensures
        colon_from(p + s, p.len() + i) == p.len() + colon_from(s, i),
        i <= colon_from(s, i) <= s.len(),
    decreases s.len() - i,
{
    if i < s.len() {
        assert((p + s)[p.len() + i] == s[i]);
        if s[i] != ':' {
            lemma_colon_shift(p, s, i + 1);
        }
    }
}

proof fn lemma_pieces_shift(p: Seq<char>, s: Seq<char>, i: int)
    requires
        0 <= i <= s.len(),
    ensures
        pieces_from(p + s, p.len() + i) == pieces_from(s, i),
    decreases s.len() - i,
{
    lemma_colon_shift(p, s, i);
    let k = colon_from(s, i);
    assert((p + s).subrange(p.len() + i, p.len() + k) =~= s.subrange(i, k));
    if k < s.len() {
        lemma_pieces_shift(p, s, k + 1);
    }
}

/// A search path is its directories with a colon between each two: what stands before
/// the first colon is the first, and what stands behind it has the others.
pub proof fn search_path_is_cut_at_colons(dir: Seq<char>, rest: Seq<char>)
    requires
        forall|i: int| 0 <= i < dir.len() ==> #[trigger] dir[i] != ':',
    ensures
        pieces_from(dir, 0) == seq![dir],
        pieces_from(dir + seq![':'] + rest, 0) == seq![dir] + pieces_from(rest, 0),
{
    let s = dir + seq![':'] + rest;
    let n = dir.len() as int;
    lemma_colon_at(dir, 0, n);
    lemma_colon_at(s, 0, n);
    assert(dir.subrange(0, n) =~= dir);
    assert(s.subrange(0, n) =~= dir);
    lemma_pieces_shift(dir + seq![':'], rest, 0);
}

/// Directories that are added stay behind those that are there, in their order; one
/// that is there already is not added again, and any other is.
pub proof fn directories_are_added_once(dirs: Seq<Seq<char>>, more: Seq<Seq<char>>, k: int)
    ensures
        dirs.is_prefix_of(with_directories(dirs, more)),
        0 <= k < more.len() ==> with_directories(dirs, more).contains(more[k]) || exists|i: int|
            0 <= i < with_directories(dirs, more).len() && same_path(
                #[trigger] with_directories(dirs, more)[i],
                more[k],
            ),
        forall|i: int|
            dirs.len() <= i < with_directories(dirs, more).len() ==> more.contains(
                #[trigger] with_directories(dirs, more)[i],
            ),
        forall|i: int, j: int|
            0 <= i < j && dirs.len() <= j < with_directories(dirs, more).len() ==> !same_path(
                #[trigger] with_directories(dirs, more)[i],
                #[trigger] with_directories(dirs, more)[j],
            ),
    decreases more.len(),
{
    let all = with_directories(dirs, more);
    if more.len() > 0 {
        let front = more.drop_last();
        let before = with_directories(dirs, front);
        directories_are_added_once(dirs, front, k);
        assert(dirs =~= before.subrange(0, dirs.len() as int));
        assert(dirs =~= all.subrange(0, dirs.len() as int));
        assert forall|i: int| dirs.len() <= i < all.len() implies more.contains(#[trigger] all[i]) by {
            if i < before.len() {
                assert(before[i] == all[i]);
                let j = choose|j: int| 0 <= j < front.len() && front[j] == before[i];
                assert(more[j] == all[i]);
            } else {
                assert(more[more.len() - 1] == all[i]);
            }
        }
        assert forall|i: int, j: int|
            0 <= i < j && dirs.len() <= j < all.len() implies !same_path(
            #[trigger] all[i],
            #[trigger] all[j],
        ) by {
            assert(all[i] == before[i]);
            if j < before.len() {
                assert(all[j] == before[j]);
            }
        }
        if 0 <= k < more.len() {
            if k < front.len() {
                assert(front[k] == more[k]);
                if before.contains(more[k]) {
                    let i = choose|i: int| 0 <= i < before.len() && before[i] == more[k];
                    assert(all[i] == more[k]);
                } else {
                    let i = choose|i: int|
                        0 <= i < before.len() && same_path(#[trigger] before[i], more[k]);
                    assert(all[i] == before[i]);
                }
            } else {
                if exists|i: int| 0 <= i < before.len() && same_path(#[trigger] before[i], more[k]) {
                    let i = choose|i: int|
                        0 <= i < before.len() && same_path(#[trigger] before[i], more[k]);
                    assert(all[i] == before[i]);
                } else {
                    assert(all[all.len() - 1] == more[k]);
                }
            }
        }
    } else {
        assert(dirs =~= all.subrange(0, dirs.len() as int));
    }
}

/// The directories that an agent's programs are looked for in.
pub open spec fn search_directories(home: Option<Seq<char>>, path: Option<Seq<char>>) -> Seq<
    Seq<char>,
> {
    let usual = seq!["/opt/homebrew/bin"@, "/usr/local/bin"@, "/usr/bin"@, "/bin"@];
    let first = if home is Some {
        seq![
            path_join(path_join(home->0, ".grok"@), "bin"@),
            path_join(path_join(home->0, ".local"@), "bin"@),
        ] + usual
    } else {
        usual
    };
    if path is Some {
        with_directories(first, pieces_from(path->0, 0))
    } else {
        first
    }
}

/// Whether one of some directories has a colon in its name.
pub open spec fn has_colon(dirs: Seq<Seq<char>>) -> bool {
    exists|i: int| 0 <= i < dirs.len() && occurs(#[trigger] dirs[i], ":"@)
}

/// An agent's programs are looked for in the user's own directories, then in the
/// usual ones, then in those of the hub's search path that are not among them; a
/// colon stands between each two. Where one of them has a colon in its name there is
/// no search path.
pub proof fn agents_look_in_the_usual_places_first(
    home: Option<Seq<char>>,
    path: Option<Seq<char>>,
)
    ensures
        has_colon(search_directories(home, path)) ==> agent_path(home, path) == Seq::<
            char,
        >::empty(),
        !has_colon(search_directories(home, path)) ==> agent_path(home, path) == joined(
            search_directories(home, path),
            ":"@,
        ),
{
    let usual = seq!["/opt/homebrew/bin"@, "/usr/local/bin"@, "/usr/bin"@, "/bin"@];
    if let Some(h) = home {
        assert(first_directories(home) =~= seq![
            path_join(path_join(h, ".grok"@), "bin"@),
            path_join(path_join(h, ".local"@), "bin"@),
        ] + usual);
    }
    assert(agent_path(home, path) == search_path_of(search_directories(home, path)));
}

} // verus!
