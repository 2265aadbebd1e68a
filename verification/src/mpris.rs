//! The file that a media player on this computer plays.
use vstd::prelude::*;

use crate::text::{begins, same, starts_with};
use crate::web::{parse_url, percent_decode, percent_decoded, url_parts, UrlParts, UrlView};

verus! {

/// Whether a name on the bus is that of a media player.
pub open spec fn names_player(name: Seq<char>) -> bool {
    begins(name, "org.mpris.MediaPlayer2."@)
}

/// Whether a name on the bus is that of a media player.
pub fn is_player(name: &str) -> (r: bool)
    ensures
        r == names_player(name@),
{
    starts_with(name, "org.mpris.MediaPlayer2.")
}

/// The path that the parts of an address lead to, where it is that of a file.
pub open spec fn path_in(parts: Option<UrlView>) -> Option<Seq<char>> {
    match parts {
        Some(parts) => if parts.scheme == "file"@ {
            Some(percent_decoded(parts.path))
        } else {
            None
        },
        None => None,
    }
}

/// The path that the parts of an address lead to, where it is that of a file.
pub fn path_of_parts(parts: Option<UrlParts>) -> (r: Option<String>)
    ensures
        match r {
            Some(path) => path_in(
                match parts {
                    Some(parts) => Some(parts@),
                    None => None,
                },
            ) == Some(path@),
            None => path_in(
                match parts {
                    Some(parts) => Some(parts@),
                    None => None,
                },
            ) is None,
        },
{
    match parts {
        Some(parts) => if same(parts.scheme.as_str(), "file") {
            Some(percent_decode(parts.path.as_str()))
        } else {
            None
        },
        None => None,
    }
}

/// The path that an address leads to, where it is that of a file.
pub fn file_url_to_path(url: &str) -> (r: Option<String>)
    ensures
        match r {
            Some(path) => path_in(url_parts(url@)) == Some(path@),
            None => path_in(url_parts(url@)) is None,
        },
{
    path_of_parts(parse_url(url))
}

/// How much a player in this state is preferred; less is more.
pub open spec fn rank_of(status: Seq<char>) -> u8 {
    if status == "Playing"@ {
        0
    } else if status == "Paused"@ {
        1
    } else {
        2
    }
}

/// How much a player in this state is preferred; less is more.
pub fn rank(status: &str) -> (r: u8)
    ensures
        r == rank_of(status@),
{
    if same(status, "Playing") {
        0
    } else if same(status, "Paused") {
        1
    } else {
        2
    }
}

/// A file is that of the first player that no other is preferred to.
pub open spec fn is_choice(found: Seq<(u8, String)>, path: Seq<char>) -> bool {
    exists|i: int|
        {
            &&& 0 <= i < found.len()
            &&& path == (#[trigger] found[i]).1@
            &&& forall|j: int| 0 <= j < found.len() ==> found[i].0 <= (#[trigger] found[j]).0
            &&& forall|j: int| 0 <= j < i ==> found[i].0 < (#[trigger] found[j]).0
        }
}

/// The file of the first player that is preferred to no other.
pub fn choose_file(found: Vec<(u8, String)>) -> (r: Option<String>)
    ensures
        r is None == (found@.len() == 0),
        r matches Some(path) ==> is_choice(found@, path@),
{
    if found.len() == 0 {
        return None;
    }
    let mut best: usize = 0;
    for k in 1..found.len()
        invariant
            best < k <= found@.len(),
            forall|j: int| 0 <= j < k ==> found@[best as int].0 <= (#[trigger] found@[j]).0,
            forall|j: int| 0 <= j < best ==> found@[best as int].0 < (#[trigger] found@[j]).0,
    {
        if found[k].0 < found[best].0 {
            best = k;
        }
    }
    let path = found[best].1.clone();
    assert(path@ == found@[best as int].1@);
    Some(path)
}

/// A media player is what bears a name below that of the interface.
pub proof fn players_bear_the_name(player: Seq<char>, name: Seq<char>)
    ensures
        names_player("org.mpris.MediaPlayer2."@ + player),
        names_player(name) ==> exists|rest: Seq<char>|
            name == #[trigger] ("org.mpris.MediaPlayer2."@ + rest),
{
    let prefix = "org.mpris.MediaPlayer2."@;
    assert((prefix + player).take(prefix.len() as int) =~= prefix);
    if names_player(name) {
        assert(name =~= prefix + name.skip(prefix.len() as int));
    }
}

/// An address leads to a file by its path, in which no escapes are left, and
/// only where it is that of a file.
pub proof fn only_files_have_paths(parts: UrlView)
    ensures
        parts.scheme == "file"@ ==> path_in(Some(parts)) == Some(percent_decoded(parts.path)),
        parts.scheme != "file"@ ==> path_in(Some(parts)) is None,
        path_in(None) is None,
{
}

/// A player that plays is preferred to one that pauses, and that one to any
/// other; no two others differ.
pub proof fn playing_comes_first(status: Seq<char>, other: Seq<char>)
    requires
        status != "Playing"@ && status != "Paused"@,
        other != "Playing"@ && other != "Paused"@,
    ensures
        rank_of("Playing"@) < rank_of("Paused"@) < rank_of(status),
        rank_of(status) == rank_of(other),
{
    reveal_strlit("Playing");
    reveal_strlit("Paused");
    assert("Playing"@.len() == 7 && "Paused"@.len() == 6);
}

/// Of players that are found, one that plays goes before any that does not, and
/// of those that fare alike the one that was found first.
pub proof fn best_player_is_chosen(found: Seq<(u8, String)>, path: Seq<char>, i: int)
    requires
        is_choice(found, path),
        0 <= i < found.len(),
    ensures
        (forall|j: int| 0 <= j < found.len() && j != i ==> found[i].0 < (#[trigger] found[j]).0)
            ==> path == found[i].1@,
        (forall|j: int| 0 <= j < found.len() ==> found[0].0 <= (#[trigger] found[j]).0) ==> path
            == found[0].1@,
{
    let k = choose|k: int|
        {
            &&& 0 <= k < found.len()
            &&& path == (#[trigger] found[k]).1@
            &&& forall|j: int| 0 <= j < found.len() ==> found[k].0 <= (#[trigger] found[j]).0
            &&& forall|j: int| 0 <= j < k ==> found[k].0 < (#[trigger] found[j]).0
        };
    assert(found[k].0 <= found[i].0);
    assert(found[k].0 <= found[0].0);
}

} // verus!
